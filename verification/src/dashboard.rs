//! The state behind a live dashboard: a rolling window of readings and the
//! bounds of the time axis that scrolls with it.
//!
//! Drawing, key handling and reading the host are the caller's. What is
//! decided here is what the chart shows after each tick, how long to wait
//! for input before the next tick, and which key ends the session.

use vstd::prelude::*;
use sysinfo::System;
use crate::metrics::{host_cpu_percent, host_memory_percent, MetricSource};
use crate::sample::{clamp_percent, clamp_percent_spec, Sample, MAX_PERCENT};
use crate::window::{retained, Window};

verus! {

/// Number of points a dashboard keeps.
pub const DASHBOARD_CAPACITY: usize = 100;

/// Width of the time axis a dashboard shows.
pub const DASHBOARD_SPAN: u64 = 100;

/// The key that ends a dashboard session.
pub const QUIT_KEY: char = 'q';

/// How long to wait for input before the next tick is due: what is left of
/// the tick interval, and nothing once it has passed.
pub open spec fn poll_timeout_spec(tick_rate_ms: u64, since_tick_ms: u64) -> int {
    if since_tick_ms >= tick_rate_ms {
        0
    } else {
        tick_rate_ms - since_tick_ms
    }
}

/// The time axis one tick later: both bounds move on by one, unless the
/// upper bound cannot grow any further.
pub open spec fn scrolled(bounds: (u64, u64)) -> (u64, u64) {
    if bounds.1 < u64::MAX {
        ((bounds.0 + 1) as u64, (bounds.1 + 1) as u64)
    } else {
        bounds
    }
}

/// The point a tick adds: it sits at the axis's upper bound and holds the
/// readings, each capped at one hundred.
pub open spec fn point_at(bounds: (u64, u64), cpu: u64, mem: u64) -> Sample {
    Sample {
        elapsed_seconds: bounds.1,
        cpu_percent: clamp_percent_spec(cpu as int) as u64,
        mem_percent: clamp_percent_spec(mem as int) as u64,
    }
}

/// How long to wait for input, in milliseconds, when `since_tick_ms` have
/// passed since the last tick.
pub fn poll_timeout(tick_rate_ms: u64, since_tick_ms: u64) -> (millis: u64)
    ensures
        millis as int == poll_timeout_spec(tick_rate_ms, since_tick_ms),
{
    if since_tick_ms >= tick_rate_ms {
        0
    } else {
        tick_rate_ms - since_tick_ms
    }
}

/// Whether a tick is due when `since_tick_ms` have passed since the last.
pub fn tick_due(tick_rate_ms: u64, since_tick_ms: u64) -> (due: bool)
    ensures
        due == (since_tick_ms >= tick_rate_ms),
{
    since_tick_ms >= tick_rate_ms
}

/// Whether a key press ends the session.
pub fn is_quit_key(key: char) -> (quit: bool)
    ensures
        quit == (key == QUIT_KEY),
{
    key == QUIT_KEY
}

/// A rolling window of host readings for live display.
pub struct Dashboard {
    source: MetricSource,
    points: Window,
    bounds: (u64, u64),
}

impl View for Dashboard {
    type V = Seq<Sample>;

    /// The points shown, oldest first.
    closed spec fn view(&self) -> Seq<Sample> {
        self.points@
    }
}

impl Dashboard {
    /// The bounds of the time axis.
    pub closed spec fn bounds(&self) -> (u64, u64) {
        self.bounds
    }

    /// The largest number of points kept.
    pub closed spec fn capacity(&self) -> nat {
        self.points.capacity_spec()
    }

    /// The source of the readings.
    pub closed spec fn source(&self) -> MetricSource {
        self.source
    }

    /// CPU utilisation as last taken from the host handle.
    pub open spec fn cpu(&self) -> u64 {
        self.source().cpu()
    }

    /// Memory utilisation as last taken from the host handle.
    pub open spec fn mem(&self) -> u64 {
        self.source().mem()
    }

    /// The dashboard's invariant.
    pub closed spec fn wf(&self) -> bool {
        &&& self.source.wf()
        &&& self.points.wf()
        &&& self.bounds.0 <= self.bounds.1
    }

    /// The axis's lower bound does not exceed its upper bound, and both
    /// utilisations are percentages.
    pub proof fn lemma_invariant(&self)
        requires
            self.wf(),
        ensures
            self.bounds().0 <= self.bounds().1,
            self.cpu() <= MAX_PERCENT,
            self.mem() <= MAX_PERCENT,
    {
        self.source.lemma_in_range();
    }

    /// A dashboard that has recorded nothing yet: it holds no point, its
    /// time axis runs from zero to the span, and its utilisations are those
    /// that `system` shows.
    pub fn new(system: &System) -> (dashboard: Dashboard)
        ensures
            dashboard.wf(),
            dashboard@ == Seq::<Sample>::empty(),
            dashboard.bounds() == (0u64, DASHBOARD_SPAN),
            dashboard.capacity() == DASHBOARD_CAPACITY,
            dashboard.cpu() as int == host_cpu_percent(*system, 0),
            dashboard.mem() as int == host_memory_percent(*system, 0),
    {
        let mut source = MetricSource::new();
        source.update(system);
        let points = Window::new(DASHBOARD_CAPACITY);
        Dashboard { source, points, bounds: (0, DASHBOARD_SPAN) }
    }

    /// Takes in what `system` shows without adding a point: the source is
    /// updated from the handle, the points and the axis stay as they were.
    pub fn refresh(&mut self, system: &System)
        requires
            old(self).wf(),
        ensures
            final(self).wf(),
            final(self)@ == old(self)@,
            final(self).bounds() == old(self).bounds(),
            final(self).capacity() == old(self).capacity(),
            MetricSource::updated(old(self).source(), *system, final(self).source()),
    {
        self.source.update(system);
    }

    /// Adds a point with the given readings at the axis's upper bound,
    /// drops the oldest point if there are more than the capacity, and
    /// scrolls the axis by one.
    pub fn record(&mut self, cpu: u64, mem: u64)
        requires
            old(self).wf(),
        ensures
            final(self).wf(),
            final(self).source() == old(self).source(),
            final(self)@ == retained(
                old(self)@.push(point_at(old(self).bounds(), cpu, mem)),
                old(self).capacity(),
            ),
            final(self).bounds() == scrolled(old(self).bounds()),
            final(self).capacity() == old(self).capacity(),
            final(self).cpu() == old(self).cpu(),
            final(self).mem() == old(self).mem(),
    {
        let point = Sample {
            elapsed_seconds: self.bounds.1,
            cpu_percent: clamp_percent(cpu),
            mem_percent: clamp_percent(mem),
        };
        self.points.push(point);
        if self.bounds.1 < u64::MAX {
            self.bounds = (self.bounds.0 + 1, self.bounds.1 + 1);
        }
    }

    /// One tick: takes in what `system` shows and records it as a point.
    /// To refresh the handle beforehand is the caller's part.
    pub fn on_tick(&mut self, system: &System)
        requires
            old(self).wf(),
        ensures
            final(self).wf(),
            MetricSource::updated(old(self).source(), *system, final(self).source()),
            final(self)@ == retained(
                old(self)@.push(point_at(old(self).bounds(), final(self).cpu(), final(self).mem())),
                old(self).capacity(),
            ),
            final(self).bounds() == scrolled(old(self).bounds()),
            final(self).capacity() == old(self).capacity(),
    {
        self.source.update(system);
        let cpu: u64 = self.source.cpu_utilization();
        let mem: u64 = self.source.memory_utilization();
        self.record(cpu, mem);
    }

    /// Number of points shown.
    pub fn len(&self) -> (n: usize)
        ensures
            n == self@.len(),
    {
        self.points.len()
    }

    /// The bounds of the time axis.
    pub fn x_bounds(&self) -> (bounds: (u64, u64))
        ensures
            bounds == self.bounds(),
    {
        self.bounds
    }

    /// The three labels of the time axis: its lower bound, its middle
    /// (rounded down) and its upper bound.
    pub fn x_labels(&self) -> (labels: (u64, u64, u64))
        requires
            self.wf(),
        ensures
            labels.0 == self.bounds().0,
            labels.1 as int == (self.bounds().0 + self.bounds().1) / 2,
            labels.2 == self.bounds().1,
    {
        let low: u64 = self.bounds.0;
        let high: u64 = self.bounds.1;
        (low, low + (high - low) / 2, high)
    }

    /// CPU utilisation as last taken from the host handle.
    pub fn cpu_utilization(&self) -> (percent: u64)
        ensures
            percent == self.cpu(),
    {
        self.source.cpu_utilization()
    }

    /// Memory utilisation as last taken from the host handle.
    pub fn memory_utilization(&self) -> (percent: u64)
        ensures
            percent == self.mem(),
    {
        self.source.memory_utilization()
    }

    /// The points shown, oldest first.
    pub fn points(&self) -> (points: Vec<Sample>)
        requires
            self.wf(),
        ensures
            points@ == self@,
    {
        self.points.to_vec()
    }
}

} // verus!
