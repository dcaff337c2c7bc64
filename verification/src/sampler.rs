//! The sampler: one sample per tick, a stop rule, and drift-corrected
//! pacing.
//!
//! The sampler neither sleeps nor reads the host. Its driver takes the time,
//! refreshes the host handle, calls `tick` (or `observe` with readings of
//! its own), and, unless told to stop, sleeps for `sleep_for` before the
//! next tick. A finite run keeps every sample; a
//! continuous one keeps a window of the most recent.

use vstd::prelude::*;
use sysinfo::System;
use crate::metrics::{effective_interval, effective_interval_spec, MetricSource};
use crate::sample::{
    all_valid,
    lemma_round_seconds_monotonic,
    ordered,
    round_seconds_spec,
    Sample,
    Series,
};
use crate::window::{lemma_retained_keeps_order, lemma_retained_push, retained, Window};

verus! {

/// Whether sampling ends after a tick at `now_ms`: the load generator has
/// exited, or the configured duration, if there is one, has elapsed.
pub open spec fn stop_condition(limit_ms: Option<u64>, now_ms: u64, load_exited: bool) -> bool {
    load_exited || (limit_ms matches Some(limit) && now_ms >= limit)
}

/// How long to sleep at `now_ms` so that the next tick starts one interval
/// after the last one started: the interval less the time already spent,
/// and nothing once that time exceeds the interval. A clock that reads
/// earlier than the tick's start counts as no time spent.
pub open spec fn sleep_spec(interval_ms: u64, tick_start_ms: u64, now_ms: u64) -> int {
    let spent: int = if now_ms >= tick_start_ms {
        now_ms - tick_start_ms
    } else {
        0
    };
    if spent >= interval_ms {
        0
    } else {
        interval_ms - spent
    }
}

/// The time a tick is recorded at: the clock reading, or the previous
/// tick's time where the clock reads earlier than that.
pub open spec fn tick_time(last_tick_ms: u64, now_ms: u64) -> u64 {
    if now_ms >= last_tick_ms {
        now_ms
    } else {
        last_tick_ms
    }
}

/// No tick started before its boundary: each lies at least one interval
/// after the one before it.
pub open spec fn paced(times: Seq<u64>, interval_ms: u64) -> bool {
    forall|k: int|
        0 <= k < times.len() - 1 ==> (#[trigger] times[k]) + interval_ms <= times[k + 1]
}

/// No tick started late: each lies at most one interval after the one
/// before it.
pub open spec fn punctual(times: Seq<u64>, interval_ms: u64) -> bool {
    forall|k: int|
        0 <= k < times.len() - 1 ==> times[k + 1] <= (#[trigger] times[k]) + interval_ms
}

/// A driver that sleeps as long as asked wakes on the tick boundary, one
/// interval after the tick began, however long the tick's work took; only
/// when the work took longer than the interval does it wake late, and then
/// without sleeping at all. So a slow tick delays no later one.
pub proof fn lemma_sleep_reaches_boundary(interval_ms: u64, tick_start_ms: u64, now_ms: u64)
    requires
        tick_start_ms <= now_ms,
    ensures
        now_ms + sleep_spec(interval_ms, tick_start_ms, now_ms) == if now_ms - tick_start_ms
            >= interval_ms {
            now_ms as int
        } else {
            tick_start_ms + interval_ms
        },
        now_ms + sleep_spec(interval_ms, tick_start_ms, now_ms) >= tick_start_ms + interval_ms,
        0 <= sleep_spec(interval_ms, tick_start_ms, now_ms) <= interval_ms,
{
}

/// In a paced run the `k`-th tick lies at least `k` intervals after the
/// start.
pub proof fn lemma_paced_lower_bound(times: Seq<u64>, interval_ms: u64, k: int)
    requires
        paced(times, interval_ms),
        0 <= k < times.len(),
    ensures
        times[k] >= k * interval_ms,
    decreases k,
{
    let t = interval_ms as int;
    if k > 0 {
        lemma_paced_lower_bound(times, interval_ms, k - 1);
        assert(times[k - 1] + interval_ms <= times[k]);
        assert((k - 1) * t + t == k * t) by (nonlinear_arith);
    } else {
        assert(k * t == 0) by (nonlinear_arith)
            requires
                k == 0,
        ;
    }
}

/// In a punctual run the `k`-th tick lies at most `k` intervals after the
/// first.
pub proof fn lemma_punctual_upper_bound(times: Seq<u64>, interval_ms: u64, k: int)
    requires
        punctual(times, interval_ms),
        0 <= k < times.len(),
    ensures
        times[k] <= times[0] + k * interval_ms,
    decreases k,
{
    let t = interval_ms as int;
    if k > 0 {
        lemma_punctual_upper_bound(times, interval_ms, k - 1);
        assert(times[k] <= times[k - 1] + interval_ms);
        assert((k - 1) * t + t == k * t) by (nonlinear_arith);
    } else {
        assert(k * t == 0) by (nonlinear_arith)
            requires
                k == 0,
        ;
    }
}

/// Where the samples of a run are kept.
enum Store {
    /// Every sample, for a finite run.
    Full(Series),
    /// The most recent samples, for a continuous run.
    Ring(Window),
}

/// Takes one sample per tick and decides when sampling ends.
pub struct Sampler {
    interval_ms: u64,
    limit_ms: Option<u64>,
    store: Store,
    last_tick_ms: u64,
    stopped: bool,
    history: Ghost<Seq<Sample>>,
    times: Ghost<Seq<u64>>,
}

impl View for Sampler {
    type V = Seq<Sample>;

    /// The samples held, oldest first.
    closed spec fn view(&self) -> Seq<Sample> {
        match self.store {
            Store::Full(series) => series@,
            Store::Ring(window) => window@,
        }
    }
}

impl Sampler {
    /// The tick interval in milliseconds.
    pub closed spec fn interval(&self) -> u64 {
        self.interval_ms
    }

    /// The configured run duration in milliseconds, if sampling is bounded.
    pub closed spec fn limit(&self) -> Option<u64> {
        self.limit_ms
    }

    /// The window's capacity, or `None` where every sample is kept.
    pub closed spec fn capacity(&self) -> Option<nat> {
        match self.store {
            Store::Full(_) => None,
            Store::Ring(window) => Some(window.capacity_spec()),
        }
    }

    /// Every sample produced so far, evicted ones included, oldest first.
    pub closed spec fn history(&self) -> Seq<Sample> {
        self.history@
    }

    /// The time in milliseconds at which each sample of the history was
    /// taken.
    pub closed spec fn times(&self) -> Seq<u64> {
        self.times@
    }

    /// The time of the most recent tick, zero before the first.
    pub closed spec fn last_tick(&self) -> u64 {
        self.last_tick_ms
    }

    /// Whether the stop condition has held at a tick.
    pub closed spec fn stopped(&self) -> bool {
        self.stopped
    }

    /// What the sampler holds of a history: all of it, or the window's
    /// share.
    pub open spec fn kept(history: Seq<Sample>, capacity: Option<nat>) -> Seq<Sample> {
        match capacity {
            None => history,
            Some(c) => retained(history, c),
        }
    }

    /// The sampler's invariant.
    pub closed spec fn wf(&self) -> bool {
        &&& self.interval_ms >= 1
        &&& match self.store {
            Store::Full(series) => series.wf(),
            Store::Ring(window) => window.wf(),
        }
        &&& self@ == Sampler::kept(self.history@, self.capacity())
        &&& self.times@.len() == self.history@.len()
        &&& all_valid(self.history@)
        &&& ordered(self.history@)
        &&& forall|k: int|
            0 <= k < self.history@.len() ==> (#[trigger] self.history@[k]).elapsed_seconds as int
                == round_seconds_spec(self.times@[k] as int)
        &&& forall|i: int, j: int|
            0 <= i <= j < self.times@.len() ==> (#[trigger] self.times@[i])
                <= (#[trigger] self.times@[j])
        &&& self.times@.len() == 0 ==> self.last_tick_ms == 0 && !self.stopped
        &&& self.times@.len() > 0 ==> self.last_tick_ms == self.times@.last()
        &&& forall|k: int|
            0 <= k < self.times@.len() - 1 ==> !stop_condition(
                self.limit_ms,
                #[trigger] self.times@[k],
                false,
            )
        &&& (!self.stopped && self.times@.len() > 0) ==> !stop_condition(
            self.limit_ms,
            self.times@.last(),
            false,
        )
    }

    /// A sampler for one finite run: every sample is kept, and sampling
    /// ends once `duration_ms` has elapsed or the load generator has exited.
    /// An interval of zero is raised to one millisecond.
    pub fn full_capture(interval_ms: u64, duration_ms: u64) -> (sampler: Sampler)
        ensures
            sampler.wf(),
            sampler.interval() as int == effective_interval_spec(interval_ms, 0),
            sampler.limit() == Some(duration_ms),
            sampler.capacity().is_none(),
            sampler.history() == Seq::<Sample>::empty(),
            sampler.times() == Seq::<u64>::empty(),
            sampler@ == Seq::<Sample>::empty(),
            sampler.last_tick() == 0,
            !sampler.stopped(),
    {
        Sampler {
            interval_ms: effective_interval(interval_ms, 0),
            limit_ms: Some(duration_ms),
            store: Store::Full(Series::new()),
            last_tick_ms: 0,
            stopped: false,
            history: Ghost(Seq::empty()),
            times: Ghost(Seq::empty()),
        }
    }

    /// A sampler for continuous use: the latest `capacity` samples are kept,
    /// and sampling ends only when the driver reports that it should. An
    /// interval of zero is raised to one millisecond.
    pub fn windowed(interval_ms: u64, capacity: usize) -> (sampler: Sampler)
        ensures
            sampler.wf(),
            sampler.interval() as int == effective_interval_spec(interval_ms, 0),
            sampler.limit().is_none(),
            sampler.capacity() == Some(capacity as nat),
            sampler.history() == Seq::<Sample>::empty(),
            sampler.times() == Seq::<u64>::empty(),
            sampler@ == Seq::<Sample>::empty(),
            sampler.last_tick() == 0,
            !sampler.stopped(),
    {
        Sampler {
            interval_ms: effective_interval(interval_ms, 0),
            limit_ms: None,
            store: Store::Ring(Window::new(capacity)),
            last_tick_ms: 0,
            stopped: false,
            history: Ghost(Seq::empty()),
            times: Ghost(Seq::empty()),
        }
    }

    /// The tick interval in milliseconds.
    pub fn interval_ms(&self) -> (interval: u64)
        ensures
            interval == self.interval(),
    {
        self.interval_ms
    }

    /// Whether the stop condition has held at a tick.
    pub fn is_stopped(&self) -> (stopped: bool)
        ensures
            stopped == self.stopped(),
    {
        self.stopped
    }

    /// The time of the most recent tick in milliseconds.
    pub fn last_tick_ms(&self) -> (millis: u64)
        ensures
            millis == self.last_tick(),
    {
        self.last_tick_ms
    }

    /// Number of samples held.
    pub fn len(&self) -> (n: usize)
        ensures
            n == self@.len(),
    {
        match &self.store {
            Store::Full(series) => series.len(),
            Store::Ring(window) => window.len(),
        }
    }

    /// The sample at `index`, counted from the oldest one held.
    pub fn get(&self, index: usize) -> (sample: Option<Sample>)
        requires
            self.wf(),
        ensures
            index < self@.len() ==> sample == Some(self@[index as int]),
            index >= self@.len() ==> sample.is_none(),
    {
        match &self.store {
            Store::Full(series) => series.get(index),
            Store::Ring(window) => window.get(index),
        }
    }

    /// The most recent sample.
    pub fn last(&self) -> (sample: Option<Sample>)
        requires
            self.wf(),
        ensures
            self@.len() > 0 ==> sample == Some(self@.last()),
            self@.len() == 0 ==> sample.is_none(),
    {
        match &self.store {
            Store::Full(series) => series.last(),
            Store::Ring(window) => window.last(),
        }
    }

    /// A copy of the samples held, as a series of its own.
    pub fn series(&self) -> (series: Series)
        requires
            self.wf(),
        ensures
            series@ == self@,
            series.wf(),
    {
        proof {
            self.lemma_held_in_order();
        }
        let samples: Vec<Sample> = match &self.store {
            Store::Full(series) => series.to_vec(),
            Store::Ring(window) => window.to_vec(),
        };
        let built = Series::from_vec(samples);
        built.unwrap()
    }

    /// Gives up the sampler for the samples it holds.
    pub fn into_series(self) -> (series: Series)
        requires
            self.wf(),
        ensures
            series@ == self@,
            series.wf(),
    {
        proof {
            self.lemma_held_in_order();
        }
        match self.store {
            Store::Full(series) => series,
            Store::Ring(window) => {
                let built = Series::from_vec(window.to_vec());
                built.unwrap()
            },
        }
    }

    /// Records the sample of a tick at `now_ms` with the readings `cpu` and
    /// `mem`, then checks the stop condition. Returns whether sampling has
    /// ended. Once it has, further calls record nothing.
    pub fn observe(&mut self, now_ms: u64, cpu: u64, mem: u64, load_exited: bool) -> (stop: bool)
        requires
            old(self).wf(),
        ensures
            final(self).wf(),
            final(self).interval() == old(self).interval(),
            final(self).limit() == old(self).limit(),
            final(self).capacity() == old(self).capacity(),
            final(self).stopped() == stop,
            old(self).stopped() ==> stop && final(self).history() == old(self).history()
                && final(self).times() == old(self).times() && final(self)@ == old(self)@
                && final(self).last_tick() == old(self).last_tick(),
            !old(self).stopped() ==> ({
                let at = tick_time(old(self).last_tick(), now_ms);
                let sample = Sample::at(at, cpu, mem);
                &&& stop == stop_condition(old(self).limit(), at, load_exited)
                &&& final(self).last_tick() == at
                &&& final(self).history() == old(self).history().push(sample)
                &&& final(self).times() == old(self).times().push(at)
                &&& final(self)@ == Sampler::kept(
                    old(self).history().push(sample),
                    old(self).capacity(),
                )
            }),
    {
        if self.stopped {
            return true;
        }
        let at: u64 = if now_ms >= self.last_tick_ms {
            now_ms
        } else {
            self.last_tick_ms
        };
        let sample: Sample = Sample::new(at, cpu, mem);
        let ghost before = self.history@;
        let ghost before_times = self.times@;
        proof {
            if before.len() > 0 {
                let last = before.len() - 1;
                assert(before[last].elapsed_seconds as int == round_seconds_spec(
                    before_times[last] as int,
                ));
                lemma_round_seconds_monotonic(self.last_tick_ms as int, at as int);
            }
        }
        match &mut self.store {
            Store::Full(series) => {
                let accepted = series.push(sample);
                assert(accepted);
            },
            Store::Ring(window) => {
                proof {
                    lemma_retained_push(before, window.capacity_spec(), sample);
                }
                window.push(sample);
            },
        }
        self.last_tick_ms = at;
        self.history = Ghost(before.push(sample));
        self.times = Ghost(before_times.push(at));
        let over: bool = match self.limit_ms {
            Some(limit) => at >= limit,
            None => false,
        };
        let stop: bool = load_exited || over;
        self.stopped = stop;
        proof {
            let after = self.history@;
            let after_times = self.times@;
            assert forall|k: int| 0 <= k < after.len() implies (#[trigger] after[k]).wf() by {
                if k < before.len() {
                    assert(after[k] == before[k]);
                }
            }
            assert forall|i: int, j: int| 0 <= i <= j < after.len() implies (#[trigger] after[i]).elapsed_seconds
                <= (#[trigger] after[j]).elapsed_seconds by {
                if j < before.len() {
                    assert(after[i] == before[i]);
                    assert(after[j] == before[j]);
                } else if i < before.len() {
                    assert(after[i] == before[i]);
                    assert(before[i].elapsed_seconds <= before[before.len() - 1].elapsed_seconds);
                }
            }
            assert forall|k: int| 0 <= k < after.len() implies (#[trigger] after[k]).elapsed_seconds as int
                == round_seconds_spec(after_times[k] as int) by {
                if k < before.len() {
                    assert(after[k] == before[k]);
                    assert(after_times[k] == before_times[k]);
                }
            }
            assert forall|i: int, j: int| 0 <= i <= j < after_times.len() implies (#[trigger] after_times[i])
                <= (#[trigger] after_times[j]) by {
                if j < before_times.len() {
                    assert(after_times[i] == before_times[i]);
                    assert(after_times[j] == before_times[j]);
                } else if i < before_times.len() {
                    assert(after_times[i] == before_times[i]);
                    assert(before_times[i] <= before_times[before_times.len() - 1]);
                }
            }
            assert forall|k: int| 0 <= k < after_times.len() - 1 implies !stop_condition(
                self.limit_ms,
                #[trigger] after_times[k],
                false,
            ) by {
                assert(after_times[k] == before_times[k]);
            }
        }
        stop
    }

    /// Runs one tick against the host as `system` shows it: updates
    /// `source` from the handle, reads both utilisations and records them
    /// as `observe` does. To refresh the handle beforehand is the caller's
    /// part.
    pub fn tick(
        &mut self,
        source: &mut MetricSource,
        system: &System,
        now_ms: u64,
        load_exited: bool,
    ) -> (stop: bool)
        requires
            old(self).wf(),
            old(source).wf(),
        ensures
            final(self).wf(),
            final(source).wf(),
            MetricSource::updated(*old(source), *system, *final(source)),
            final(self).interval() == old(self).interval(),
            final(self).limit() == old(self).limit(),
            final(self).capacity() == old(self).capacity(),
            final(self).stopped() == stop,
            old(self).stopped() ==> stop && final(self).history() == old(self).history()
                && final(self).times() == old(self).times() && final(self)@ == old(self)@
                && final(self).last_tick() == old(self).last_tick(),
            !old(self).stopped() ==> ({
                let at = tick_time(old(self).last_tick(), now_ms);
                let sample = Sample::at(at, final(source).cpu(), final(source).mem());
                &&& stop == stop_condition(old(self).limit(), at, load_exited)
                &&& final(self).last_tick() == at
                &&& final(self).history() == old(self).history().push(sample)
                &&& final(self).times() == old(self).times().push(at)
                &&& final(self)@ == Sampler::kept(
                    old(self).history().push(sample),
                    old(self).capacity(),
                )
            }),
    {
        source.update(system);
        let cpu: u64 = source.cpu_utilization();
        let mem: u64 = source.memory_utilization();
        self.observe(now_ms, cpu, mem, load_exited)
    }

    /// How many milliseconds to sleep at `now_ms` before the next tick, so
    /// that a slow tick shortens the sleep instead of delaying every later
    /// tick.
    pub fn sleep_for(&self, now_ms: u64) -> (millis: u64)
        ensures
            millis as int == sleep_spec(self.interval(), self.last_tick(), now_ms),
            millis <= self.interval(),
    {
        let spent: u64 = if now_ms >= self.last_tick_ms {
            now_ms - self.last_tick_ms
        } else {
            0
        };
        if spent >= self.interval_ms {
            0
        } else {
            self.interval_ms - spent
        }
    }

    /// The samples held are all in range and in order of time.
    pub proof fn lemma_held_in_order(&self)
        requires
            self.wf(),
        ensures
            all_valid(self@),
            ordered(self@),
            all_valid(self.history()),
            ordered(self.history()),
    {
        match self.capacity() {
            Some(c) => {
                lemma_retained_keeps_order(self.history@, c);
            },
            None => {},
        }
    }

    /// A sampler holds the smaller of what it produced and its capacity,
    /// and what it holds are the samples produced last, in the order in
    /// which they were produced.
    pub proof fn lemma_holds_latest(&self)
        requires
            self.wf(),
        ensures
            self.capacity().is_none() ==> self@ == self.history(),
            self.capacity() matches Some(c) ==> self@.len() == if self.history().len() <= c {
                self.history().len()
            } else {
                c
            },
            forall|i: int|
                0 <= i < self@.len() ==> #[trigger] self@[i] == self.history()[self.history().len()
                    - self@.len() + i],
    {
    }

    /// Each sample's elapsed time is the rounded time of its tick, and tick
    /// times never decrease.
    pub proof fn lemma_history_follows_times(&self)
        requires
            self.wf(),
        ensures
            self.times().len() == self.history().len(),
            forall|k: int|
                0 <= k < self.history().len() ==> (#[trigger] self.history()[k]).elapsed_seconds as int
                    == round_seconds_spec(self.times()[k] as int),
            forall|i: int, j: int|
                0 <= i <= j < self.times().len() ==> (#[trigger] self.times()[i])
                    <= (#[trigger] self.times()[j]),
            self.times().len() > 0 ==> self.last_tick() == self.times().last(),
    {
    }

    /// Sampling went on after a tick only while the configured duration had
    /// not elapsed: every tick but the last lies before the limit, and so
    /// does the last while the sampler has not stopped.
    pub proof fn lemma_ticks_before_limit(&self)
        requires
            self.wf(),
            self.limit().is_some(),
        ensures
            forall|k: int|
                0 <= k < self.times().len() - 1 ==> (#[trigger] self.times()[k])
                    < self.limit().unwrap(),
            !self.stopped() && self.times().len() > 0 ==> self.times().last()
                < self.limit().unwrap(),
    {
        assert forall|k: int| 0 <= k < self.times().len() - 1 implies (#[trigger] self.times()[k])
            < self.limit().unwrap() by {
            assert(!stop_condition(self.limit_ms, self.times@[k], false));
        }
    }

    /// A paced run of duration `d` and interval `t` produces at most
    /// `d / t + 2` samples.
    pub proof fn lemma_sample_count_at_most(&self)
        requires
            self.wf(),
            self.limit().is_some(),
            paced(self.times(), self.interval()),
        ensures
            self.history().len() <= self.limit().unwrap() / self.interval() + 2,
    {
        let n = self.times@.len() as int;
        let d = self.limit_ms.unwrap() as int;
        let t = self.interval_ms as int;
        if n >= 2 {
            self.lemma_ticks_before_limit();
            lemma_paced_lower_bound(self.times@, self.interval_ms, n - 2);
            assert(self.times@[n - 2] < d);
            assert(n - 2 <= d / t) by (nonlinear_arith)
                requires
                    (n - 2) * t < d,
                    t >= 1,
                    n >= 2,
            ;
        } else {
            assert(0 <= d / t) by (nonlinear_arith)
                requires
                    d >= 0,
                    t >= 1,
            ;
        }
    }

    /// A punctual run that began at time zero and was ended by its duration
    /// `d`, not by the load generator, has produced at least `d / t + 1`
    /// samples.
    pub proof fn lemma_sample_count_at_least(&self)
        requires
            self.wf(),
            self.limit().is_some(),
            punctual(self.times(), self.interval()),
            self.times().len() > 0,
            self.times()[0] == 0,
            self.times().last() >= self.limit().unwrap(),
        ensures
            self.history().len() >= self.limit().unwrap() / self.interval() + 1,
    {
        let n = self.times@.len() as int;
        let d = self.limit_ms.unwrap() as int;
        let t = self.interval_ms as int;
        lemma_punctual_upper_bound(self.times@, self.interval_ms, n - 1);
        assert(d / t <= n - 1) by (nonlinear_arith)
            requires
                d <= (n - 1) * t,
                t >= 1,
                n >= 1,
                d >= 0,
        ;
    }

    /// In a punctual run of duration `d` and interval `t` every tick lies
    /// before `d + t`, so no sample's elapsed time exceeds `d + t` rounded
    /// to seconds.
    pub proof fn lemma_elapsed_bounded(&self, k: int)
        requires
            self.wf(),
            self.limit().is_some(),
            punctual(self.times(), self.interval()),
            self.times().len() > 0,
            self.times()[0] < self.limit().unwrap() + self.interval(),
            0 <= k < self.history().len(),
        ensures
            self.times()[k] < self.limit().unwrap() + self.interval(),
            self.history()[k].elapsed_seconds as int <= round_seconds_spec(
                self.limit().unwrap() + self.interval(),
            ),
    {
        let n = self.times@.len() as int;
        let d = self.limit_ms.unwrap() as int;
        let t = self.interval_ms as int;
        self.lemma_ticks_before_limit();
        if k < n - 1 {
            assert(self.times@[k] < d);
        } else if n >= 2 {
            assert(self.times@[n - 2] < d);
            assert(self.times@[n - 2 + 1] <= self.times@[n - 2] + t);
        }
        assert(self.history@[k].elapsed_seconds as int == round_seconds_spec(
            self.times@[k] as int,
        ));
        lemma_round_seconds_monotonic(self.times@[k] as int, d + t);
    }
}

} // verus!
