//! Host-wide CPU and memory utilisation, as a `sysinfo` handle holds them.
//!
//! The operating system is read by the caller, who owns the handle and
//! refreshes it. What the handle then holds is turned into two percentages
//! here, and the last known value is kept whenever a reading is unusable,
//! so that a missing metric never aborts a run.

use vstd::prelude::*;
use sysinfo::{CpuExt, System, SystemExt};
use crate::sample::{clamp_percent, clamp_percent_spec, MAX_PERCENT};

verus! {

/// `sysinfo::System`, the handle through which the host is queried. Nothing
/// of its contents is visible to proofs.
#[verifier::external_type_specification]
#[verifier::external_body]
pub struct ExSystem(System);

/// What a handle holds of CPU usage: one reading per logical CPU, in the
/// order of `sysinfo::SystemExt::cpus`, each `sysinfo::CpuExt::cpu_usage`
/// cut to a whole number. Both are plain reads of the handle, so the same
/// handle always gives the same readings; what they are is not stated.
pub uninterp spec fn cpu_readings(system: System) -> Seq<u64>;

/// What a handle holds as the size of the RAM in bytes: the result of
/// `sysinfo::SystemExt::total_memory`, a plain read of the handle.
pub uninterp spec fn total_memory_of(system: System) -> u64;

/// What a handle holds as the RAM available in bytes: the result of
/// `sysinfo::SystemExt::available_memory`, a plain read of the handle.
pub uninterp spec fn available_memory_of(system: System) -> u64;

/// What a handle holds as the RAM in use in bytes: the result of
/// `sysinfo::SystemExt::used_memory`, computed from the handle alone.
pub uninterp spec fn used_memory_of(system: System) -> u64;

/// Hands out `sysinfo::CpuExt::cpu_usage` of each entry of
/// `sysinfo::SystemExt::cpus`, in that order, each cut to a whole number:
/// the handle's CPU readings. Nothing is claimed of how many there are or
/// of their values.
#[verifier::external_body]
fn system_cpu_usages(system: &System) -> (usages: Vec<u64>)
    ensures
        usages@ == cpu_readings(*system),
{
    system.cpus().iter().map(|cpu| cpu.cpu_usage() as u64).collect()
}

/// Calls `sysinfo::SystemExt::total_memory`: the size of the RAM in bytes
/// as the handle holds it. Nothing is claimed of the value.
#[verifier::external_body]
fn system_total_memory(system: &System) -> (bytes: u64)
    ensures
        bytes == total_memory_of(*system),
{
    system.total_memory()
}

/// Calls `sysinfo::SystemExt::available_memory`: the RAM available in
/// bytes as the handle holds it. Nothing is claimed of the value.
#[verifier::external_body]
fn system_available_memory(system: &System) -> (bytes: u64)
    ensures
        bytes == available_memory_of(*system),
{
    system.available_memory()
}

/// Calls `sysinfo::SystemExt::used_memory`: the RAM in use in bytes as the
/// handle holds it. On some platforms `sysinfo` computes it as total minus
/// available with a plain subtraction, so a handle whose available memory
/// exceeds its total is left out. Nothing is claimed of the value.
#[verifier::external_body]
fn system_used_memory(system: &System) -> (bytes: u64)
    requires
        available_memory_of(*system) <= total_memory_of(*system),
    ensures
        bytes == used_memory_of(*system),
{
    system.used_memory()
}

/// Reads `sysinfo::SystemExt::MINIMUM_CPU_UPDATE_INTERVAL` in milliseconds:
/// the shortest time between two refreshes for which `sysinfo` recomputes
/// CPU usage. It differs between platforms, so nothing is claimed of it.
#[verifier::external_body]
fn system_minimum_cpu_update_interval_ms() -> (millis: u64) {
    System::MINIMUM_CPU_UPDATE_INTERVAL.as_millis() as u64
}

/// Sum of the readings, each capped at one hundred.
pub open spec fn capped_sum(readings: Seq<u64>) -> int
    decreases readings.len(),
{
    if readings.len() == 0 {
        0
    } else {
        capped_sum(readings.drop_last()) + clamp_percent_spec(readings.last() as int)
    }
}

/// Average utilisation over all CPUs: the mean of the capped readings,
/// rounded down, or the last known value when there is no reading.
pub open spec fn average_percent_spec(readings: Seq<u64>, last_known: u64) -> int {
    if readings.len() == 0 {
        clamp_percent_spec(last_known as int)
    } else {
        capped_sum(readings) / (readings.len() as int)
    }
}

/// Memory utilisation: used over total as a percentage, rounded down and
/// capped at one hundred, or the last known value when the total is zero.
pub open spec fn memory_percent_spec(used: u64, total: u64, last_known: u64) -> int {
    if total == 0 {
        clamp_percent_spec(last_known as int)
    } else {
        clamp_percent_spec((used as int * 100) / (total as int))
    }
}

/// CPU utilisation as a handle shows it: the average of its readings, or
/// the last known value where it holds none.
pub open spec fn host_cpu_percent(system: System, last_known: u64) -> int {
    average_percent_spec(cpu_readings(system), last_known)
}

/// Memory utilisation as a handle shows it: used over total, or the last
/// known value where the handle's counters are unusable, which they are
/// when the total is zero or less than what is available.
pub open spec fn host_memory_percent(system: System, last_known: u64) -> int {
    if available_memory_of(system) <= total_memory_of(system) {
        memory_percent_spec(used_memory_of(system), total_memory_of(system), last_known)
    } else {
        clamp_percent_spec(last_known as int)
    }
}

/// The tick interval to sample at: the requested one, but no shorter than
/// the source can follow and never zero.
pub open spec fn effective_interval_spec(requested_ms: u64, minimum_ms: u64) -> int {
    if requested_ms >= minimum_ms && requested_ms >= 1 {
        requested_ms as int
    } else if minimum_ms >= 1 {
        minimum_ms as int
    } else {
        1
    }
}

/// The capped sum lies between zero and one hundred per reading.
pub proof fn lemma_capped_sum_bounds(readings: Seq<u64>)
    ensures
        0 <= capped_sum(readings) <= MAX_PERCENT * readings.len(),
    decreases readings.len(),
{
    if readings.len() > 0 {
        lemma_capped_sum_bounds(readings.drop_last());
    }
}

/// Whatever the readings and the last known value, the average is a
/// percentage.
pub proof fn lemma_average_percent_in_range(readings: Seq<u64>, last_known: u64)
    ensures
        0 <= average_percent_spec(readings, last_known) <= MAX_PERCENT,
{
    lemma_capped_sum_bounds(readings);
    if readings.len() > 0 {
        let n = readings.len() as int;
        let s = capped_sum(readings);
        assert(0 <= s / n <= 100) by (nonlinear_arith)
            requires
                n > 0,
                0 <= s <= 100 * n,
        ;
    }
}

/// Averages per-CPU usage readings into one percentage. With no reading at
/// all the last known value stands.
pub fn average_percent(readings: &Vec<u64>, last_known: u64) -> (percent: u64)
    ensures
        percent as int == average_percent_spec(readings@, last_known),
        percent <= MAX_PERCENT,
{
    proof {
        lemma_average_percent_in_range(readings@, last_known);
    }
    let n: usize = readings.len();
    if n == 0 {
        return clamp_percent(last_known);
    }
    let mut sum: u128 = 0;
    let mut i: usize = 0;
    while i < n
        invariant
            n == readings@.len(),
            i <= n,
            sum as int == capped_sum(readings@.subrange(0, i as int)),
            sum <= MAX_PERCENT * i,
        decreases n - i,
    {
        let reading: u64 = clamp_percent(readings[i]);
        proof {
            let next = readings@.subrange(0, i as int + 1);
            assert(next.drop_last() =~= readings@.subrange(0, i as int));
            assert(next.last() == readings@[i as int]);
        }
        sum = sum + reading as u128;
        i += 1;
    }
    assert(readings@.subrange(0, n as int) =~= readings@);
    let mean: u128 = sum / (n as u128);
    mean as u64
}

/// Turns used and total memory into a percentage. With a total of zero the
/// last known value stands.
pub fn memory_percent(used: u64, total: u64, last_known: u64) -> (percent: u64)
    ensures
        percent as int == memory_percent_spec(used, total, last_known),
        percent <= MAX_PERCENT,
{
    if total == 0 {
        return clamp_percent(last_known);
    }
    let scaled: u128 = (used as u128) * 100;
    let ratio: u128 = scaled / (total as u128);
    if ratio > MAX_PERCENT as u128 {
        MAX_PERCENT
    } else {
        ratio as u64
    }
}

/// Picks the tick interval: `requested_ms`, raised to `minimum_ms` where it
/// is shorter, and to one millisecond where both are zero.
pub fn effective_interval(requested_ms: u64, minimum_ms: u64) -> (interval_ms: u64)
    ensures
        interval_ms as int == effective_interval_spec(requested_ms, minimum_ms),
        interval_ms >= 1,
        interval_ms >= requested_ms,
        interval_ms >= minimum_ms,
{
    if requested_ms >= minimum_ms && requested_ms >= 1 {
        requested_ms
    } else if minimum_ms >= 1 {
        minimum_ms
    } else {
        1
    }
}

/// The tick interval to use on this host for a requested one: never zero
/// and never shorter than the requested interval. It is longer where the
/// host cannot recompute CPU usage that often.
pub fn host_interval(requested_ms: u64) -> (interval_ms: u64)
    ensures
        interval_ms >= 1,
        interval_ms >= requested_ms,
{
    let minimum_ms: u64 = system_minimum_cpu_update_interval_ms();
    effective_interval(requested_ms, minimum_ms)
}

/// The host's utilisation as last computed from a handle.
#[derive(Clone, Copy, Debug)]
pub struct MetricSource {
    cpu: u64,
    mem: u64,
}

impl MetricSource {
    /// Both cached percentages lie in `0..=100`.
    pub closed spec fn wf(&self) -> bool {
        self.cpu <= MAX_PERCENT && self.mem <= MAX_PERCENT
    }

    /// CPU utilisation as of the last update.
    pub closed spec fn cpu(&self) -> u64 {
        self.cpu
    }

    /// Memory utilisation as of the last update.
    pub closed spec fn mem(&self) -> u64 {
        self.mem
    }

    /// `after` is what an update from `system` makes of `before`: each
    /// utilisation is computed from what the handle holds, and falls back
    /// on the value `before` had where the handle holds nothing usable.
    pub open spec fn updated(before: MetricSource, system: System, after: MetricSource) -> bool {
        &&& after.cpu() as int == host_cpu_percent(system, before.cpu())
        &&& after.mem() as int == host_memory_percent(system, before.mem())
    }

    /// A percentage the source reports never exceeds one hundred.
    pub proof fn lemma_in_range(&self)
        requires
            self.wf(),
        ensures
            self.cpu() <= MAX_PERCENT,
            self.mem() <= MAX_PERCENT,
    {
    }

    /// A source that has seen no handle yet: both utilisations read zero.
    pub fn new() -> (source: MetricSource)
        ensures
            source.wf(),
            source.cpu() == 0,
            source.mem() == 0,
    {
        MetricSource { cpu: 0, mem: 0 }
    }

    /// Recomputes both utilisations from what `system` holds: CPU
    /// utilisation is the mean of its per-CPU readings, memory utilisation
    /// is used over total. A metric for which the handle holds nothing
    /// usable keeps its last known value. The handle is read as it is; to
    /// refresh it beforehand is the caller's part.
    pub fn update(&mut self, system: &System)
        requires
            old(self).wf(),
        ensures
            final(self).wf(),
            MetricSource::updated(*old(self), *system, *final(self)),
    {
        let usages: Vec<u64> = system_cpu_usages(system);
        let total: u64 = system_total_memory(system);
        let available: u64 = system_available_memory(system);
        self.cpu = average_percent(&usages, self.cpu);
        if available <= total {
            let used: u64 = system_used_memory(system);
            self.mem = memory_percent(used, total, self.mem);
        }
    }

    /// CPU utilisation in percent, averaged over all logical CPUs, as of the
    /// last update. Reading does not change it.
    pub fn cpu_utilization(&self) -> (percent: u64)
        ensures
            percent == self.cpu(),
    {
        self.cpu
    }

    /// Memory utilisation in percent, as of the last update. Reading does
    /// not change it.
    pub fn memory_utilization(&self) -> (percent: u64)
        ensures
            percent == self.mem(),
    {
        self.mem
    }
}

} // verus!
