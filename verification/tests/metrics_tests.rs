use loadbench::metrics::{
    average_percent, effective_interval, host_interval, memory_percent, MetricSource,
};
use sysinfo::{CpuExt, System, SystemExt};

#[test]
fn average_percent_is_the_mean_rounded_down() {
    assert_eq!(average_percent(&vec![10, 20, 30], 5), 20);
    assert_eq!(average_percent(&vec![1, 2], 5), 1);
    assert_eq!(average_percent(&vec![100, 100, 100, 100], 0), 100);
    assert_eq!(average_percent(&vec![0], 77), 0);
}

#[test]
fn average_percent_caps_each_reading() {
    assert_eq!(average_percent(&vec![300, 0], 0), 50);
    assert_eq!(average_percent(&vec![u64::MAX, u64::MAX], 0), 100);
}

#[test]
fn average_percent_without_readings_keeps_the_last_known() {
    assert_eq!(average_percent(&Vec::new(), 37), 37);
    assert_eq!(average_percent(&Vec::new(), 0), 0);
    assert_eq!(average_percent(&Vec::new(), 500), 100);
}

#[test]
fn memory_percent_is_used_over_total() {
    assert_eq!(memory_percent(1, 4, 0), 25);
    assert_eq!(memory_percent(1, 3, 0), 33);
    assert_eq!(memory_percent(0, 8, 50), 0);
    assert_eq!(memory_percent(8, 8, 0), 100);
    assert_eq!(memory_percent(8_000_000_000, 16_000_000_000, 0), 50);
}

#[test]
fn memory_percent_does_not_overflow() {
    assert_eq!(memory_percent(u64::MAX, u64::MAX, 0), 100);
    assert_eq!(memory_percent(u64::MAX / 2, u64::MAX, 0), 49);
}

#[test]
fn memory_percent_caps_at_one_hundred() {
    assert_eq!(memory_percent(9, 4, 0), 100);
}

#[test]
fn memory_percent_without_total_keeps_the_last_known() {
    assert_eq!(memory_percent(5, 0, 42), 42);
    assert_eq!(memory_percent(5, 0, 420), 100);
}

#[test]
fn effective_interval_is_never_below_the_minimum() {
    assert_eq!(effective_interval(1_000, 200), 1_000);
    assert_eq!(effective_interval(100, 200), 200);
    assert_eq!(effective_interval(200, 200), 200);
    assert_eq!(effective_interval(0, 0), 1);
    assert_eq!(effective_interval(0, 5), 5);
    assert_eq!(effective_interval(7, 0), 7);
}

#[test]
fn host_interval_is_positive_and_not_below_the_request() {
    assert!(host_interval(0) >= 1);
    assert!(host_interval(5_000) >= 5_000);
    assert_eq!(host_interval(u64::MAX), u64::MAX);
}

/// A handle on this host, read once.
fn host() -> System {
    let mut system = System::new_all();
    system.refresh_memory();
    system.refresh_cpu();
    system
}

/// What the library is to make of the handle's memory counters.
fn expected_memory(system: &System, last_known: u64) -> u64 {
    if system.available_memory() <= system.total_memory() {
        memory_percent(system.used_memory(), system.total_memory(), last_known)
    } else {
        last_known
    }
}

fn expected_cpu(system: &System, last_known: u64) -> u64 {
    let readings: Vec<u64> = system.cpus().iter().map(|cpu| cpu.cpu_usage() as u64).collect();
    average_percent(&readings, last_known)
}

#[test]
fn metric_source_reads_zero_before_the_first_update() {
    let source = MetricSource::new();
    assert_eq!(source.cpu_utilization(), 0);
    assert_eq!(source.memory_utilization(), 0);
}

#[test]
fn metric_source_reports_percentages() {
    let mut system = host();
    let mut source = MetricSource::new();
    source.update(&system);
    assert!(source.cpu_utilization() <= 100);
    assert!(source.memory_utilization() <= 100);
    system.refresh_memory();
    system.refresh_cpu();
    source.update(&system);
    assert!(source.cpu_utilization() <= 100);
    assert!(source.memory_utilization() <= 100);
}

#[test]
fn metric_source_reads_are_stable_between_updates() {
    let system = host();
    let mut source = MetricSource::new();
    source.update(&system);
    let cpu = source.cpu_utilization();
    let mem = source.memory_utilization();
    for _ in 0..10 {
        assert_eq!(source.cpu_utilization(), cpu);
        assert_eq!(source.memory_utilization(), mem);
    }
}

#[test]
fn metric_source_update_follows_the_handle() {
    let system = host();
    let mut source = MetricSource::new();
    source.update(&system);
    assert_eq!(source.memory_utilization(), expected_memory(&system, 0));
    assert_eq!(source.cpu_utilization(), expected_cpu(&system, 0));
    if system.total_memory() > 0 && system.used_memory() >= system.total_memory() / 10 {
        assert!(source.memory_utilization() >= 10);
    }
}

#[test]
fn metric_source_update_from_the_same_handle_changes_nothing() {
    let system = host();
    let mut source = MetricSource::new();
    source.update(&system);
    let cpu = source.cpu_utilization();
    let mem = source.memory_utilization();
    source.update(&system);
    assert_eq!(source.cpu_utilization(), expected_cpu(&system, cpu));
    assert_eq!(source.memory_utilization(), expected_memory(&system, mem));
}

#[test]
fn metric_source_of_an_unread_handle_keeps_the_last_known_values() {
    let system = System::new();
    let mut source = MetricSource::new();
    source.update(&host());
    let cpu = source.cpu_utilization();
    let mem = source.memory_utilization();
    source.update(&system);
    assert_eq!(source.cpu_utilization(), expected_cpu(&system, cpu));
    assert_eq!(source.memory_utilization(), expected_memory(&system, mem));
    if system.cpus().is_empty() {
        assert_eq!(source.cpu_utilization(), cpu);
    }
    if system.total_memory() == 0 {
        assert_eq!(source.memory_utilization(), mem);
    }
}
