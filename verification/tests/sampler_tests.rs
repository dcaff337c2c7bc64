use loadbench::metrics::MetricSource;
use loadbench::sample::Sample;
use loadbench::sampler::Sampler;
use sysinfo::{System, SystemExt};

fn sample(elapsed: u64, cpu: u64, mem: u64) -> Sample {
    Sample { elapsed_seconds: elapsed, cpu_percent: cpu, mem_percent: mem }
}

/// Drives a sampler with a clock that follows its sleeps exactly; each tick
/// costs `work_ms` before the sleep is asked for.
fn run_paced(sampler: &mut Sampler, work_ms: u64, exit_at_ms: Option<u64>) -> Vec<u64> {
    let mut now: u64 = 0;
    let mut ticks = Vec::new();
    loop {
        ticks.push(now);
        let exited = match exit_at_ms {
            Some(at) => now >= at,
            None => false,
        };
        if sampler.observe(now, 10, 20, exited) {
            return ticks;
        }
        now += work_ms;
        now += sampler.sleep_for(now);
    }
}

#[test]
fn full_capture_starts_empty() {
    let sampler = Sampler::full_capture(1_000, 10_000);
    assert_eq!(sampler.len(), 0);
    assert_eq!(sampler.interval_ms(), 1_000);
    assert_eq!(sampler.last_tick_ms(), 0);
    assert!(!sampler.is_stopped());
    assert_eq!(sampler.last(), None);
}

#[test]
fn zero_interval_is_raised_to_one() {
    assert_eq!(Sampler::full_capture(0, 10).interval_ms(), 1);
    assert_eq!(Sampler::windowed(0, 10).interval_ms(), 1);
}

#[test]
fn observe_records_one_sample_per_tick() {
    let mut sampler = Sampler::full_capture(1_000, 10_000);
    assert!(!sampler.observe(0, 12, 34, false));
    assert!(!sampler.observe(1_000, 56, 78, false));
    assert_eq!(sampler.len(), 2);
    assert_eq!(sampler.get(0), Some(sample(0, 12, 34)));
    assert_eq!(sampler.get(1), Some(sample(1, 56, 78)));
    assert_eq!(sampler.last_tick_ms(), 1_000);
}

#[test]
fn observe_rounds_elapsed_time_and_caps_readings() {
    let mut sampler = Sampler::full_capture(250, 10_000);
    sampler.observe(1_499, 150, 101, false);
    sampler.observe(1_500, 100, 0, false);
    assert_eq!(sampler.get(0), Some(sample(1, 100, 100)));
    assert_eq!(sampler.get(1), Some(sample(2, 100, 0)));
}

#[test]
fn observe_stops_when_the_duration_has_elapsed() {
    let mut sampler = Sampler::full_capture(1_000, 3_000);
    assert!(!sampler.observe(2_999, 0, 0, false));
    assert!(sampler.observe(3_000, 0, 0, false));
    assert!(sampler.is_stopped());
    assert_eq!(sampler.len(), 2);
}

#[test]
fn observe_stops_when_the_load_generator_has_exited() {
    let mut sampler = Sampler::full_capture(1_000, 10_000);
    assert!(!sampler.observe(0, 0, 0, false));
    assert!(sampler.observe(1_000, 0, 0, true));
    assert!(sampler.is_stopped());
    assert_eq!(sampler.len(), 2);
}

#[test]
fn observe_records_nothing_once_stopped() {
    let mut sampler = Sampler::full_capture(1_000, 1_000);
    assert!(sampler.observe(5_000, 1, 1, false));
    assert!(sampler.observe(6_000, 2, 2, false));
    assert!(sampler.observe(7_000, 3, 3, true));
    assert_eq!(sampler.len(), 1);
    assert_eq!(sampler.last(), Some(sample(5, 1, 1)));
    assert_eq!(sampler.last_tick_ms(), 5_000);
}

#[test]
fn observe_never_lets_time_run_backwards() {
    let mut sampler = Sampler::full_capture(1_000, 100_000);
    sampler.observe(5_000, 1, 1, false);
    sampler.observe(2_000, 2, 2, false);
    assert_eq!(sampler.get(1), Some(sample(5, 2, 2)));
    assert_eq!(sampler.last_tick_ms(), 5_000);
}

#[test]
fn sleep_for_corrects_drift() {
    let mut sampler = Sampler::full_capture(1_000, 100_000);
    sampler.observe(4_000, 0, 0, false);
    assert_eq!(sampler.sleep_for(4_000), 1_000);
    assert_eq!(sampler.sleep_for(4_300), 700);
    assert_eq!(sampler.sleep_for(4_999), 1);
    assert_eq!(sampler.sleep_for(5_000), 0);
    assert_eq!(sampler.sleep_for(9_000), 0);
    assert_eq!(sampler.sleep_for(3_000), 1_000);
}

#[test]
fn full_capture_sample_count_follows_duration_over_interval() {
    let mut sampler = Sampler::full_capture(1_000, 10_000);
    let ticks = run_paced(&mut sampler, 0, None);
    assert_eq!(sampler.len(), 11);
    assert_eq!(ticks.len(), 11);
    assert_eq!(sampler.last(), Some(sample(10, 10, 20)));

    let mut sampler = Sampler::full_capture(1_000, 10_500);
    run_paced(&mut sampler, 0, None);
    assert_eq!(sampler.len(), 12);
    assert_eq!(sampler.last(), Some(sample(11, 10, 20)));

    let mut sampler = Sampler::full_capture(300, 1_000);
    run_paced(&mut sampler, 0, None);
    assert_eq!(sampler.len(), 5);
}

#[test]
fn full_capture_count_and_elapsed_stay_within_bounds() {
    for &(interval, duration, work) in
        &[(1_000u64, 10_000u64, 0u64), (200, 10_000, 50), (250, 3_100, 249), (7, 100, 3), (1, 50, 0)]
    {
        let mut sampler = Sampler::full_capture(interval, duration);
        run_paced(&mut sampler, work, None);
        let n = sampler.len() as u64;
        assert!(n >= duration / interval + 1);
        assert!(n <= duration / interval + 2);
        let series = sampler.series();
        let mut previous = 0;
        for i in 0..series.len() {
            let s = series.get(i).expect("a sample at each index");
            assert!(s.elapsed_seconds >= previous);
            assert!(s.elapsed_seconds <= (duration + interval + 500) / 1_000);
            previous = s.elapsed_seconds;
        }
    }
}

#[test]
fn slow_ticks_do_not_compound() {
    let mut sampler = Sampler::full_capture(1_000, 5_000);
    let ticks = run_paced(&mut sampler, 400, None);
    assert_eq!(ticks, vec![0, 1_000, 2_000, 3_000, 4_000, 5_000]);
}

#[test]
fn windowed_sampler_holds_the_most_recent_samples() {
    let mut sampler = Sampler::windowed(250, 3);
    for k in 0..5u64 {
        assert!(!sampler.observe(k * 1_000, k, k, false));
    }
    assert_eq!(sampler.len(), 3);
    assert_eq!(sampler.get(0), Some(sample(2, 2, 2)));
    assert_eq!(sampler.get(1), Some(sample(3, 3, 3)));
    assert_eq!(sampler.get(2), Some(sample(4, 4, 4)));
    assert_eq!(sampler.series().to_vec(), vec![sample(2, 2, 2), sample(3, 3, 3), sample(4, 4, 4)]);
}

#[test]
fn windowed_sampler_length_is_the_smaller_of_count_and_capacity() {
    for capacity in 0..6usize {
        let mut sampler = Sampler::windowed(250, capacity);
        for n in 1..=12usize {
            sampler.observe(n as u64 * 250, 1, 1, false);
            assert_eq!(sampler.len(), std::cmp::min(n, capacity));
        }
    }
}

#[test]
fn windowed_sampler_runs_until_told_to_stop() {
    let mut sampler = Sampler::windowed(250, 2);
    assert!(!sampler.observe(u64::MAX, 0, 0, false));
    assert!(sampler.observe(u64::MAX, 0, 0, true));
}

#[test]
fn into_series_hands_over_every_sample() {
    let mut sampler = Sampler::full_capture(1_000, 10_000);
    sampler.observe(0, 1, 2, false);
    sampler.observe(1_000, 3, 4, false);
    let series = sampler.into_series();
    assert_eq!(series.to_vec(), vec![sample(0, 1, 2), sample(1, 3, 4)]);

    let mut sampler = Sampler::windowed(1_000, 1);
    sampler.observe(0, 1, 2, false);
    sampler.observe(1_000, 3, 4, false);
    assert_eq!(sampler.into_series().to_vec(), vec![sample(1, 3, 4)]);
}

#[test]
fn tick_takes_in_the_host_and_records_a_sample() {
    let mut system = System::new_all();
    system.refresh_memory();
    system.refresh_cpu();
    let mut source = MetricSource::new();
    let mut sampler = Sampler::full_capture(200, 1_000);
    assert!(!sampler.tick(&mut source, &system, 0, false));
    assert!(sampler.tick(&mut source, &system, 1_000, false));
    assert_eq!(sampler.len(), 2);
    let last = sampler.last().expect("a sample after a tick");
    assert_eq!(last.elapsed_seconds, 1);
    assert_eq!(last.cpu_percent, source.cpu_utilization());
    assert_eq!(last.mem_percent, source.memory_utilization());
    assert!(last.is_valid());
    let mut direct = MetricSource::new();
    direct.update(&system);
    assert_eq!(sampler.get(0).expect("a first sample").mem_percent, direct.memory_utilization());
    assert_eq!(sampler.get(0).expect("a first sample").cpu_percent, direct.cpu_utilization());
}
