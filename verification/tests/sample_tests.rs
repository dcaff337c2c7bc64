use loadbench::sample::{clamp_percent, round_seconds, Sample, Series, MAX_PERCENT};
use loadbench::window::Window;

fn sample(elapsed: u64, cpu: u64, mem: u64) -> Sample {
    Sample { elapsed_seconds: elapsed, cpu_percent: cpu, mem_percent: mem }
}

#[test]
fn round_seconds_rounds_to_nearest() {
    assert_eq!(round_seconds(0), 0);
    assert_eq!(round_seconds(499), 0);
    assert_eq!(round_seconds(500), 1);
    assert_eq!(round_seconds(1499), 1);
    assert_eq!(round_seconds(1500), 2);
    assert_eq!(round_seconds(10_000), 10);
}

#[test]
fn round_seconds_at_the_largest_time() {
    assert_eq!(round_seconds(u64::MAX), u64::MAX / 1000 + 1);
}

#[test]
fn clamp_percent_caps_at_one_hundred() {
    assert_eq!(MAX_PERCENT, 100);
    assert_eq!(clamp_percent(0), 0);
    assert_eq!(clamp_percent(100), 100);
    assert_eq!(clamp_percent(101), 100);
    assert_eq!(clamp_percent(u64::MAX), 100);
}

#[test]
fn sample_new_rounds_and_caps() {
    let s = Sample::new(2_600, 250, 42);
    assert_eq!(s, sample(3, 100, 42));
    assert!(s.is_valid());
}

#[test]
fn sample_out_of_range_is_not_valid() {
    assert!(!sample(0, 101, 0).is_valid());
    assert!(!sample(0, 0, 101).is_valid());
    assert!(sample(0, 100, 100).is_valid());
}

#[test]
fn series_starts_empty() {
    let series = Series::new();
    assert_eq!(series.len(), 0);
    assert!(series.is_empty());
    assert_eq!(series.last(), None);
    assert_eq!(series.get(0), None);
    assert_eq!(series.max_elapsed(), 0);
}

#[test]
fn series_push_keeps_order() {
    let mut series = Series::new();
    assert!(series.push(sample(0, 10, 20)));
    assert!(series.push(sample(0, 11, 21)));
    assert!(series.push(sample(2, 12, 22)));
    assert_eq!(series.len(), 3);
    assert_eq!(series.get(1), Some(sample(0, 11, 21)));
    assert_eq!(series.last(), Some(sample(2, 12, 22)));
    assert_eq!(series.get(3), None);
}

#[test]
fn series_push_refuses_an_older_sample() {
    let mut series = Series::new();
    assert!(series.push(sample(5, 1, 1)));
    assert!(!series.push(sample(4, 1, 1)));
    assert_eq!(series.len(), 1);
    assert_eq!(series.last(), Some(sample(5, 1, 1)));
}

#[test]
fn series_push_refuses_a_sample_out_of_range() {
    let mut series = Series::new();
    assert!(!series.push(sample(0, 101, 0)));
    assert!(!series.push(sample(0, 0, 200)));
    assert!(series.is_empty());
}

#[test]
fn series_max_elapsed_is_the_last_time() {
    let mut series = Series::new();
    series.push(sample(1, 0, 0));
    series.push(sample(4, 0, 0));
    series.push(sample(9, 0, 0));
    assert_eq!(series.max_elapsed(), 9);
}

#[test]
fn series_points_pair_time_with_each_metric() {
    let mut series = Series::new();
    series.push(sample(0, 10, 50));
    series.push(sample(1, 20, 60));
    assert_eq!(series.cpu_points(), vec![(0, 10), (1, 20)]);
    assert_eq!(series.mem_points(), vec![(0, 50), (1, 60)]);
    assert_eq!(series.to_vec(), vec![sample(0, 10, 50), sample(1, 20, 60)]);
}

#[test]
fn series_from_vec_accepts_ordered_samples() {
    let built = Series::from_vec(vec![sample(0, 1, 2), sample(0, 3, 4), sample(7, 5, 6)]);
    let series = built.expect("ordered samples in range");
    assert_eq!(series.len(), 3);
    assert_eq!(series.last(), Some(sample(7, 5, 6)));
}

#[test]
fn series_from_vec_accepts_nothing() {
    let series = Series::from_vec(Vec::new()).expect("an empty series");
    assert!(series.is_empty());
}

#[test]
fn series_from_vec_refuses_disorder() {
    assert!(Series::from_vec(vec![sample(3, 1, 1), sample(2, 1, 1)]).is_none());
}

#[test]
fn series_from_vec_refuses_out_of_range() {
    assert!(Series::from_vec(vec![sample(0, 1, 1), sample(1, 101, 1)]).is_none());
}

#[test]
fn window_keeps_everything_below_capacity() {
    let mut window = Window::new(3);
    assert_eq!(window.capacity(), 3);
    assert!(window.is_empty());
    assert_eq!(window.last(), None);
    window.push(sample(1, 0, 0));
    window.push(sample(2, 0, 0));
    assert_eq!(window.len(), 2);
    assert_eq!(window.to_vec(), vec![sample(1, 0, 0), sample(2, 0, 0)]);
}

#[test]
fn window_drops_the_oldest_first() {
    let mut window = Window::new(3);
    for k in 0..5u64 {
        window.push(sample(k, k, k));
    }
    assert_eq!(window.len(), 3);
    assert_eq!(window.to_vec(), vec![sample(2, 2, 2), sample(3, 3, 3), sample(4, 4, 4)]);
    assert_eq!(window.get(0), Some(sample(2, 2, 2)));
    assert_eq!(window.get(2), Some(sample(4, 4, 4)));
    assert_eq!(window.get(3), None);
    assert_eq!(window.last(), Some(sample(4, 4, 4)));
}

#[test]
fn window_wraps_around_many_times() {
    let mut window = Window::new(4);
    for k in 0..1_000u64 {
        window.push(sample(k, 0, 0));
        let expected = std::cmp::min(k as usize + 1, 4);
        assert_eq!(window.len(), expected);
        assert_eq!(window.last(), Some(sample(k, 0, 0)));
        assert_eq!(window.get(0), Some(sample(k + 1 - expected as u64, 0, 0)));
    }
}

#[test]
fn window_of_capacity_one_holds_the_latest() {
    let mut window = Window::new(1);
    window.push(sample(1, 1, 1));
    window.push(sample(2, 2, 2));
    assert_eq!(window.to_vec(), vec![sample(2, 2, 2)]);
}

#[test]
fn window_of_capacity_zero_stays_empty() {
    let mut window = Window::new(0);
    window.push(sample(1, 1, 1));
    assert_eq!(window.len(), 0);
    assert!(window.to_vec().is_empty());
}
