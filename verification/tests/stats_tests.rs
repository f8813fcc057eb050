use blitz_load::stats::{percentile, sorted_latencies, start_spread_us};

#[test]
fn percentile_of_empty_is_zero() {
    assert_eq!(percentile(&[], 50), 0);
    assert_eq!(percentile(&[], 99), 0);
}

#[test]
fn percentile_indexes_floor_of_len_times_p() {
    let v: Vec<u128> = (1..=100).collect();
    assert_eq!(percentile(&v, 50), 51);
    assert_eq!(percentile(&v, 95), 96);
    assert_eq!(percentile(&v, 99), 100);
    let w = [10u128, 20, 30];
    assert_eq!(percentile(&w, 50), 20);
    assert_eq!(percentile(&w, 95), 30);
    assert_eq!(percentile(&w, 0), 10);
}

#[test]
fn percentile_clamps_to_last() {
    let w = [7u128];
    assert_eq!(percentile(&w, 50), 7);
    assert_eq!(percentile(&w, 99), 7);
    assert_eq!(percentile(&w, 100), 7);
    assert_eq!(percentile(&w, 1000), 7);
}

#[test]
fn percentiles_are_ordered_on_sorted_data() {
    let v = sorted_latencies(&vec![5, 900, 12, 12, 44, 3, 250, 61, 7, 18]);
    let p50 = percentile(&v, 50);
    let p95 = percentile(&v, 95);
    let p99 = percentile(&v, 99);
    assert!(p50 <= p95 && p95 <= p99);
    assert_eq!((p50, p95, p99), (18, 900, 900));
}

#[test]
fn sorting_keeps_every_latency() {
    let v = vec![30u128, 10, 20, 10, 0, u128::MAX];
    let s = sorted_latencies(&v);
    assert_eq!(s, vec![0, 10, 10, 20, 30, u128::MAX]);
    assert_eq!(sorted_latencies(&vec![]), Vec::<u128>::new());
}

#[test]
fn spread_is_distance_between_first_and_last_start_in_us() {
    assert_eq!(start_spread_us(&vec![0, 5_000, 2_000_000, 0, 40_000]), 1_995);
    assert_eq!(start_spread_us(&vec![1_000, 1_999]), 0);
    assert_eq!(start_spread_us(&vec![1_000, 2_000]), 1);
}

#[test]
fn spread_needs_two_started_requests() {
    assert_eq!(start_spread_us(&vec![]), 0);
    assert_eq!(start_spread_us(&vec![0, 0, 0]), 0);
    assert_eq!(start_spread_us(&vec![0, 123_456_789, 0]), 0);
}
