use blitz_load::tally::{is_success_status, RunTally, MAX_LATENCY_MS};

#[test]
fn success_statuses_are_the_2xx_range() {
    assert!(!is_success_status(199));
    assert!(is_success_status(200));
    assert!(is_success_status(204));
    assert!(is_success_status(299));
    assert!(!is_success_status(300));
    assert!(!is_success_status(404));
    assert!(!is_success_status(500));
}

#[test]
fn new_tally_caps_total() {
    assert_eq!(RunTally::new(1000).total(), 500);
    assert_eq!(RunTally::new(3).total(), 3);
    let t = RunTally::new(0);
    assert!(t.is_finished());
}

#[test]
fn outcomes_are_counted_once_each() {
    let mut t = RunTally::new(5);
    t.record_outcome(Some(200), 40);
    t.record_outcome(Some(404), 10);
    t.record_outcome(None, 30_000);
    t.record_outcome(Some(299), 20);
    assert!(!t.is_finished());
    t.record_outcome(Some(300), 5);
    assert!(t.is_finished());
    let p = t.progress();
    assert_eq!(p.completed, 5);
    assert_eq!(p.total, 5);
    assert_eq!(p.successes, 2);
    assert_eq!(p.failures, 3);
    assert_eq!(p.completed, p.successes + p.failures);
    assert_eq!(p.latency_count, 2);
    assert_eq!(p.latency_sum, 60);
    assert_eq!(p.p95_latency_ms, 40);
}

#[test]
fn progress_of_a_fresh_tally_is_empty() {
    let t = RunTally::new(10);
    let p = t.progress();
    assert_eq!((p.completed, p.total, p.successes, p.failures), (0, 10, 0, 0));
    assert_eq!((p.latency_count, p.latency_sum, p.p95_latency_ms), (0, 0, 0));
}

#[test]
fn done_report_has_ordered_percentiles_and_spread() {
    let mut t = RunTally::new(4);
    t.record_start(0, 1_000_000);
    t.record_start(2, 4_500_000);
    t.record_start(3, 2_000_000);
    for (s, l) in [(Some(200), 120u128), (Some(201), 80), (Some(200), 300), (Some(503), 9)] {
        t.record_outcome(s, l);
    }
    let d = t.done_report(1234);
    assert_eq!(d.completed, 4);
    assert_eq!(d.successes, 3);
    assert_eq!(d.failures, 1);
    assert_eq!(d.total_time_ms, 1234);
    assert_eq!(d.latency_count, 3);
    assert_eq!(d.latency_sum, 500);
    assert_eq!((d.p50_latency_ms, d.p95_latency_ms, d.p99_latency_ms), (120, 300, 300));
    assert!(d.p50_latency_ms <= d.p95_latency_ms && d.p95_latency_ms <= d.p99_latency_ms);
    assert_eq!(d.spread_us, 3_500);
}

#[test]
fn done_report_without_successes() {
    let mut t = RunTally::new(2);
    t.record_outcome(None, 1);
    t.record_outcome(Some(500), 2);
    let d = t.done_report(0);
    assert_eq!((d.p50_latency_ms, d.p95_latency_ms, d.p99_latency_ms), (0, 0, 0));
    assert_eq!(d.spread_us, 0);
    assert_eq!(d.successes + d.failures, d.total);
}

#[test]
fn longest_latency_is_accepted() {
    let mut t = RunTally::new(2);
    t.record_outcome(Some(200), MAX_LATENCY_MS);
    t.record_outcome(Some(200), MAX_LATENCY_MS);
    let d = t.done_report(1);
    assert_eq!(d.latency_sum, 2 * MAX_LATENCY_MS);
    assert_eq!(MAX_LATENCY_MS, std::time::Duration::MAX.as_millis());
}

#[test]
fn progress_reports_never_go_backwards() {
    let mut t = RunTally::new(6);
    let mut last = t.progress();
    for (i, s) in [Some(200u16), None, Some(404), Some(201), Some(200), None].into_iter().enumerate() {
        t.record_start(i, 10 + i as u64);
        t.record_outcome(s, 3 * i as u128);
        let now = t.progress();
        assert_eq!(now.total, last.total);
        assert!(now.completed == last.completed + 1);
        assert!(now.successes >= last.successes && now.failures >= last.failures);
        assert!(now.completed <= now.total && now.successes + now.failures == now.completed);
        last = now;
    }
    assert!(t.is_finished());
}
