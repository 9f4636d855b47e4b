use wasabi_speedtest_curl::stats::{percentile_val, sort, DirectionStats};
use wasabi_speedtest_curl::status::Status;
use wasabi_speedtest_curl::transfer::TransferResult;

fn result(status: Status, elapsed: u64, speed: Option<u64>) -> TransferResult {
    TransferResult {
        status,
        http_code: 200,
        curl_exit: 0,
        remote_ip: None,
        elapsed_nanos: elapsed,
        speed,
        cm_ref_id: None,
    }
}

#[test]
fn new_stats_are_empty() {
    let s = DirectionStats::new();
    assert_eq!(s.total(), 0);
    assert_eq!(s.success_count(), 0);
    assert_eq!(s.success_pct(), 0);
    assert_eq!(s.avg_time(), None);
    assert_eq!(s.avg_speed(), None);
    assert!(s.percentiles().is_none());
}

#[test]
fn record_tallies_each_status_in_its_counter() {
    let mut s = DirectionStats::new();
    for st in [
        Status::Okay,
        Status::Slow,
        Status::Crawl,
        Status::Stall,
        Status::Tmout,
        Status::Reset,
        Status::Skipped,
        Status::Rfusd,
        Status::HttpErr(500),
        Status::CurlErr(6),
    ] {
        s.record(&result(st, 1000, Some(10)));
    }
    assert_eq!((s.ok, s.slow, s.crawl, s.stall), (1, 1, 1, 1));
    assert_eq!((s.tmout, s.reset, s.skipped, s.err), (1, 1, 1, 3));
    assert_eq!(s.total(), 10);
    assert_eq!(s.success_count(), 4);
    assert_eq!(s.success_pct(), 40);
    assert_eq!(s.times.len(), 4);
    assert_eq!(s.speeds.len(), 4);
}

#[test]
fn failed_transfers_keep_no_time() {
    let mut s = DirectionStats::new();
    s.record(&result(Status::Tmout, 200_000_000_000, None));
    assert!(s.times.is_empty());
    assert_eq!(s.avg_time(), None);
    assert_eq!(s.success_pct(), 0);
}

#[test]
fn success_without_speed_keeps_only_time() {
    let mut s = DirectionStats::new();
    s.record(&result(Status::Okay, 5, None));
    assert_eq!(s.times, vec![5]);
    assert!(s.speeds.is_empty());
}

#[test]
fn averages_round_down() {
    let mut s = DirectionStats::new();
    s.record(&result(Status::Okay, 1, Some(3)));
    s.record(&result(Status::Okay, 2, Some(4)));
    assert_eq!(s.avg_time(), Some(1));
    assert_eq!(s.avg_speed(), Some(3));
    let mut big = DirectionStats::new();
    big.record(&result(Status::Okay, u64::MAX, Some(u64::MAX)));
    big.record(&result(Status::Okay, u64::MAX, Some(u64::MAX)));
    assert_eq!(big.avg_time(), Some(u64::MAX));
}

#[test]
fn success_percentage_rounds_down() {
    let mut s = DirectionStats::new();
    s.record(&result(Status::Okay, 1, None));
    s.record(&result(Status::Okay, 1, None));
    s.record(&result(Status::Tmout, 1, None));
    assert_eq!(s.success_pct(), 66);
}

#[test]
fn percentiles_interpolate_between_ranks() {
    let mut s = DirectionStats::new();
    for t in [5u64, 1, 4, 2, 3] {
        s.record(&result(Status::Okay, t * 1000, None));
    }
    let p = s.percentiles().unwrap();
    assert_eq!(p.min, 1000);
    assert_eq!(p.max, 5000);
    assert_eq!(p.p50, 3000);
    // rank 0.95 * 4 = 3.8: 4000 + 0.8 * 1000
    assert_eq!(p.p95, 4800);
    // rank 0.99 * 4 = 3.96
    assert_eq!(p.p99, 4960);
}

#[test]
fn percentiles_of_one_sample() {
    let mut s = DirectionStats::new();
    s.record(&result(Status::Slow, 7, None));
    let p = s.percentiles().unwrap();
    assert_eq!((p.min, p.max, p.p50, p.p95, p.p99), (7, 7, 7, 7, 7));
}

#[test]
fn percentiles_are_ordered() {
    let mut s = DirectionStats::new();
    for t in [9u64, 100, 3, 3, 57, 1_000_000, 42, 8, 0, 77, 5] {
        s.record(&result(Status::Okay, t, None));
    }
    let p = s.percentiles().unwrap();
    assert!(p.min <= p.p50 && p.p50 <= p.p95 && p.p95 <= p.p99 && p.p99 <= p.max);
    assert_eq!(p.min, 0);
    assert_eq!(p.max, 1_000_000);
}

#[test]
fn percentile_of_two_samples() {
    let v = vec![10u64, 20];
    assert_eq!(percentile_val(&v, 50), 15);
    assert_eq!(percentile_val(&v, 95), 19);
    assert_eq!(percentile_val(&v, 0), 10);
    assert_eq!(percentile_val(&v, 100), 20);
}

#[test]
fn sort_orders_and_keeps_elements() {
    let mut v = vec![3u64, 1, 2, 3, 0, u64::MAX];
    sort(&mut v);
    assert_eq!(v, vec![0, 1, 2, 3, 3, u64::MAX]);
    let mut e: Vec<u64> = Vec::new();
    sort(&mut e);
    assert!(e.is_empty());
}

#[test]
fn merge_adds_counters_and_appends_samples() {
    let mut a = DirectionStats::new();
    a.record(&result(Status::Okay, 1, Some(10)));
    a.record(&result(Status::Tmout, 9, None));
    let mut b = DirectionStats::new();
    b.record(&result(Status::Stall, 2, Some(20)));
    b.record(&result(Status::HttpErr(503), 3, None));
    let (ta, tb) = (a.total(), b.total());
    a.merge(b);
    assert_eq!(a.total(), ta + tb);
    assert_eq!((a.ok, a.stall, a.tmout, a.err), (1, 1, 1, 1));
    assert_eq!(a.times, vec![1, 2]);
    assert_eq!(a.speeds, vec![10, 20]);
    assert_eq!(a.success_count(), 2);
}

#[test]
fn average_lies_between_fastest_and_slowest() {
    let mut s = DirectionStats::new();
    for t in [700u64, 3_076_000, 1_014_000, 2_668_000, 2_995_000] {
        s.record(&result(Status::Okay, t, None));
    }
    let p = s.percentiles().unwrap();
    let avg = s.avg_time().unwrap();
    assert!(p.min <= avg && avg <= p.max);
    assert_eq!(avg, (700 + 3_076_000 + 1_014_000 + 2_668_000 + 2_995_000) / 5);
}

#[test]
fn sorting_permutations_agree() {
    let mut a = vec![4u64, 1, 3, 1, 2];
    let mut b = vec![1u64, 2, 1, 4, 3];
    sort(&mut a);
    sort(&mut b);
    assert_eq!(a, b);
}

#[test]
fn merging_equals_recording_in_sequence() {
    let a = [result(Status::Okay, 1, Some(10)), result(Status::Tmout, 2, None), result(Status::Slow, 3, None)];
    let b = [result(Status::Stall, 4, Some(40)), result(Status::CurlErr(6), 5, None)];
    let mut s1 = DirectionStats::new();
    for r in &a {
        s1.record(r);
    }
    let mut s2 = DirectionStats::new();
    for r in &b {
        s2.record(r);
    }
    s1.merge(s2);
    let mut s = DirectionStats::new();
    for r in a.iter().chain(b.iter()) {
        s.record(r);
    }
    assert_eq!(
        (s1.ok, s1.slow, s1.crawl, s1.stall, s1.tmout, s1.reset, s1.skipped, s1.err),
        (s.ok, s.slow, s.crawl, s.stall, s.tmout, s.reset, s.skipped, s.err)
    );
    assert_eq!(s1.times, s.times);
    assert_eq!(s1.speeds, s.speeds);
    assert_eq!(s.times.len() as u32, s.success_count());
    assert!(s.speeds.len() <= s.times.len());
    assert!(s.success_count() <= s.total());
}
