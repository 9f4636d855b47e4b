use wasabi_speedtest_curl::status::{classify, Direction, Status};
use wasabi_speedtest_curl::transfer::{failed_transfer, finish_transfer, transfer_speed, CurlConfig};

fn cfg() -> CurlConfig {
    CurlConfig {
        endpoint: "https://s3.wasabisys.com".to_string(),
        bucket: "bkt".to_string(),
        region: "us-east-1".to_string(),
        access_key: "AK".to_string(),
        secret_key: "SK".to_string(),
        timeout: 200,
        user_agent: "ua/1".to_string(),
        resolve: None,
        slow_nanos: 2_000_000_000,
        crawl_nanos: 10_000_000_000,
        stall_nanos: 30_000_000_000,
    }
}

const SEC: u64 = 1_000_000_000;

#[test]
fn labels_of_every_status() {
    assert_eq!(Status::Okay.label(), "OK");
    assert_eq!(Status::Slow.label(), "SLOW");
    assert_eq!(Status::Crawl.label(), "CRAWL");
    assert_eq!(Status::Stall.label(), "STALL");
    assert_eq!(Status::Tmout.label(), "TMOUT");
    assert_eq!(Status::Reset.label(), "RESET");
    assert_eq!(Status::Rfusd.label(), "RFUSD");
    assert_eq!(Status::Skipped.label(), "SKIP");
    assert_eq!(Status::HttpErr(403).label(), "H403");
    assert_eq!(Status::HttpErr(0).label(), "H0");
    assert_eq!(Status::HttpErr(65535).label(), "H65535");
    assert_eq!(Status::CurlErr(6).label(), "ERR6");
    assert_eq!(Status::CurlErr(-1).label(), "ERR-1");
    assert_eq!(Status::CurlErr(i32::MIN).label(), "ERR-2147483648");
}

#[test]
fn success_statuses() {
    assert!(Status::Okay.is_success());
    assert!(Status::Slow.is_success());
    assert!(Status::Crawl.is_success());
    assert!(Status::Stall.is_success());
    assert!(!Status::Tmout.is_success());
    assert!(!Status::Reset.is_success());
    assert!(!Status::Rfusd.is_success());
    assert!(!Status::Skipped.is_success());
    assert!(!Status::HttpErr(500).is_success());
    assert!(!Status::CurlErr(6).is_success());
}

#[test]
fn classify_curl_exits_take_precedence() {
    let c = cfg();
    assert_eq!(classify(28, 200, SEC, &c), Status::Tmout);
    assert_eq!(classify(56, 200, SEC, &c), Status::Reset);
    assert_eq!(classify(7, 0, SEC, &c), Status::Rfusd);
    assert_eq!(classify(6, 0, SEC, &c), Status::CurlErr(6));
    assert_eq!(classify(-1, 0, SEC, &c), Status::CurlErr(-1));
    assert_eq!(classify(18, 200, SEC, &c), Status::CurlErr(18));
    assert_eq!(classify(18, 200, 100 * SEC, &c), Status::CurlErr(18));
}

#[test]
fn classify_http_errors() {
    let c = cfg();
    assert_eq!(classify(0, 403, SEC, &c), Status::HttpErr(403));
    assert_eq!(classify(22, 500, SEC, &c), Status::HttpErr(500));
    assert_eq!(classify(22, 200, SEC, &c), Status::CurlErr(22));
    assert_eq!(classify(0, 0, SEC, &c), Status::HttpErr(0));
}

#[test]
fn classify_speed_classes_at_thresholds() {
    let c = cfg();
    assert_eq!(classify(0, 200, 0, &c), Status::Okay);
    assert_eq!(classify(0, 200, 2 * SEC - 1, &c), Status::Okay);
    assert_eq!(classify(0, 200, 2 * SEC, &c), Status::Slow);
    assert_eq!(classify(0, 200, 10 * SEC - 1, &c), Status::Slow);
    assert_eq!(classify(0, 200, 10 * SEC, &c), Status::Crawl);
    assert_eq!(classify(0, 200, 30 * SEC, &c), Status::Stall);
    assert_eq!(classify(0, 200, 75 * SEC, &c), Status::Stall);
}

#[test]
fn classify_is_monotone_in_elapsed_time() {
    let c = cfg();
    let rank = |s: Status| match s {
        Status::Okay => 0,
        Status::Slow => 1,
        Status::Crawl => 2,
        _ => 3,
    };
    let mut last = 0;
    for e in [0, SEC, 2 * SEC, 5 * SEC, 10 * SEC, 29 * SEC, 30 * SEC, 100 * SEC] {
        let r = rank(classify(0, 200, e, &c));
        assert!(r >= last);
        last = r;
    }
}

#[test]
fn speed_in_bytes_per_second() {
    assert_eq!(transfer_speed(10 * 1048576, SEC), 10 * 1048576);
    assert_eq!(transfer_speed(1000, 3 * SEC), 333);
    assert_eq!(transfer_speed(u64::MAX, 1), u64::MAX);
}

#[test]
fn finished_transfer_gets_status_and_speed() {
    let c = cfg();
    let r = finish_transfer(0, 200, Some("1.2.3.4".to_string()), None, SEC / 2, 1048576, &c);
    assert_eq!(r.status, Status::Okay);
    assert_eq!(r.speed, Some(2 * 1048576));
    assert_eq!(r.remote_ip.as_deref(), Some("1.2.3.4"));
    let slow = finish_transfer(0, 200, None, None, 3 * SEC, 3000, &c);
    assert_eq!(slow.status, Status::Slow);
    assert_eq!(slow.speed, Some(1000));
    let err = finish_transfer(0, 404, None, Some("ref".to_string()), SEC, 1000, &c);
    assert_eq!(err.status, Status::HttpErr(404));
    assert_eq!(err.speed, None);
    assert_eq!(err.cm_ref_id.as_deref(), Some("ref"));
    let instant = finish_transfer(0, 200, None, None, 0, 1000, &c);
    assert_eq!(instant.status, Status::Okay);
    assert_eq!(instant.speed, None);
}

#[test]
fn failed_spawn_is_curl_error_minus_one() {
    let r = failed_transfer(5, &cfg());
    assert_eq!(r.status, Status::CurlErr(-1));
    assert_eq!(r.curl_exit, -1);
    assert_eq!(r.http_code, 0);
    assert_eq!(r.elapsed_nanos, 5);
    assert!(r.speed.is_none());
}

#[test]
fn directions_compare() {
    assert_eq!(Direction::Up, Direction::Up);
    assert_ne!(Direction::Up, Direction::Down);
}

#[test]
fn labels_are_distinct() {
    let all = [
        Status::Okay,
        Status::Slow,
        Status::Crawl,
        Status::Stall,
        Status::Tmout,
        Status::Reset,
        Status::Rfusd,
        Status::Skipped,
        Status::HttpErr(0),
        Status::HttpErr(1),
        Status::HttpErr(10),
        Status::HttpErr(403),
        Status::CurlErr(0),
        Status::CurlErr(-1),
        Status::CurlErr(1),
        Status::CurlErr(10),
    ];
    for (i, a) in all.iter().enumerate() {
        for (j, b) in all.iter().enumerate() {
            assert_eq!(a.label() == b.label(), i == j);
        }
    }
}
