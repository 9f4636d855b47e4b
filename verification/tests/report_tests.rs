use wasabi_speedtest_curl::report::{counts_text, error_detail_line, summary_heading};
use wasabi_speedtest_curl::stats::DirectionStats;
use wasabi_speedtest_curl::status::Status;
use wasabi_speedtest_curl::transfer::TransferResult;

#[test]
fn error_detail_with_and_without_values() {
    let mut r = TransferResult {
        status: Status::HttpErr(503),
        http_code: 503,
        curl_exit: 22,
        remote_ip: Some("38.27.106.131".to_string()),
        elapsed_nanos: 1,
        speed: None,
        cm_ref_id: Some("AB12".to_string()),
    };
    assert_eq!(
        error_detail_line("UP", &r),
        "  ^ UP http=503 curl_exit=22 remote_ip=38.27.106.131 x-wasabi-cm-reference-id=AB12"
    );
    r.remote_ip = None;
    r.cm_ref_id = None;
    r.curl_exit = -1;
    r.http_code = 0;
    assert_eq!(error_detail_line("DN", &r), "  ^ DN http=0 curl_exit=-1 remote_ip=n/a x-wasabi-cm-reference-id=n/a");
}

#[test]
fn summary_text() {
    assert_eq!(summary_heading("Upload"), "Upload:  ");
    assert_eq!(summary_heading("Download"), "Download:");
    let mut s = DirectionStats::new();
    s.ok = 15;
    s.slow = 5;
    s.err = 2;
    assert_eq!(counts_text(&s), "15 ok  5 slow  0 crawl  0 stall  0 tmout  0 reset  0 skip  2 err");
}
