use wasabi_speedtest_curl::command::{
    bucket_url, create_bucket_args, head_bucket_args, object_url, reply_is_200, seed_upload_args,
    status_reply, transfer_args,
};
use wasabi_speedtest_curl::influx::{assemble_line, direction_tag, line_protocol_tags, InfluxConfig};
use wasabi_speedtest_curl::rolling::DeviationLevel;
use wasabi_speedtest_curl::session::{
    csv_line_shown, download_goes_ahead, download_key, is_rated, needs_detail, shows_rating,
    count_label, endpoint_for, hex_string, mode_label, object_key, past_run_limit, payload_bytes,
    rand_hex, resolve_directions, resolve_pin, row_all_ok, run_id, seed_key, total_runs,
};
use wasabi_speedtest_curl::status::{Direction, Status};
use wasabi_speedtest_curl::transfer::CurlConfig;
use wasabi_speedtest_curl::writeout::write_out_format;

fn cfg(resolve: Option<&str>) -> CurlConfig {
    CurlConfig {
        endpoint: "https://s3.wasabisys.com".to_string(),
        bucket: "bkt".to_string(),
        region: "us-east-1".to_string(),
        access_key: "AK".to_string(),
        secret_key: "SK".to_string(),
        timeout: 200,
        user_agent: "ua/1".to_string(),
        resolve: resolve.map(|s| s.to_string()),
        slow_nanos: 2,
        crawl_nanos: 10,
        stall_nanos: 30,
    }
}

#[test]
fn urls() {
    assert_eq!(bucket_url(&cfg(None)), "https://s3.wasabisys.com/bkt");
    assert_eq!(object_url(&cfg(None), "k.bin"), "https://s3.wasabisys.com/bkt/k.bin");
}

#[test]
fn head_bucket_command() {
    assert_eq!(
        head_bucket_args(&cfg(None)),
        vec![
            "-s", "-o", "/dev/null", "-w", "%{http_code}", "-A", "ua/1", "-I", "--aws-sigv4",
            "aws:amz:us-east-1:s3", "--user", "AK:SK", "https://s3.wasabisys.com/bkt"
        ]
    );
}

#[test]
fn create_bucket_command_with_pin() {
    assert_eq!(
        create_bucket_args(&cfg(Some("s3.wasabisys.com:443:1.2.3.4"))),
        vec![
            "-s", "-o", "/dev/null", "-w", "%{http_code}", "-A", "ua/1", "-X", "PUT", "--aws-sigv4",
            "aws:amz:us-east-1:s3", "--user", "AK:SK", "--resolve", "s3.wasabisys.com:443:1.2.3.4",
            "https://s3.wasabisys.com/bkt"
        ]
    );
}

#[test]
fn seed_upload_command() {
    assert_eq!(
        seed_upload_args(&cfg(None), "seed.bin"),
        vec![
            "-s", "-o", "/dev/null", "-w", "%{http_code}", "-A", "ua/1", "--aws-sigv4",
            "aws:amz:us-east-1:s3", "--user", "AK:SK", "--max-time", "200", "-X", "PUT", "-T", "-",
            "https://s3.wasabisys.com/bkt/seed.bin"
        ]
    );
}

#[test]
fn transfer_commands() {
    let wo = write_out_format();
    let down = transfer_args(&cfg(None), Direction::Down, "o");
    assert_eq!(
        down,
        vec![
            "-s", "-o", "/dev/null", "-w", wo.as_str(), "-D", "/dev/stderr", "-A", "ua/1",
            "--aws-sigv4", "aws:amz:us-east-1:s3", "--user", "AK:SK", "--max-time", "200",
            "https://s3.wasabisys.com/bkt/o"
        ]
    );
    let up = transfer_args(&cfg(Some("h:80:9.9.9.9")), Direction::Up, "o");
    assert_eq!(&up[15..], &["-X", "PUT", "-T", "-", "--resolve", "h:80:9.9.9.9", "https://s3.wasabisys.com/bkt/o"]);
}

#[test]
fn replies() {
    assert!(reply_is_200("200"));
    assert!(reply_is_200(" 200\n"));
    assert!(!reply_is_200("403"));
    assert!(!reply_is_200("2000"));
    assert!(!reply_is_200(""));
    assert_eq!(status_reply("Bucket creation", "200\n"), Ok(()));
    assert_eq!(
        status_reply("Bucket creation", " 409 "),
        Err("Bucket creation returned HTTP 409".to_string())
    );
    assert_eq!(status_reply("Seed upload", ""), Err("Seed upload returned HTTP ".to_string()));
}

#[test]
fn influx_framing() {
    let c = InfluxConfig {
        url: "http://localhost:8086".to_string(),
        token: "tok".to_string(),
        org: "wasabi".to_string(),
        bucket: "s3_diagnostics".to_string(),
    };
    assert_eq!(c.write_url(), "http://localhost:8086/api/v2/write?org=wasabi&bucket=s3_diagnostics&precision=ns");
    assert_eq!(c.auth_header(), "Token tok");
    assert_eq!(direction_tag(Direction::Up), "upload");
    assert_eq!(direction_tag(Direction::Down), "download");
    assert_eq!(
        line_protocol_tags("p1", "wasabi", Direction::Down, "us-east-1", Some("NA"), Some("us-east")),
        "s3_transfer,instance=p1,provider=wasabi,direction=download,region=us-east-1,geo=NA,zone=us-east"
    );
    assert_eq!(
        line_protocol_tags("p1", "aws", Direction::Up, "eu", None, Some("eu-west")),
        "s3_transfer,instance=p1,provider=aws,direction=upload,region=eu,zone=eu-west"
    );
    assert_eq!(assemble_line("m,a=b", "x=1i", 1700000000000000000), "m,a=b x=1i 1700000000000000000");
    assert_eq!(assemble_line("m", "x=1i", i64::MIN), "m x=1i -9223372036854775808");
}

#[test]
fn session_directions() {
    assert_eq!(resolve_directions(true, false), (true, false));
    assert_eq!(resolve_directions(false, true), (false, true));
    assert_eq!(resolve_directions(false, false), (true, true));
    assert_eq!(resolve_directions(true, true), (true, true));
    assert_eq!(mode_label(true, true), "UP+DN");
    assert_eq!(mode_label(true, false), "UP only");
    assert_eq!(mode_label(false, true), "DN only");
}

#[test]
fn session_endpoints() {
    assert_eq!(endpoint_for("us-east-1", false), "https://s3.wasabisys.com");
    assert_eq!(endpoint_for("eu-central-1", false), "https://s3.eu-central-1.wasabisys.com");
    assert_eq!(endpoint_for("us-east-1", true), "http://s3.wasabisys.com");
    assert_eq!(resolve_pin("https://s3.wasabisys.com", "38.27.106.131"), "s3.wasabisys.com:443:38.27.106.131");
    assert_eq!(resolve_pin("http://s3.x.com", "1.1.1.1"), "s3.x.com:80:1.1.1.1");
    assert_eq!(resolve_pin("s3.x.com", "1.1.1.1"), "s3.x.com:80:1.1.1.1");
}

#[test]
fn session_names() {
    assert_eq!(count_label(0), "infinite");
    assert_eq!(count_label(20), "20");
    assert_eq!(seed_key(10), "speedtest-seed-10MB.bin");
    assert_eq!(object_key("20260318151959", 13, "6a0d8ddd"), "speedtest-20260318151959-13-6a0d8ddd.bin");
    assert_eq!(run_id(13, "6a0d8ddd"), "13-6a0d8ddd");
    assert_eq!(payload_bytes(10), 10 * 1024 * 1024);
    assert_eq!(payload_bytes(u32::MAX), u32::MAX as u64 * 1048576);
}

#[test]
fn session_loop_limits() {
    assert!(!past_run_limit(0, 1_000_000));
    assert!(!past_run_limit(20, 20));
    assert!(past_run_limit(20, 21));
    assert_eq!(total_runs(3, 5), 5);
    assert_eq!(total_runs(5, 3), 5);
}

#[test]
fn quiet_rows() {
    assert!(row_all_ok(None, None));
    assert!(row_all_ok(Some(Status::Okay), Some(Status::Okay)));
    assert!(!row_all_ok(Some(Status::Okay), Some(Status::Slow)));
    assert!(!row_all_ok(Some(Status::HttpErr(500)), None));
    assert!(row_all_ok(None, Some(Status::Okay)));
}

#[test]
fn run_ids_are_hex() {
    assert_eq!(hex_string(&[0x8d, 0xd2, 0xa7, 0x03]), "8dd2a703");
    assert_eq!(hex_string(&[]), "");
    let a = rand_hex().unwrap();
    assert_eq!(a.len(), 8);
    assert!(a.chars().all(|c| c.is_ascii_hexdigit() && !c.is_ascii_uppercase()));
    let b = rand_hex().unwrap();
    let c = rand_hex().unwrap();
    assert!(a != b || b != c);
}

#[test]
fn run_loop_decisions() {
    let obj = "speedtest-1-1-ab.bin".to_string();
    let seed = "speedtest-seed-10MB.bin".to_string();
    assert_eq!(download_key(true, &obj, &seed), obj);
    assert_eq!(download_key(false, &obj, &seed), seed);
    assert!(download_goes_ahead(true, false));
    assert!(!download_goes_ahead(true, true));
    assert!(!download_goes_ahead(false, false));
    assert!(is_rated(Status::Okay));
    assert!(!is_rated(Status::Slow));
    assert!(!shows_rating(DeviationLevel::Normal));
    assert!(shows_rating(DeviationLevel::High));
    assert!(needs_detail(Status::Tmout));
    assert!(!needs_detail(Status::Okay));
    assert!(csv_line_shown(false, Status::Okay));
    assert!(!csv_line_shown(true, Status::Okay));
    assert!(csv_line_shown(true, Status::Crawl));
}
