use wasabi_speedtest_curl::headers::parse_cm_ref_id;
use wasabi_speedtest_curl::text::{chars_of, parse_unsigned_chars, split_lines, trim_range};
use wasabi_speedtest_curl::version::{parse_version_text, supports_sigv4};
use wasabi_speedtest_curl::writeout::{parse_write_out, write_out_format};

#[test]
fn ref_id_lower_case_header() {
    let h = "HTTP/1.1 200 OK\r\nx-wasabi-cm-reference-id: 1234 abc \r\nContent-Length: 0\r\n\r\n";
    assert_eq!(parse_cm_ref_id(h).as_deref(), Some("1234 abc"));
}

#[test]
fn ref_id_canonical_case_header() {
    let h = "HTTP/2 200\nX-Wasabi-Cm-Reference-Id:xyz\n";
    assert_eq!(parse_cm_ref_id(h).as_deref(), Some("xyz"));
}

#[test]
fn ref_id_mixed_case_header() {
    let h = "X-WASABI-CM-REFERENCE-ID:  Q9 \n";
    assert_eq!(parse_cm_ref_id(h).as_deref(), Some("Q9"));
}

#[test]
fn ref_id_first_match_wins() {
    let h = "x-wasabi-cm-reference-id: first\nx-wasabi-cm-reference-id: second\n";
    assert_eq!(parse_cm_ref_id(h).as_deref(), Some("first"));
}

#[test]
fn ref_id_absent() {
    assert_eq!(parse_cm_ref_id(""), None);
    assert_eq!(parse_cm_ref_id("Server: x\n x-wasabi-cm-reference-id: indented\n"), None);
    assert_eq!(parse_cm_ref_id("x-wasabi-cm-reference-id"), None);
}

#[test]
fn ref_id_empty_value() {
    assert_eq!(parse_cm_ref_id("x-wasabi-cm-reference-id:\r\n").as_deref(), Some(""));
}

#[test]
fn lines_like_std() {
    for s in ["", "a", "a\n", "a\r\nb", "a\n\nb\r", "\n", "x\r\n\r\n", "é\u{2028}\nz"] {
        let got: Vec<String> = split_lines(&chars_of(s)).iter().map(|l| l.iter().collect()).collect();
        let want: Vec<String> = s.lines().map(|l| l.to_string()).collect();
        assert_eq!(got, want, "input {s:?}");
    }
}

#[test]
fn trim_like_std() {
    for s in ["", "  ", " a b ", "\t\u{a0}x\u{3000}\r\n", "\u{200b}y"] {
        let c = chars_of(s);
        let got: String = trim_range(&c, 0, c.len()).iter().collect();
        assert_eq!(got, s.trim(), "input {s:?}");
    }
}

#[test]
fn unsigned_parsing_like_std() {
    for s in ["", "+", "-0", "0", "+7", "65535", "65536", "00012", "1 2", "٣", "18446744073709551615", "18446744073709551616"] {
        let c = chars_of(s);
        assert_eq!(parse_unsigned_chars(&c, u16::MAX as u64), s.parse::<u16>().ok().map(u64::from), "u16 {s:?}");
        assert_eq!(parse_unsigned_chars(&c, u64::MAX), s.parse::<u64>().ok(), "u64 {s:?}");
    }
}

#[test]
fn write_out_format_lists_thirteen_variables() {
    let f = write_out_format();
    assert_eq!(f.lines().count(), 13);
    assert!(f.starts_with("%{http_code}\n%{remote_ip}\n"));
    assert!(f.ends_with("%{size_upload}\n%{num_connects}"));
}

#[test]
fn write_out_report_is_read() {
    let out = "200\n38.27.106.131\n0.001\n0.010\n0.050\n0.051\n0.300\n0.810\n0\n12945000\n0\n10485760\n1\n";
    let w = parse_write_out(out);
    assert_eq!(w.http_code, 200);
    assert_eq!(w.remote_ip.as_deref(), Some("38.27.106.131"));
    assert_eq!(w.timing_fields.len(), 8);
    assert_eq!(w.timing_fields[0], "0.001");
    assert_eq!(w.timing_fields[5], "0.810");
    assert_eq!(w.timing_fields[7], "12945000");
    assert_eq!(w.size_download, 0);
    assert_eq!(w.size_upload, 10485760);
    assert_eq!(w.num_connects, 1);
}

#[test]
fn write_out_missing_and_bad_values_read_as_zero() {
    let w = parse_write_out("000\n\n");
    assert_eq!(w.http_code, 0);
    assert_eq!(w.remote_ip, None);
    assert!(w.timing_fields.iter().all(|f| f == "0"));
    assert_eq!((w.size_download, w.size_upload, w.num_connects), (0, 0, 0));
    let w = parse_write_out("abc\n 10.0.0.1 \nx\nx\nx\nx\nx\nx\nx\nx\n-5\n99999999999999999999\n4294967296\n");
    assert_eq!(w.http_code, 0);
    assert_eq!(w.remote_ip.as_deref(), Some("10.0.0.1"));
    assert_eq!((w.size_download, w.size_upload, w.num_connects), (0, 0, 0));
    assert_eq!(parse_write_out("").http_code, 0);
}

#[test]
fn curl_version_is_read() {
    let text = "curl 8.7.1 (x86_64-apple-darwin23.0) libcurl/8.7.1\nRelease-Date: 2024-03-27\n";
    assert_eq!(parse_version_text(text), Ok((8, 7)));
    assert_eq!(parse_version_text("curl 7.75"), Ok((7, 75)));
    assert_eq!(parse_version_text("curl  x.1 7.68.0"), Ok((7, 68)));
    assert_eq!(parse_version_text("curl 7.+68"), Ok((7, 68)));
}

#[test]
fn curl_version_unreadable() {
    assert_eq!(
        parse_version_text("curl unknown\n8.1.0"),
        Err("Could not parse curl version from: curl unknown".to_string())
    );
    assert_eq!(parse_version_text(""), Err("Could not parse curl version from: ".to_string()));
    assert_eq!(
        parse_version_text("curl 8 .5"),
        Err("Could not parse curl version from: curl 8 .5".to_string())
    );
}

#[test]
fn sigv4_needs_curl_7_75() {
    assert!(supports_sigv4(7, 75));
    assert!(supports_sigv4(8, 0));
    assert!(!supports_sigv4(7, 74));
    assert!(!supports_sigv4(6, 99));
}
