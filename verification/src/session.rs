//! The decisions of a test session: which directions run, which endpoint and
//! object keys are used, when the run loop stops, and how a run is named.
use vstd::prelude::*;

use crate::rolling::DeviationLevel;
use crate::status::Status;
use crate::text::{
    chars_of, decimal, has_prefix, push_chars, push_decimal, push_str, starts_with, str_eq,
    string_from,
};

verus! {

/// The directions to test, `(up, down)`: `--up` alone is upload only, `--down`
/// alone is download only, otherwise both.
pub open spec fn directions_spec(up: bool, down: bool) -> (bool, bool) {
    if up && !down {
        (true, false)
    } else if !up && down {
        (false, true)
    } else {
        (true, true)
    }
}

/// Which directions to test.
pub fn resolve_directions(up: bool, down: bool) -> (r: (bool, bool))
    ensures
        r == directions_spec(up, down),
        r.0 || r.1,
{
    match (up, down) {
        (true, false) => (true, false),
        (false, true) => (false, true),
        _ => (true, true),
    }
}

/// The Wasabi endpoint of a region: `{scheme}://s3.wasabisys.com` for
/// us-east-1, `{scheme}://s3.{region}.wasabisys.com` otherwise; the scheme is
/// `http` when `insecure`, else `https`.
pub open spec fn endpoint_spec(region: Seq<char>, insecure: bool) -> Seq<char> {
    let scheme = if insecure {
        "http"@
    } else {
        "https"@
    };
    if region == "us-east-1"@ {
        scheme + "://s3.wasabisys.com"@
    } else {
        scheme + "://s3."@ + region + ".wasabisys.com"@
    }
}

/// The endpoint URL for a region.
pub fn endpoint_for(region: &str, insecure: bool) -> (s: String)
    ensures
        s@ == endpoint_spec(region@, insecure),
{
    let mut s = if insecure {
        string_from("http")
    } else {
        string_from("https")
    };
    if str_eq(region, "us-east-1") {
        push_str(&mut s, "://s3.wasabisys.com");
    } else {
        push_str(&mut s, "://s3.");
        push_str(&mut s, region);
        push_str(&mut s, ".wasabisys.com");
    }
    s
}

/// Only us-east-1 uses the bare `s3.wasabisys.com` host; every other region
/// is named in its host: `https://s3.{region}.wasabisys.com` (`http` when
/// insecure).
pub proof fn lemma_endpoint_names_region(region: Seq<char>, insecure: bool)
    ensures
        region == "us-east-1"@ ==> endpoint_spec(region, insecure) == (if insecure {
            "http://s3.wasabisys.com"@
        } else {
            "https://s3.wasabisys.com"@
        }),
        region != "us-east-1"@ ==> endpoint_spec(region, insecure) == (if insecure {
            "http://s3."@
        } else {
            "https://s3."@
        }) + region + ".wasabisys.com"@,
{
    reveal_strlit("http");
    reveal_strlit("https");
    reveal_strlit("://s3.wasabisys.com");
    reveal_strlit("://s3.");
    reveal_strlit("http://s3.wasabisys.com");
    reveal_strlit("https://s3.wasabisys.com");
    reveal_strlit("http://s3.");
    reveal_strlit("https://s3.");
    assert("http"@ + "://s3.wasabisys.com"@ =~= "http://s3.wasabisys.com"@);
    assert("https"@ + "://s3.wasabisys.com"@ =~= "https://s3.wasabisys.com"@);
    assert("http"@ + "://s3."@ =~= "http://s3."@);
    assert("https"@ + "://s3."@ =~= "https://s3."@);
    if region != "us-east-1"@ {
        if insecure {
            assert("http"@ + "://s3."@ + region + ".wasabisys.com"@ =~= "http://s3."@ + region
                + ".wasabisys.com"@);
        } else {
            assert("https"@ + "://s3."@ + region + ".wasabisys.com"@ =~= "https://s3."@ + region
                + ".wasabisys.com"@);
        }
    }
}

/// Different regions reach different endpoints (with the same scheme).
pub proof fn lemma_endpoint_injective(r1: Seq<char>, r2: Seq<char>, insecure: bool)
    requires
        endpoint_spec(r1, insecure) == endpoint_spec(r2, insecure),
    ensures
        r1 == r2,
{
    reveal_strlit("http");
    reveal_strlit("https");
    reveal_strlit("://s3.wasabisys.com");
    reveal_strlit("://s3.");
    reveal_strlit(".wasabisys.com");
    reveal_strlit("us-east-1");
    let scheme = if insecure {
        "http"@
    } else {
        "https"@
    };
    let e1 = endpoint_spec(r1, insecure);
    let e2 = endpoint_spec(r2, insecure);
    let p = scheme + "://s3."@;
    let q = ".wasabisys.com"@;
    if r1 != "us-east-1"@ && r2 != "us-east-1"@ {
        assert(e1 =~= p + r1 + q);
        assert(e2 =~= p + r2 + q);
        assert(r1.len() == r2.len());
        assert(r1 =~= e1.subrange(p.len() as int, (p.len() + r1.len()) as int));
        assert(r2 =~= e2.subrange(p.len() as int, (p.len() + r2.len()) as int));
    } else if r1 != "us-east-1"@ {
        assert(e1.len() == p.len() + r1.len() + q.len());
        assert(e2.len() == scheme.len() + "://s3.wasabisys.com"@.len());
    } else if r2 != "us-east-1"@ {
        assert(e2.len() == p.len() + r2.len() + q.len());
        assert(e1.len() == scheme.len() + "://s3.wasabisys.com"@.len());
    }
}

/// The host part of an endpoint URL: without a leading `http://` or
/// `https://`.
pub open spec fn host_spec(endpoint: Seq<char>) -> Seq<char> {
    if has_prefix(endpoint, "http://"@) {
        endpoint.skip("http://"@.len() as int)
    } else if has_prefix(endpoint, "https://"@) {
        endpoint.skip("https://"@.len() as int)
    } else {
        endpoint
    }
}

/// The port an endpoint is reached on: 443 for `https://`, else 80.
pub open spec fn port_spec(endpoint: Seq<char>) -> nat {
    if has_prefix(endpoint, "https://"@) {
        443
    } else {
        80
    }
}

/// The `--resolve` pin `{host}:{port}:{ip}` that sends every request for the
/// endpoint's host to `ip`.
pub open spec fn resolve_pin_spec(endpoint: Seq<char>, ip: Seq<char>) -> Seq<char> {
    host_spec(endpoint) + ":"@ + decimal(port_spec(endpoint)) + ":"@ + ip
}

/// The `--resolve` pin for `ip`.
pub fn resolve_pin(endpoint: &str, ip: &str) -> (s: String)
    ensures
        s@ == resolve_pin_spec(endpoint@, ip@),
{
    let e = chars_of(endpoint);
    let http = chars_of("http://");
    let https = chars_of("https://");
    let skip = if starts_with(endpoint, "http://") {
        http.len()
    } else if starts_with(endpoint, "https://") {
        https.len()
    } else {
        0
    };
    let mut host: Vec<char> = Vec::new();
    let mut i = skip;
    while i < e.len()
        invariant
            skip <= i <= e@.len(),
            host@ =~= e@.subrange(skip as int, i as int),
        decreases e@.len() - i,
    {
        host.push(e[i]);
        i = i + 1;
    }
    assert(host@ =~= host_spec(endpoint@));
    let port: u64 = if starts_with(endpoint, "https://") {
        443
    } else {
        80
    };
    let mut s = String::new();
    push_chars(&mut s, host.as_slice());
    push_str(&mut s, ":");
    push_decimal(&mut s, port);
    push_str(&mut s, ":");
    push_str(&mut s, ip);
    assert(s@ =~= resolve_pin_spec(endpoint@, ip@));
    s
}

/// The pin sends the endpoint's host to the given IP: it is the host, the
/// port 443 for `https://` endpoints and 80 otherwise, and the IP, joined by
/// colons, and it ends with `:{ip}`.
pub proof fn lemma_resolve_pin_shape(endpoint: Seq<char>, ip: Seq<char>)
    ensures
        resolve_pin_spec(endpoint, ip) == host_spec(endpoint) + ":"@ + decimal(
            port_spec(endpoint),
        ) + ":"@ + ip,
        has_prefix(endpoint, "https://"@) ==> port_spec(endpoint) == 443,
        !has_prefix(endpoint, "https://"@) ==> port_spec(endpoint) == 80,
        resolve_pin_spec(endpoint, ip).skip(resolve_pin_spec(endpoint, ip).len() - ip.len()) == ip,
{
    let r = resolve_pin_spec(endpoint, ip);
    assert(r.skip(r.len() - ip.len()) =~= ip);
}

/// The mode shown in the banner.
pub open spec fn mode_label_spec(up: bool, down: bool) -> Seq<char> {
    if up && down {
        "UP+DN"@
    } else if up {
        "UP only"@
    } else {
        "DN only"@
    }
}

/// The mode shown in the banner; at least one direction runs.
pub fn mode_label(up: bool, down: bool) -> (s: &'static str)
    requires
        up || down,
    ensures
        s@ == mode_label_spec(up, down),
{
    if up && down {
        "UP+DN"
    } else if up {
        "UP only"
    } else {
        "DN only"
    }
}

/// The run count shown in the banner: `infinite` for 0.
pub fn count_label(count: u32) -> (s: String)
    ensures
        s@ == if count == 0 {
            "infinite"@
        } else {
            decimal(count as nat)
        },
{
    if count == 0 {
        string_from("infinite")
    } else {
        let mut s = String::new();
        push_decimal(&mut s, count as u64);
        assert(Seq::<char>::empty() + decimal(count as nat) =~= decimal(count as nat));
        s
    }
}

/// The object that download-only runs fetch: `speedtest-seed-{size_mb}MB.bin`.
pub fn seed_key(size_mb: u32) -> (s: String)
    ensures
        s@ == "speedtest-seed-"@ + decimal(size_mb as nat) + "MB.bin"@,
{
    let mut s = string_from("speedtest-seed-");
    push_decimal(&mut s, size_mb as u64);
    push_str(&mut s, "MB.bin");
    s
}

/// The object a run uploads: `speedtest-{run_date}-{run}-{rid}.bin`.
pub fn object_key(run_date: &str, run: u32, rid: &str) -> (s: String)
    ensures
        s@ == "speedtest-"@ + run_date@ + "-"@ + decimal(run as nat) + "-"@ + rid@ + ".bin"@,
{
    let mut s = string_from("speedtest-");
    push_str(&mut s, run_date);
    push_str(&mut s, "-");
    push_decimal(&mut s, run as u64);
    push_str(&mut s, "-");
    push_str(&mut s, rid);
    push_str(&mut s, ".bin");
    s
}

/// The identifier of a run in the output: `{run}-{rid}`.
pub fn run_id(run: u32, rid: &str) -> (s: String)
    ensures
        s@ == decimal(run as nat) + "-"@ + rid@,
{
    let mut s = String::new();
    push_decimal(&mut s, run as u64);
    push_str(&mut s, "-");
    push_str(&mut s, rid);
    assert(s@ =~= decimal(run as nat) + "-"@ + rid@);
    s
}

/// Whether run number `run` (counted from 1) is past the requested count;
/// a count of 0 runs forever.
pub fn past_run_limit(count: u32, run: u32) -> (b: bool)
    ensures
        b == (count > 0 && run > count),
{
    count > 0 && run > count
}

/// The payload size in bytes for `size_mb` mebibytes.
pub fn payload_bytes(size_mb: u32) -> (b: u64)
    ensures
        b == size_mb * 1048576,
{
    size_mb as u64 * 1048576
}

/// The number of runs that completed: the larger of the two directions'
/// totals.
pub fn total_runs(up_total: u32, down_total: u32) -> (t: u32)
    ensures
        t == if up_total >= down_total {
            up_total
        } else {
            down_total
        },
{
    if up_total >= down_total {
        up_total
    } else {
        down_total
    }
}

/// Whether a row shows only OK results (quiet mode hides such rows): every
/// transfer of the run, if any, was OK.
pub open spec fn row_all_ok_spec(up: Option<Status>, down: Option<Status>) -> bool {
    (up matches Some(u) ==> u is Okay) && (down matches Some(d) ==> d is Okay)
}

/// Whether every transfer of the row was OK.
pub fn row_all_ok(up: Option<Status>, down: Option<Status>) -> (b: bool)
    ensures
        b == row_all_ok_spec(up, down),
{
    let u = match up {
        Some(Status::Okay) | None => true,
        Some(_) => false,
    };
    let d = match down {
        Some(Status::Okay) | None => true,
        Some(_) => false,
    };
    u && d
}

/// A run's lower-case hexadecimal digit for `d < 16`.
pub open spec fn hex_digit(d: nat) -> char {
    if d < 10 {
        (d + 48) as char
    } else {
        (d + 87) as char
    }
}

/// Two lower-case hexadecimal digits per byte, most significant first.
pub open spec fn hex_spec(bytes: Seq<u8>) -> Seq<char>
    decreases bytes.len(),
{
    if bytes.len() == 0 {
        seq![]
    } else {
        hex_spec(bytes.drop_last()) + seq![
            hex_digit((bytes.last() / 16) as nat),
            hex_digit((bytes.last() % 16) as nat),
        ]
    }
}

fn hex_char(d: u8) -> (c: char)
    requires
        d < 16,
    ensures
        c == hex_digit(d as nat),
{
    if d < 10 {
        (d + 48) as char
    } else {
        (d + 87) as char
    }
}

/// The bytes as lower-case hexadecimal, two digits each.
pub fn hex_string(bytes: &[u8]) -> (s: String)
    ensures
        s@ == hex_spec(bytes@),
{
    let mut v: Vec<char> = Vec::new();
    let mut i: usize = 0;
    while i < bytes.len()
        invariant
            i <= bytes@.len(),
            v@ == hex_spec(bytes@.take(i as int)),
        decreases bytes@.len() - i,
    {
        let b = bytes[i];
        assert(bytes@.take(i + 1).drop_last() =~= bytes@.take(i as int));
        v.push(hex_char(b / 16));
        v.push(hex_char(b % 16));
        assert(v@ =~= hex_spec(bytes@.take(i + 1)));
        i = i + 1;
    }
    assert(bytes@.take(bytes@.len() as int) =~= bytes@);
    let mut s = String::new();
    push_chars(&mut s, v.as_slice());
    assert(Seq::<char>::empty() + v@ =~= v@);
    s
}

/// Four bytes from the operating system's random source: calls
/// `try_fill_bytes` of `rand::rngs::OsRng`, which fills them through
/// `getrandom` and reports the source's failure as an error.  `None` on that
/// error; nothing is stated of the bytes' value, nor of when the source fails.
#[verifier::external_body]
fn random_bytes() -> (b: Option<[u8; 4]>) {
    let mut b = [0u8; 4];
    match rand::TryRngCore::try_fill_bytes(&mut rand::rngs::OsRng, &mut b) {
        Ok(()) => Some(b),
        Err(_) => None,
    }
}

/// A random run identifier: eight lower-case hexadecimal digits, the
/// encoding of four random bytes; `None` when the system's random source
/// fails.
pub fn rand_hex() -> (r: Option<String>)
    ensures
        r matches Some(s) ==> s@.len() == 8 && exists|b: Seq<u8>| b.len() == 4 && s@ == hex_spec(b),
{
    let bytes = match random_bytes() {
        Some(b) => b,
        None => return None,
    };
    let s = hex_string(&bytes);
    proof {
        let b = bytes@;
        assert(b.len() == 4);
        assert(b.take(0).len() == 0);
        assert(hex_spec(b.take(0)) =~= seq![]);
        assert(b.take(1).drop_last() =~= b.take(0));
        assert(b.take(2).drop_last() =~= b.take(1));
        assert(b.take(3).drop_last() =~= b.take(2));
        assert(b.take(4).drop_last() =~= b.take(3));
        assert(b.take(4) =~= b);
        assert(hex_spec(b.take(1)).len() == 2);
        assert(hex_spec(b.take(2)).len() == 4);
        assert(hex_spec(b.take(3)).len() == 6);
        assert(hex_spec(b.take(4)).len() == 8);
    }
    Some(s)
}

/// The object a download fetches: the one just uploaded when uploads run,
/// else the seed object.
pub fn download_key(do_up: bool, obj_key: &String, seed_key: &String) -> (k: String)
    ensures
        k@ == if do_up {
            obj_key@
        } else {
            seed_key@
        },
{
    if do_up {
        obj_key.clone()
    } else {
        seed_key.clone()
    }
}

/// Whether a run's download goes ahead: downloads are tested and no stop was
/// requested during the upload (the row is then printed without it).
pub fn download_goes_ahead(do_down: bool, stop_requested: bool) -> (b: bool)
    ensures
        b == (do_down && !stop_requested),
{
    do_down && !stop_requested
}

/// Whether a transfer is rated against the recent ones: only OK transfers
/// are, and only they enter the window.
pub fn is_rated(status: Status) -> (b: bool)
    ensures
        b == (status is Okay),
{
    matches!(status, Status::Okay)
}

/// Whether a rating is shown beside the status: only ratings above NORMAL.
pub fn shows_rating(level: DeviationLevel) -> (b: bool)
    ensures
        b == !(level is Normal),
{
    !matches!(level, DeviationLevel::Normal)
}

/// Whether a transfer gets a detail line under its row: every transfer that
/// was not OK.
pub fn needs_detail(status: Status) -> (b: bool)
    ensures
        b == !(status is Okay),
{
    !matches!(status, Status::Okay)
}

/// Whether a transfer's CSV line is written: quiet mode writes only the
/// transfers that were not OK.
pub fn csv_line_shown(quiet: bool, status: Status) -> (b: bool)
    ensures
        b == (!quiet || !(status is Okay)),
{
    !quiet || !matches!(status, Status::Okay)
}

} // verus!
