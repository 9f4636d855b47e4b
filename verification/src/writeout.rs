//! curl's `--write-out` report of a transfer.
//!
//! The tool asks curl to print thirteen values, one per line: the HTTP code,
//! the remote IP, six timings, two speeds, two sizes and the number of
//! connections.  A missing or malformed number reads as zero.
use vstd::prelude::*;

use crate::text::{
    chars_of, lines, parse_unsigned, parse_unsigned_chars, push_str, split_lines, string_of,
    trim, trim_range,
};

verus! {

/// The `--write-out` variables, in the order curl prints them.
pub open spec fn write_out_vars() -> Seq<Seq<char>> {
    seq![
        "%{http_code}"@,
        "%{remote_ip}"@,
        "%{time_namelookup}"@,
        "%{time_connect}"@,
        "%{time_appconnect}"@,
        "%{time_pretransfer}"@,
        "%{time_starttransfer}"@,
        "%{time_total}"@,
        "%{speed_download}"@,
        "%{speed_upload}"@,
        "%{size_download}"@,
        "%{size_upload}"@,
        "%{num_connects}"@,
    ]
}

/// `parts` joined with `'\n'` between them.
pub open spec fn join_lines(parts: Seq<Seq<char>>) -> Seq<char>
    decreases parts.len(),
{
    if parts.len() == 0 {
        seq![]
    } else if parts.len() == 1 {
        parts[0]
    } else {
        join_lines(parts.drop_last()) + seq!['\n'] + parts.last()
    }
}

/// The `--write-out` format: the variables, one per line.
pub fn write_out_format() -> (s: String)
    ensures
        s@ == join_lines(write_out_vars()),
{
    let vars: [&str; 13] = [
        "%{http_code}",
        "%{remote_ip}",
        "%{time_namelookup}",
        "%{time_connect}",
        "%{time_appconnect}",
        "%{time_pretransfer}",
        "%{time_starttransfer}",
        "%{time_total}",
        "%{speed_download}",
        "%{speed_upload}",
        "%{size_download}",
        "%{size_upload}",
        "%{num_connects}",
    ];
    let ghost want = write_out_vars();
    assert(forall|j: int| 0 <= j < 13 ==> #[trigger] vars@[j]@ == want[j]);
    let mut s = String::new();
    let mut i: usize = 0;
    while i < 13
        invariant
            i <= 13,
            want == write_out_vars(),
            forall|j: int| 0 <= j < 13 ==> #[trigger] vars@[j]@ == want[j],
            s@ == join_lines(want.take(i as int)),
        decreases 13 - i,
    {
        assert(want.take(i + 1).drop_last() =~= want.take(i as int));
        assert(want.take(i + 1).last() == want[i as int]);
        if i > 0 {
            push_str(&mut s, "\n");
            proof {
                reveal_strlit("\n");
                assert("\n"@ =~= seq!['\n']);
            }
        } else {
            assert(s@ + vars[i as int]@ =~= vars[i as int]@);
        }
        push_str(&mut s, vars[i]);
        i = i + 1;
    }
    assert(want.take(13) =~= want);
    s
}

/// The values of a `--write-out` report that are integers or text; the six
/// timings and two speeds are kept as their trimmed text (`timing_fields`,
/// lines 2 to 9) for the caller to read as decimals.
pub struct WriteOut {
    pub http_code: u16,
    pub remote_ip: Option<String>,
    pub timing_fields: Vec<String>,
    pub size_download: u64,
    pub size_upload: u64,
    pub num_connects: u32,
}

/// The trimmed text of line `i`, or `"0"` when there is no such line.
pub open spec fn field_text(ls: Seq<Seq<char>>, i: int) -> Seq<char> {
    if 0 <= i < ls.len() {
        trim(ls[i])
    } else {
        "0"@
    }
}

/// Line `i` read as an unsigned integer no larger than `max`, or 0 when it is
/// missing or not such a number.
pub open spec fn field_number(ls: Seq<Seq<char>>, i: int, max: nat) -> nat {
    match parse_unsigned(field_text(ls, i), max) {
        Some(v) => v,
        None => 0,
    }
}

/// The remote IP: line 1 trimmed, when it is present and not empty.
pub open spec fn field_ip(ls: Seq<Seq<char>>) -> Option<Seq<char>> {
    if ls.len() > 1 && trim(ls[1]).len() > 0 {
        Some(trim(ls[1]))
    } else {
        None
    }
}

fn line_text(ls: &Vec<Vec<char>>, i: usize) -> (t: Vec<char>)
    ensures
        t@ == field_text(ls@.map_values(|l: Vec<char>| l@), i as int),
{
    let ghost v = ls@.map_values(|l: Vec<char>| l@);
    if i < ls.len() {
        let l = &ls[i];
        let t = trim_range(l.as_slice(), 0, l.len());
        assert(l@.subrange(0, l@.len() as int) =~= l@);
        assert(v[i as int] == l@);
        t
    } else {
        chars_of("0")
    }
}

/// Reads curl's `--write-out` report.
pub fn parse_write_out(stdout: &str) -> (w: WriteOut)
    ensures
        ({
            let ls = lines(stdout@);
            &&& w.http_code == field_number(ls, 0, 0xffff)
            &&& w.remote_ip is Some <==> field_ip(ls) is Some
            &&& (w.remote_ip matches Some(ip) ==> ip@ == field_ip(ls)->0)
            &&& w.timing_fields@.len() == 8
            &&& forall|j: int| 0 <= j < 8 ==> #[trigger] w.timing_fields@[j]@ == field_text(ls, j + 2)
            &&& w.size_download == field_number(ls, 10, 0xffff_ffff_ffff_ffff)
            &&& w.size_upload == field_number(ls, 11, 0xffff_ffff_ffff_ffff)
            &&& w.num_connects == field_number(ls, 12, 0xffff_ffff)
        }),
{
    let text = chars_of(stdout);
    let ls = split_lines(text.as_slice());
    let ghost lv = lines(stdout@);
    assert(ls@.map_values(|l: Vec<char>| l@) =~= lv);
    let http = match parse_unsigned_chars(line_text(&ls, 0).as_slice(), 0xffff) {
        Some(v) => v as u16,
        None => 0,
    };
    let ip_text = line_text(&ls, 1);
    let remote_ip = if ls.len() > 1 && ip_text.len() > 0 {
        Some(string_of(ip_text.as_slice()))
    } else {
        None
    };
    let mut timing_fields: Vec<String> = Vec::new();
    let mut j: usize = 2;
    while j < 10
        invariant
            2 <= j <= 10,
            ls@.map_values(|l: Vec<char>| l@) == lv,
            timing_fields@.len() == j - 2,
            forall|k: int| 0 <= k < j - 2 ==> #[trigger] timing_fields@[k]@ == field_text(lv, k + 2),
        decreases 10 - j,
    {
        let t = line_text(&ls, j);
        timing_fields.push(string_of(t.as_slice()));
        j = j + 1;
    }
    let size_download = match parse_unsigned_chars(
        line_text(&ls, 10).as_slice(),
        0xffff_ffff_ffff_ffff,
    ) {
        Some(v) => v,
        None => 0,
    };
    let size_upload = match parse_unsigned_chars(
        line_text(&ls, 11).as_slice(),
        0xffff_ffff_ffff_ffff,
    ) {
        Some(v) => v,
        None => 0,
    };
    let num_connects = match parse_unsigned_chars(line_text(&ls, 12).as_slice(), 0xffff_ffff) {
        Some(v) => v as u32,
        None => 0,
    };
    WriteOut { http_code: http, remote_ip, timing_fields, size_download, size_upload, num_connects }
}

} // verus!
