//! Text of the per-transfer detail line and of the summary tallies.
use vstd::prelude::*;

use crate::stats::DirectionStats;
use crate::text::{decimal, push_decimal, push_signed_decimal, push_str, signed_decimal, str_eq, string_from};
use crate::transfer::TransferResult;

verus! {

/// The text of an optional value, or `n/a`.
pub open spec fn or_na(o: Option<String>) -> Seq<char> {
    match o {
        Some(s) => s@,
        None => "n/a"@,
    }
}

/// The detail line printed under a transfer that was not OK:
/// `  ^ {dir} http={code} curl_exit={exit} remote_ip={ip} x-wasabi-cm-reference-id={id}`,
/// with `n/a` for an unknown IP or reference id.
pub open spec fn error_detail_spec(dir: Seq<char>, r: TransferResult) -> Seq<char> {
    "  ^ "@ + dir + " http="@ + decimal(r.http_code as nat) + " curl_exit="@ + signed_decimal(
        r.curl_exit as int,
    ) + " remote_ip="@ + or_na(r.remote_ip) + " x-wasabi-cm-reference-id="@ + or_na(r.cm_ref_id)
}

fn push_or_na(s: &mut String, o: &Option<String>)
    ensures
        final(s)@ == old(s)@ + or_na(*o),
{
    match o {
        Some(v) => push_str(s, v.as_str()),
        None => push_str(s, "n/a"),
    }
}

/// The detail line of a transfer.
pub fn error_detail_line(dir: &str, r: &TransferResult) -> (s: String)
    ensures
        s@ == error_detail_spec(dir@, *r),
{
    let mut s = string_from("  ^ ");
    push_str(&mut s, dir);
    push_str(&mut s, " http=");
    push_decimal(&mut s, r.http_code as u64);
    push_str(&mut s, " curl_exit=");
    push_signed_decimal(&mut s, r.curl_exit as i64);
    push_str(&mut s, " remote_ip=");
    push_or_na(&mut s, &r.remote_ip);
    push_str(&mut s, " x-wasabi-cm-reference-id=");
    push_or_na(&mut s, &r.cm_ref_id);
    s
}

/// The heading of a direction's summary, `{dir}:` padded so that `Upload:`
/// lines up with `Download:`.
pub open spec fn summary_heading_spec(dir: Seq<char>) -> Seq<char> {
    if dir == "Upload"@ {
        dir + ":  "@
    } else {
        dir + ":"@
    }
}

/// The heading of a direction's summary.
pub fn summary_heading(dir: &str) -> (s: String)
    ensures
        s@ == summary_heading_spec(dir@),
{
    let mut s = string_from(dir);
    if str_eq(dir, "Upload") {
        push_str(&mut s, ":  ");
    } else {
        push_str(&mut s, ":");
    }
    s
}

/// The tallies of a direction:
/// `{ok} ok  {slow} slow  {crawl} crawl  {stall} stall  {tmout} tmout  {reset} reset  {skipped} skip  {err} err`.
pub open spec fn counts_spec(st: &DirectionStats) -> Seq<char> {
    decimal(st.ok as nat) + " ok  "@ + decimal(st.slow as nat) + " slow  "@ + decimal(
        st.crawl as nat,
    ) + " crawl  "@ + decimal(st.stall as nat) + " stall  "@ + decimal(st.tmout as nat)
        + " tmout  "@ + decimal(st.reset as nat) + " reset  "@ + decimal(st.skipped as nat) + " skip  "@
        + decimal(st.err as nat) + " err"@
}

/// The tallies of a direction, as the summary prints them.
pub fn counts_text(st: &DirectionStats) -> (s: String)
    ensures
        s@ == counts_spec(st),
{
    let mut s = String::new();
    push_decimal(&mut s, st.ok as u64);
    push_str(&mut s, " ok  ");
    push_decimal(&mut s, st.slow as u64);
    push_str(&mut s, " slow  ");
    push_decimal(&mut s, st.crawl as u64);
    push_str(&mut s, " crawl  ");
    push_decimal(&mut s, st.stall as u64);
    push_str(&mut s, " stall  ");
    push_decimal(&mut s, st.tmout as u64);
    push_str(&mut s, " tmout  ");
    push_decimal(&mut s, st.reset as u64);
    push_str(&mut s, " reset  ");
    push_decimal(&mut s, st.skipped as u64);
    push_str(&mut s, " skip  ");
    push_decimal(&mut s, st.err as u64);
    push_str(&mut s, " err");
    assert(s@ =~= counts_spec(st));
    s
}

} // verus!
