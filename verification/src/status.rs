//! Transfer outcome classification.
//!
//! A transfer's outcome is decided from curl's exit code, the HTTP status it
//! reported, and how long the transfer took, against three time thresholds
//! (SLOW, CRAWL, STALL).  Durations are whole nanoseconds.
use vstd::prelude::*;

use crate::text::{
    decimal, digit_char, is_digit, push_decimal, push_signed_decimal, signed_decimal, string_from,
};

verus! {

/// Which way a transfer moves data.
#[derive(Clone, Copy, PartialEq, Eq, Structural, Debug)]
pub enum Direction {
    Up,
    Down,
}

/// The outcome class of one transfer.
#[derive(Clone, Copy, PartialEq, Eq, Structural, Debug)]
pub enum Status {
    Okay,
    Slow,
    Crawl,
    Stall,
    Tmout,
    Reset,
    Rfusd,
    Skipped,
    HttpErr(u16),
    CurlErr(i32),
}

/// curl's exit code when `--max-time` was exceeded.
pub const CURL_EXIT_TIMEOUT: i32 = 28;

/// curl's exit code when the connection was reset while receiving.
pub const CURL_EXIT_RECV_ERROR: i32 = 56;

/// curl's exit code when the connection was refused.
pub const CURL_EXIT_CONNECT_FAILED: i32 = 7;

/// The short label printed for a status.
pub open spec fn status_label(s: Status) -> Seq<char> {
    match s {
        Status::Okay => "OK"@,
        Status::Slow => "SLOW"@,
        Status::Crawl => "CRAWL"@,
        Status::Stall => "STALL"@,
        Status::Tmout => "TMOUT"@,
        Status::Reset => "RESET"@,
        Status::Rfusd => "RFUSD"@,
        Status::Skipped => "SKIP"@,
        Status::HttpErr(code) => "H"@ + decimal(code as nat),
        Status::CurlErr(code) => "ERR"@ + signed_decimal(code as int),
    }
}

/// A transfer counts as successful when it completed, however slowly.
pub open spec fn status_is_success(s: Status) -> bool {
    s is Okay || s is Slow || s is Crawl || s is Stall
}

/// The rank of a completed transfer's speed class: OK < SLOW < CRAWL < STALL.
pub open spec fn speed_rank(s: Status) -> int {
    match s {
        Status::Okay => 0,
        Status::Slow => 1,
        Status::Crawl => 2,
        _ => 3,
    }
}

/// The status of a transfer, decided in this order: curl exit 28 is TMOUT,
/// 56 is RESET, 7 is RFUSD; any other non-zero exit without an HTTP code is
/// ERR{exit}; an HTTP code other than 200 is H{code}; a non-zero exit with
/// HTTP 200 is ERR{exit}; otherwise the elapsed time
/// picks STALL, CRAWL, SLOW or OK by the first threshold it reaches.
pub open spec fn classify_spec(
    exit_code: i32,
    http_code: u16,
    elapsed: u64,
    slow: u64,
    crawl: u64,
    stall: u64,
) -> Status {
    if exit_code == 28 {
        Status::Tmout
    } else if exit_code == 56 {
        Status::Reset
    } else if exit_code == 7 {
        Status::Rfusd
    } else if exit_code != 0 && http_code == 0 {
        Status::CurlErr(exit_code)
    } else if http_code != 200 {
        Status::HttpErr(http_code)
    } else if exit_code != 0 {
        Status::CurlErr(exit_code)
    } else if elapsed >= stall {
        Status::Stall
    } else if elapsed >= crawl {
        Status::Crawl
    } else if elapsed >= slow {
        Status::Slow
    } else {
        Status::Okay
    }
}

impl Status {
    /// The short label printed for this status (`OK`, `H403`, `ERR6`, ...).
    pub fn label(&self) -> (r: String)
        ensures
            r@ == status_label(*self),
    {
        match self {
            Status::Okay => string_from("OK"),
            Status::Slow => string_from("SLOW"),
            Status::Crawl => string_from("CRAWL"),
            Status::Stall => string_from("STALL"),
            Status::Tmout => string_from("TMOUT"),
            Status::Reset => string_from("RESET"),
            Status::Rfusd => string_from("RFUSD"),
            Status::Skipped => string_from("SKIP"),
            Status::HttpErr(code) => {
                let mut s = string_from("H");
                push_decimal(&mut s, *code as u64);
                s
            },
            Status::CurlErr(code) => {
                let mut s = string_from("ERR");
                push_signed_decimal(&mut s, *code as i64);
                s
            },
        }
    }

    /// Whether the transfer completed (OK, SLOW, CRAWL or STALL).
    pub fn is_success(&self) -> (b: bool)
        ensures
            b == status_is_success(*self),
    {
        matches!(self, Status::Okay | Status::Slow | Status::Crawl | Status::Stall)
    }
}

/// Classifies a finished transfer.  `elapsed` and the thresholds of `cfg` are
/// in nanoseconds.
pub fn classify(exit_code: i32, http_code: u16, elapsed: u64, cfg: &crate::transfer::CurlConfig) -> (s:
    Status)
    ensures
        s == classify_spec(
            exit_code,
            http_code,
            elapsed,
            cfg.slow_nanos,
            cfg.crawl_nanos,
            cfg.stall_nanos,
        ),
{
    if exit_code == CURL_EXIT_TIMEOUT {
        return Status::Tmout;
    }
    if exit_code == CURL_EXIT_RECV_ERROR {
        return Status::Reset;
    }
    if exit_code == CURL_EXIT_CONNECT_FAILED {
        return Status::Rfusd;
    }
    if exit_code != 0 && http_code == 0 {
        return Status::CurlErr(exit_code);
    }
    if http_code != 200 {
        return Status::HttpErr(http_code);
    }
    if exit_code != 0 {
        return Status::CurlErr(exit_code);
    }
    if elapsed >= cfg.stall_nanos {
        Status::Stall
    } else if elapsed >= cfg.crawl_nanos {
        Status::Crawl
    } else if elapsed >= cfg.slow_nanos {
        Status::Slow
    } else {
        Status::Okay
    }
}

/// A transfer is classified as successful exactly when curl exited cleanly
/// and reported HTTP 200.
pub proof fn lemma_classify_success(
    exit_code: i32,
    http_code: u16,
    elapsed: u64,
    slow: u64,
    crawl: u64,
    stall: u64,
)
    ensures
        status_is_success(classify_spec(exit_code, http_code, elapsed, slow, crawl, stall)) <==> (
        http_code == 200 && exit_code == 0),
{
}

/// For the same exit code and HTTP code, a longer transfer never gets a
/// better speed class: OK, SLOW, CRAWL and STALL are reached in that order as
/// the elapsed time grows, whatever the thresholds.
pub proof fn lemma_classify_monotone(
    exit_code: i32,
    http_code: u16,
    e1: u64,
    e2: u64,
    slow: u64,
    crawl: u64,
    stall: u64,
)
    requires
        e1 <= e2,
    ensures
        classify_spec(exit_code, http_code, e1, slow, crawl, stall) == classify_spec(
            exit_code,
            http_code,
            e2,
            slow,
            crawl,
            stall,
        ) || speed_rank(classify_spec(exit_code, http_code, e1, slow, crawl, stall)) < speed_rank(
            classify_spec(exit_code, http_code, e2, slow, crawl, stall),
        ),
        status_is_success(classify_spec(exit_code, http_code, e1, slow, crawl, stall))
            == status_is_success(classify_spec(exit_code, http_code, e2, slow, crawl, stall)),
{
}

/// A numeral is never empty and holds only digits; it is a single digit
/// exactly for values below ten.
pub proof fn lemma_decimal_shape(n: nat)
    ensures
        decimal(n).len() >= 1,
        forall|i: int| 0 <= i < decimal(n).len() ==> is_digit(#[trigger] decimal(n)[i]),
        decimal(n).len() == 1 <==> n < 10,
    decreases n,
{
    if n >= 10 {
        lemma_decimal_shape(n / 10);
        let p = decimal(n / 10);
        assert forall|i: int| 0 <= i < decimal(n).len() implies is_digit(#[trigger] decimal(n)[i]) by {
            if i < p.len() {
                assert(decimal(n)[i] == p[i]);
            }
        }
    }
}

proof fn lemma_digit_char_injective(a: nat, b: nat)
    requires
        a < 10,
        b < 10,
        digit_char(a) == digit_char(b),
    ensures
        a == b,
{
    assert(digit_char(a) as int == a + 48);
    assert(digit_char(b) as int == b + 48);
}

/// Different values have different numerals.
pub proof fn lemma_decimal_injective(a: nat, b: nat)
    requires
        decimal(a) == decimal(b),
    ensures
        a == b,
    decreases a,
{
    lemma_decimal_shape(a);
    lemma_decimal_shape(b);
    if a < 10 {
        assert(b < 10);
        assert(decimal(a)[0] == digit_char(a));
        assert(decimal(b)[0] == digit_char(b));
        lemma_digit_char_injective(a, b);
    } else {
        assert(b >= 10);
        assert(decimal(a / 10) == decimal(a).drop_last());
        assert(decimal(b / 10) == decimal(b).drop_last());
        lemma_decimal_injective(a / 10, b / 10);
        assert(digit_char(a % 10) == decimal(a).last());
        assert(digit_char(b % 10) == decimal(b).last());
        lemma_digit_char_injective(a % 10, b % 10);
    }
}

/// Different integers have different signed numerals.
pub proof fn lemma_signed_decimal_injective(a: int, b: int)
    requires
        signed_decimal(a) == signed_decimal(b),
    ensures
        a == b,
{
    lemma_decimal_shape((if a < 0 { -a } else { a }) as nat);
    lemma_decimal_shape((if b < 0 { -b } else { b }) as nat);
    if a < 0 && b < 0 {
        assert(signed_decimal(a).drop_first() == decimal((-a) as nat));
        assert(signed_decimal(b).drop_first() == decimal((-b) as nat));
        lemma_decimal_injective((-a) as nat, (-b) as nat);
    } else if a < 0 {
        assert(signed_decimal(a)[0] == '-');
        assert(is_digit(decimal(b as nat)[0]));
    } else if b < 0 {
        assert(signed_decimal(b)[0] == '-');
        assert(is_digit(decimal(a as nat)[0]));
    } else {
        lemma_decimal_injective(a as nat, b as nat);
    }
}

/// The first two characters and the length of a label tell the statuses
/// without a code apart.
proof fn lemma_label_head(a: Status)
    ensures
        status_label(a).len() >= 2,
        match a {
            Status::Okay => status_label(a)[0] == 'O' && status_label(a).len() == 2,
            Status::Slow => status_label(a)[0] == 'S' && status_label(a)[1] == 'L' && status_label(a).len() == 4,
            Status::Crawl => status_label(a)[0] == 'C' && status_label(a).len() == 5,
            Status::Stall => status_label(a)[0] == 'S' && status_label(a)[1] == 'T' && status_label(a).len() == 5,
            Status::Tmout => status_label(a)[0] == 'T' && status_label(a).len() == 5,
            Status::Reset => status_label(a)[0] == 'R' && status_label(a)[1] == 'E' && status_label(a).len() == 5,
            Status::Rfusd => status_label(a)[0] == 'R' && status_label(a)[1] == 'F' && status_label(a).len() == 5,
            Status::Skipped => status_label(a)[0] == 'S' && status_label(a)[1] == 'K' && status_label(a).len() == 4,
            Status::HttpErr(c) => status_label(a)[0] == 'H' && status_label(a).skip(1) == decimal(
                c as nat,
            ),
            Status::CurlErr(c) => status_label(a)[0] == 'E' && status_label(a).skip(3)
                == signed_decimal(c as int),
        },
{
    reveal_strlit("OK");
    reveal_strlit("SLOW");
    reveal_strlit("CRAWL");
    reveal_strlit("STALL");
    reveal_strlit("TMOUT");
    reveal_strlit("RESET");
    reveal_strlit("RFUSD");
    reveal_strlit("SKIP");
    reveal_strlit("H");
    reveal_strlit("ERR");
    match a {
        Status::HttpErr(c) => {
            lemma_decimal_shape(c as nat);
            assert(status_label(a).skip(1) =~= decimal(c as nat));
        },
        Status::CurlErr(c) => {
            lemma_decimal_shape((if c < 0 { -c } else { c as int }) as nat);
            assert(status_label(a).skip(3) =~= signed_decimal(c as int));
        },
        _ => {},
    }
}

/// Every status has its own label: two statuses with the same label are the
/// same status, with the same code.
pub proof fn lemma_label_injective(a: Status, b: Status)
    requires
        status_label(a) == status_label(b),
    ensures
        a == b,
{
    let la = status_label(a);
    let lb = status_label(b);
    lemma_label_head(a);
    lemma_label_head(b);
    match (a, b) {
        (Status::HttpErr(x), Status::HttpErr(y)) => {
            lemma_decimal_injective(x as nat, y as nat);
        },
        (Status::CurlErr(x), Status::CurlErr(y)) => {
            lemma_signed_decimal_injective(x as int, y as int);
        },
        _ => {
            assert(la[0] == lb[0]);
            assert(la.len() == lb.len());
            assert(la[1] == lb[1]);
        },
    }
}

/// curl's own failures decide the status whatever else was reported: exit
/// 28 (`--max-time` exceeded) is always TMOUT, exit 56 (connection reset) is
/// always RESET, exit 7 (connection refused) is always RFUSD, for every HTTP
/// code, elapsed time and thresholds.
pub proof fn lemma_curl_failures_decide(
    http_code: u16,
    elapsed: u64,
    slow: u64,
    crawl: u64,
    stall: u64,
)
    ensures
        classify_spec(28, http_code, elapsed, slow, crawl, stall) == Status::Tmout,
        classify_spec(56, http_code, elapsed, slow, crawl, stall) == Status::Reset,
        classify_spec(7, http_code, elapsed, slow, crawl, stall) == Status::Rfusd,
{
}

/// An HTTP error is reported with its own code: after a clean curl exit, any
/// HTTP code other than 200 gives H{code}, and any other failed exit with no
/// HTTP code gives ERR{exit}; the elapsed time never matters for them.
pub proof fn lemma_errors_keep_their_code(
    exit_code: i32,
    http_code: u16,
    elapsed: u64,
    slow: u64,
    crawl: u64,
    stall: u64,
)
    ensures
        http_code != 200 && http_code != 0 && exit_code != 28 && exit_code != 56 && exit_code != 7
            ==> classify_spec(exit_code, http_code, elapsed, slow, crawl, stall) == Status::HttpErr(
            http_code,
        ),
        exit_code == 0 && http_code == 0 ==> classify_spec(
            exit_code,
            http_code,
            elapsed,
            slow,
            crawl,
            stall,
        ) == Status::HttpErr(0),
        exit_code != 0 && exit_code != 28 && exit_code != 56 && exit_code != 7 && (http_code == 0
            || http_code == 200) ==> classify_spec(exit_code, http_code, elapsed, slow, crawl, stall)
            == Status::CurlErr(exit_code),
{
}

} // verus!
