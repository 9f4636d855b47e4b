//! Reading curl's version from `curl --version`, and the version the tool
//! needs (7.75, the first with `--aws-sigv4`).
use vstd::prelude::*;

use crate::text::{
    chars_of, is_whitespace, lines, parse_unsigned, parse_unsigned_chars, push_chars, split_lines,
    string_from, whitespace,
};

verus! {

/// The index of the first whitespace character of `s`, or `s.len()`.
pub open spec fn first_ws(s: Seq<char>) -> nat
    decreases s.len(),
{
    if s.len() == 0 || is_whitespace(s[0]) {
        0
    } else {
        1 + first_ws(s.drop_first())
    }
}

/// The whitespace-separated words of `s`, as `str::split_whitespace` yields
/// them (no empty words).
pub open spec fn words(s: Seq<char>) -> Seq<Seq<char>>
    decreases s.len(),
{
    if s.len() == 0 {
        seq![]
    } else if is_whitespace(s[0]) {
        words(s.drop_first())
    } else {
        // `s[0]` is not whitespace, so the first word is never empty; the
        // bound only tells the termination check so.
        let k = first_ws(s);
        if 0 < k <= s.len() {
            seq![s.take(k as int)] + words(s.skip(k as int))
        } else {
            seq![s]
        }
    }
}

/// The index of the first `c` in `s`, or `s.len()`.
pub open spec fn first_of(s: Seq<char>, c: char) -> nat
    decreases s.len(),
{
    if s.len() == 0 || s[0] == c {
        0
    } else {
        1 + first_of(s.drop_first(), c)
    }
}

/// A word read as `MAJOR.MINOR[.…]`: the word holds a `.`, and the pieces
/// before the first `.` and between the first and the second (or the end)
/// both read as `u32`.
pub open spec fn version_of_word(w: Seq<char>) -> Option<(nat, nat)> {
    let i = first_of(w, '.');
    if i >= w.len() {
        None
    } else {
        let rest = w.skip(i as int + 1);
        let j = first_of(rest, '.');
        match (parse_unsigned(w.take(i as int), 0xffff_ffff), parse_unsigned(rest.take(j as int), 0xffff_ffff)) {
            (Some(major), Some(minor)) => Some((major, minor)),
            _ => None,
        }
    }
}

/// The version given by the first word that reads as one.
pub open spec fn find_version(ws: Seq<Seq<char>>) -> Option<(nat, nat)>
    decreases ws.len(),
{
    if ws.len() == 0 {
        None
    } else if version_of_word(ws[0]) is Some {
        version_of_word(ws[0])
    } else {
        find_version(ws.drop_first())
    }
}

/// The first line of `text`, or nothing.
pub open spec fn first_line(text: Seq<char>) -> Seq<char> {
    if lines(text).len() > 0 {
        lines(text)[0]
    } else {
        seq![]
    }
}

/// The message given when no version can be read.
pub open spec fn version_error(text: Seq<char>) -> Seq<char> {
    "Could not parse curl version from: "@ + first_line(text)
}

proof fn lemma_first_ws_at(s: Seq<char>, k: int)
    requires
        0 <= k <= s.len(),
        forall|j: int| 0 <= j < k ==> !is_whitespace(#[trigger] s[j]),
        k < s.len() ==> is_whitespace(s[k]),
    ensures
        first_ws(s) == k,
    decreases s.len(),
{
    if s.len() > 0 && k > 0 {
        assert(!is_whitespace(s[0]));
        assert forall|j: int| 0 <= j < k - 1 implies !is_whitespace(#[trigger] s.drop_first()[j]) by {
            assert(s.drop_first()[j] == s[j + 1]);
        }
        lemma_first_ws_at(s.drop_first(), k - 1);
    }
}

proof fn lemma_first_of_at(s: Seq<char>, c: char, k: int)
    requires
        0 <= k <= s.len(),
        forall|j: int| 0 <= j < k ==> #[trigger] s[j] != c,
        k < s.len() ==> s[k] == c,
    ensures
        first_of(s, c) == k,
    decreases s.len(),
{
    if s.len() > 0 && k > 0 {
        assert(s[0] != c);
        assert forall|j: int| 0 <= j < k - 1 implies #[trigger] s.drop_first()[j] != c by {
            assert(s.drop_first()[j] == s[j + 1]);
        }
        lemma_first_of_at(s.drop_first(), c, k - 1);
    }
}

/// The index of the first `c` in `s[lo..hi]`, or `hi`.
fn find_char(s: &[char], lo: usize, hi: usize, c: char) -> (k: usize)
    requires
        lo <= hi <= s.len(),
    ensures
        lo <= k <= hi,
        k - lo == first_of(s@.subrange(lo as int, hi as int), c),
{
    let mut k = lo;
    while k < hi && s[k] != c
        invariant
            lo <= k <= hi <= s.len(),
            forall|j: int| lo <= j < k ==> #[trigger] s@[j] != c,
        decreases hi - k,
    {
        k = k + 1;
    }
    proof {
        let t = s@.subrange(lo as int, hi as int);
        assert forall|j: int| 0 <= j < k - lo implies #[trigger] t[j] != c by {
            assert(t[j] == s@[lo + j]);
        }
        lemma_first_of_at(t, c, k - lo);
    }
    k
}

/// Reads `s[lo..hi]` as `MAJOR.MINOR[.…]`.
fn word_version(s: &[char], lo: usize, hi: usize) -> (r: Option<(u32, u32)>)
    requires
        lo <= hi <= s.len(),
    ensures
        match version_of_word(s@.subrange(lo as int, hi as int)) {
            Some((major, minor)) => r == Some((major as u32, minor as u32)),
            None => r is None,
        },
{
    let ghost w = s@.subrange(lo as int, hi as int);
    let i = find_char(s, lo, hi, '.');
    if i >= hi {
        return None;
    }
    let j = find_char(s, i + 1, hi, '.');
    assert(w.skip(i - lo + 1) =~= s@.subrange(i + 1, hi as int));
    assert(w.take(i - lo) =~= s@.subrange(lo as int, i as int));
    assert(w.skip(i - lo + 1).take(j - (i + 1)) =~= s@.subrange(i + 1, j as int));
    let major = parse_unsigned_chars(slice_range(s, lo, i).as_slice(), 0xffff_ffff);
    let minor = parse_unsigned_chars(slice_range(s, i + 1, j).as_slice(), 0xffff_ffff);
    match (major, minor) {
        (Some(a), Some(b)) => Some((a as u32, b as u32)),
        _ => None,
    }
}

/// A copy of `s[lo..hi]`.
fn slice_range(s: &[char], lo: usize, hi: usize) -> (r: Vec<char>)
    requires
        lo <= hi <= s.len(),
    ensures
        r@ == s@.subrange(lo as int, hi as int),
{
    let mut r: Vec<char> = Vec::new();
    let mut i = lo;
    while i < hi
        invariant
            lo <= i <= hi <= s.len(),
            r@ =~= s@.subrange(lo as int, i as int),
        decreases hi - i,
    {
        r.push(s[i]);
        i = i + 1;
    }
    r
}

/// Reads `(major, minor)` from the output of `curl --version`: the first
/// word of its first line that has the form `MAJOR.MINOR[.…]`.  Fails with a
/// message quoting that line when no word has it.
pub fn parse_version_text(text: &str) -> (r: Result<(u32, u32), String>)
    ensures
        match find_version(words(first_line(text@))) {
            Some((major, minor)) => r == Ok::<(u32, u32), String>((major as u32, minor as u32)),
            None => r matches Err(msg) && msg@ == version_error(text@),
        },
{
    let all = chars_of(text);
    let ls = split_lines(all.as_slice());
    let line: Vec<char> = if ls.len() > 0 {
        let l = slice_range(ls[0].as_slice(), 0, ls[0].len());
        assert(ls[0]@.subrange(0, ls[0]@.len() as int) =~= ls[0]@);
        l
    } else {
        Vec::new()
    };
    let ghost fl = first_line(text@);
    assert(line@ == fl);
    let n = line.len();
    let mut i: usize = 0;
    assert(fl.skip(0) =~= fl);
    while i < n
        invariant
            i <= n == line@.len(),
            line@ == fl,
            fl == first_line(text@),
            find_version(words(fl)) == find_version(words(fl.skip(i as int))),
        decreases n - i,
    {
        let ghost t = fl.skip(i as int);
        if whitespace(line[i]) {
            assert(t[0] == line@[i as int]);
            assert(t.drop_first() =~= fl.skip(i + 1));
            i = i + 1;
        } else {
            let mut k = i;
            while k < n && !whitespace(line[k])
                invariant
                    i <= k <= n == line@.len(),
                    forall|j: int| i <= j < k ==> !is_whitespace(#[trigger] line@[j]),
                decreases n - k,
            {
                k = k + 1;
            }
            proof {
                assert(t[0] == line@[i as int]);
                assert forall|j: int| 0 <= j < k - i implies !is_whitespace(#[trigger] t[j]) by {
                    assert(t[j] == line@[i + j]);
                }
                if k < n {
                    assert(t[k - i] == line@[k as int]);
                }
                lemma_first_ws_at(t, k - i);
                assert(t.take(k - i) =~= line@.subrange(i as int, k as int));
                assert(t.skip(k - i) =~= fl.skip(k as int));
                assert(words(t) == seq![t.take(k - i)] + words(t.skip(k - i)));
                assert((seq![t.take(k - i)] + words(t.skip(k - i)))[0] == t.take(k - i));
                assert((seq![t.take(k - i)] + words(t.skip(k - i))).drop_first() =~= words(
                    t.skip(k - i),
                ));
            }
            match word_version(line.as_slice(), i, k) {
                Some(v) => {
                    proof {
                        let ws = seq![t.take(k - i)] + words(t.skip(k - i));
                        assert(line@.subrange(i as int, k as int) == t.take(k - i));
                        assert(version_of_word(ws[0]) is Some);
                        assert(find_version(ws) == version_of_word(ws[0]));
                    }
                    return Ok(v);
                },
                None => {},
            }
            i = k;
        }
    }
    assert(words(fl.skip(n as int)) =~= seq![]);
    let mut msg = string_from("Could not parse curl version from: ");
    push_chars(&mut msg, line.as_slice());
    Err(msg)
}

/// Whether curl `major.minor` supports `--aws-sigv4`, which came with 7.75.
pub fn supports_sigv4(major: u32, minor: u32) -> (b: bool)
    ensures
        b == (major > 7 || (major == 7 && minor >= 75)),
{
    !(major < 7 || (major == 7 && minor < 75))
}

} // verus!
