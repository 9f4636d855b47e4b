//! Extraction of Wasabi's `x-wasabi-cm-reference-id` response header, which
//! identifies a request for server-side correlation.
use vstd::prelude::*;

use crate::text::{
    ascii_lower, chars_of, lines, split_lines, string_of, to_ascii_lower, trim, trim_range,
};

verus! {

/// The header name and its colon, in lower case.
pub open spec fn ref_key() -> Seq<char> {
    "x-wasabi-cm-reference-id:"@
}

/// A header line that carries the reference id: it starts with the header
/// name and colon, in any ASCII letter case.
pub open spec fn is_ref_line(l: Seq<char>) -> bool {
    &&& l.len() >= ref_key().len()
    &&& forall|i: int| 0 <= i < ref_key().len() ==> ascii_lower(#[trigger] l[i]) == ref_key()[i]
}

/// The value of the first reference-id line among `ls`, trimmed.
pub open spec fn find_ref(ls: Seq<Seq<char>>) -> Option<Seq<char>>
    decreases ls.len(),
{
    if ls.len() == 0 {
        None
    } else if is_ref_line(ls[0]) {
        Some(trim(ls[0].skip(ref_key().len() as int)))
    } else {
        find_ref(ls.drop_first())
    }
}

/// The reference id in a block of response headers: the trimmed value of the
/// first header line whose name is `x-wasabi-cm-reference-id` (any case).
pub open spec fn cm_ref_id(headers: Seq<char>) -> Option<Seq<char>> {
    find_ref(lines(headers))
}

/// Finds the `x-wasabi-cm-reference-id` value in curl's dump of the response
/// headers.  The exact spellings `x-wasabi-cm-reference-id:` and
/// `X-Wasabi-Cm-Reference-Id:` are among the case variants matched.
pub fn parse_cm_ref_id(headers: &str) -> (r: Option<String>)
    ensures
        r is Some <==> cm_ref_id(headers@) is Some,
        r matches Some(v) ==> v@ == cm_ref_id(headers@)->0,
{
    let text = chars_of(headers);
    let ls = split_lines(text.as_slice());
    let key = chars_of("x-wasabi-cm-reference-id:");
    let ghost all = lines(headers@);
    let mut i: usize = 0;
    assert(all.skip(0) =~= all);
    while i < ls.len()
        invariant
            i <= ls@.len(),
            ls@.len() == all.len(),
            all == lines(headers@),
            key@ == ref_key(),
            forall|j: int| 0 <= j < ls@.len() ==> #[trigger] ls@[j]@ == all[j],
            find_ref(all) == find_ref(all.skip(i as int)),
        decreases ls@.len() - i,
    {
        let line = &ls[i];
        assert(line@ == all[i as int]);
        assert(all.skip(i as int)[0] == all[i as int]);
        assert(all.skip(i as int).drop_first() =~= all.skip(i + 1));
        if line.len() >= key.len() {
            let mut k: usize = 0;
            let mut matched = true;
            while k < key.len()
                invariant
                    k <= key@.len() <= line@.len(),
                    matched ==> forall|j: int| 0 <= j < k ==> ascii_lower(#[trigger] line@[j]) == key@[j],
                    !matched ==> !is_ref_line(line@),
                    key@ == ref_key(),
                decreases key@.len() - k,
            {
                if matched && to_ascii_lower(line[k]) != key[k] {
                    matched = false;
                }
                k = k + 1;
            }
            if matched {
                let v = trim_range(line.as_slice(), key.len(), line.len());
                assert(line@.subrange(key@.len() as int, line@.len() as int) =~= line@.skip(
                    ref_key().len() as int,
                ));
                return Some(string_of(v.as_slice()));
            }
        }
        i = i + 1;
    }
    None
}

} // verus!
