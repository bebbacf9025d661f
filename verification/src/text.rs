//! Case-insensitive text matching for the catalog filter.
//!
//! Filtering contract types by shop category compares the uppercased
//! category against the uppercased filter; uppercasing is delegated to the
//! standard library, the substring search itself is verified.

use vstd::prelude::*;
use vstd::string::StrSliceExecFns;

verus! {

/// The uppercase form of a text, as the standard library's case mapping
/// produces it: a function of the characters alone.
pub uninterp spec fn upper_of(s: Seq<char>) -> Seq<char>;

/// Relies on str::to_uppercase: the result depends on the characters alone.
#[verifier::external_body]
pub(crate) fn to_upper(s: &str) -> (r: String)
    ensures
        r@ == upper_of(s@),
{
    s.to_uppercase()
}

/// `needle` occurs contiguously somewhere in `haystack` (anywhere for an
/// empty needle).
pub open spec fn contains_sub(haystack: Seq<char>, needle: Seq<char>) -> bool {
    exists|i: int|
        0 <= i <= haystack.len() - needle.len() && #[trigger] haystack.subrange(
            i,
            i + needle.len(),
        ) == needle
}

/// Substring search, character by character.
pub fn contains_str(haystack: &str, needle: &str) -> (r: bool)
    ensures
        r == contains_sub(haystack@, needle@),
{
    let hl: usize = haystack.unicode_len();
    let nl: usize = needle.unicode_len();
    if nl > hl {
        return false;
    }
    if nl == 0 {
        proof {
            assert(haystack@.subrange(0, 0 + needle@.len() as int) =~= needle@);
        }
        return true;
    }
    let mut i: usize = 0;
    while i <= hl - nl
        invariant
            1 <= nl <= hl,
            hl == haystack@.len(),
            nl == needle@.len(),
            i <= hl - nl + 1,
            forall|p: int|
                0 <= p < i ==> #[trigger] haystack@.subrange(p, p + needle@.len()) != needle@,
        decreases hl - nl + 1 - i,
    {
        let mut j: usize = 0;
        let mut mismatch: bool = false;
        while j < nl
            invariant
                nl <= hl,
                hl == haystack@.len(),
                nl == needle@.len(),
                i + nl <= hl,
                j <= nl,
                !mismatch ==> forall|q: int| 0 <= q < j ==> haystack@[i + q] == needle@[q],
                mismatch ==> haystack@.subrange(i as int, i + needle@.len()) != needle@,
            decreases nl - j,
        {
            if haystack.get_char(i + j) != needle.get_char(j) {
                proof {
                    assert(haystack@.subrange(i as int, i + needle@.len())[j as int] == haystack@[i
                        + j]);
                }
                mismatch = true;
                j = nl;
            } else {
                j = j + 1;
            }
        }
        if !mismatch {
            proof {
                assert(haystack@.subrange(i as int, i + needle@.len()) =~= needle@);
            }
            return true;
        }
        i = i + 1;
    }
    proof {
        assert forall|p: int|
            0 <= p <= haystack@.len() - needle@.len() implies #[trigger] haystack@.subrange(
            p,
            p + needle@.len(),
        ) != needle@ by {
            assert(p < i);
        }
    }
    false
}

} // verus!
