//! Literal tags, case-sensitive or not.
use vstd::prelude::*;
use crate::text::ascii::{lower, lower_byte, to_lower};

verus! {

/// `lit` occurs at `i`, ignoring ASCII case: the end of the occurrence.
pub open spec fn spec_tag_no_case(s: Seq<u8>, i: int, lit: Seq<u8>) -> Option<int> {
    if 0 <= i && i + lit.len() <= s.len() && lower(s.subrange(i, i + lit.len())) == lower(lit) {
        Some(i + lit.len())
    } else {
        None
    }
}

/// A single byte `b` occurs at `i`.
pub open spec fn spec_byte(s: Seq<u8>, i: int, b: u8) -> Option<int> {
    if 0 <= i < s.len() && s[i] == b {
        Some(i + 1)
    } else {
        None
    }
}

pub fn tag_no_case(s: &[u8], i: usize, lit: &[u8]) -> (r: Option<usize>)
    ensures
        crate::text::whitespace::opt_int(r) == spec_tag_no_case(s@, i as int, lit@),
{
    if i > s.len() || lit.len() > s.len() - i {
        return None;
    }
    let mut j: usize = 0;
    while j < lit.len()
        invariant
            j <= lit.len(),
            i + lit.len() <= s.len(),
            forall|k: int| 0 <= k < j ==> lower_byte(s@[i + k]) == lower_byte(lit@[k]),
        decreases lit.len() - j,
    {
        if to_lower(s[i + j]) != to_lower(lit[j]) {
            proof {
                assert(lower(s@.subrange(i as int, i + lit.len()))[j as int] != lower(lit@)[j as int]);
            }
            return None;
        }
        j += 1;
    }
    assert(lower(s@.subrange(i as int, i + lit.len())) =~= lower(lit@));
    Some(i + lit.len())
}

pub fn byte(s: &[u8], i: usize, b: u8) -> (r: Option<usize>)
    ensures
        crate::text::whitespace::opt_int(r) == spec_byte(s@, i as int, b),
{
    if i < s.len() && s[i] == b {
        Some(i + 1)
    } else {
        None
    }
}

/// `lit` occurs at `i`, byte for byte: the end of the occurrence.
pub open spec fn spec_tag(s: Seq<u8>, i: int, lit: Seq<u8>) -> Option<int> {
    if 0 <= i && i + lit.len() <= s.len() && s.subrange(i, i + lit.len()) == lit {
        Some(i + lit.len())
    } else {
        None
    }
}

pub fn tag(s: &[u8], i: usize, lit: &[u8]) -> (r: Option<usize>)
    ensures
        crate::text::whitespace::opt_int(r) == spec_tag(s@, i as int, lit@),
{
    if i > s.len() || lit.len() > s.len() - i {
        return None;
    }
    let mut j: usize = 0;
    while j < lit.len()
        invariant
            j <= lit.len(),
            i + lit.len() <= s.len(),
            forall|k: int| 0 <= k < j ==> s@[i + k] == lit@[k],
        decreases lit.len() - j,
    {
        if s[i + j] != lit[j] {
            proof {
                assert(s@.subrange(i as int, i + lit.len())[j as int] != lit@[j as int]);
            }
            return None;
        }
        j += 1;
    }
    assert(s@.subrange(i as int, i + lit.len()) =~= lit@);
    Some(i + lit.len())
}

} // verus!
