//! ASCII byte constants used throughout the grammar.
use vstd::prelude::*;

verus! {

pub const NULL: u8 = 0x00;
pub const HT: u8 = 0x09;
pub const LF: u8 = 0x0A;
pub const CR: u8 = 0x0D;
pub const SP: u8 = 0x20;
pub const DQUOTE: u8 = 0x22;
pub const LEFT_PAR: u8 = 0x28;
pub const RIGHT_PAR: u8 = 0x29;
pub const COMMA: u8 = 0x2C;
pub const MINUS: u8 = 0x2D;
pub const PERIOD: u8 = 0x2E;
pub const SLASH: u8 = 0x2F;
pub const COL: u8 = 0x3A;
pub const SEM_COL: u8 = 0x3B;
pub const LT: u8 = 0x3C;
pub const EQ: u8 = 0x3D;
pub const GT: u8 = 0x3E;
pub const QUESTION: u8 = 0x3F;
pub const AT: u8 = 0x40;
pub const LEFT_BRACKET: u8 = 0x5B;
pub const BACKSLASH: u8 = 0x5C;
pub const RIGHT_BRACKET: u8 = 0x5D;
pub const UNDERSCORE: u8 = 0x5F;
pub const PLUS: u8 = 0x2B;

/// Whitespace bytes (WSP): space and horizontal tab.
pub open spec fn is_wsp(b: u8) -> bool {
    b == SP || b == HT
}

/// Executable test for a WSP byte.
pub fn is_ws(b: u8) -> (r: bool)
    ensures
        r == is_wsp(b),
{
    b == SP || b == HT
}

/// ASCII lower-casing of a single byte.
pub open spec fn lower_byte(b: u8) -> u8 {
    if 0x41 <= b <= 0x5A {
        (b + 0x20) as u8
    } else {
        b
    }
}

/// ASCII lower-casing of a byte string.
pub open spec fn lower(s: Seq<u8>) -> Seq<u8> {
    s.map_values(|b: u8| lower_byte(b))
}

/// Executable ASCII lower-casing of a byte.
pub fn to_lower(b: u8) -> (r: u8)
    ensures
        r == lower_byte(b),
{
    if 0x41 <= b && b <= 0x5A {
        b + 0x20
    } else {
        b
    }
}

/// Returns a lower-cased copy of `s` (like `<[u8]>::to_ascii_lowercase`).
pub fn to_ascii_lowercase(s: &[u8]) -> (r: Vec<u8>)
    ensures
        r@ == lower(s@),
{
    let mut r: Vec<u8> = Vec::new();
    let mut i: usize = 0;
    while i < s.len()
        invariant
            i <= s.len(),
            r@ == lower(s@.subrange(0, i as int)),
        decreases s.len() - i,
    {
        r.push(to_lower(s[i]));
        i += 1;
        assert(lower(s@.subrange(0, i as int)) =~= lower(s@.subrange(0, (i - 1) as int)).push(
            lower_byte(s@[i - 1]),
        ));
    }
    assert(s@.subrange(0, s.len() as int) =~= s@);
    r
}

/// Executable case-insensitive equality against an already lower-case literal.
pub fn equals_lower(s: &[u8], lit: &[u8]) -> (r: bool)
    ensures
        r == (lower(s@) == lit@),
{
    if s.len() != lit.len() {
        proof {
            assert(lower(s@).len() == s@.len());
        }
        return false;
    }
    let mut i: usize = 0;
    while i < s.len()
        invariant
            i <= s.len(),
            s.len() == lit.len(),
            forall|j: int| 0 <= j < i ==> lower_byte(s@[j]) == lit@[j],
        decreases s.len() - i,
    {
        if to_lower(s[i]) != lit[i] {
            proof {
                assert(lower(s@)[i as int] != lit@[i as int]);
            }
            return false;
        }
        i += 1;
    }
    assert(lower(s@) =~= lit@);
    true
}

/// Byte-wise equality of two byte strings.
pub fn bytes_eq(a: &[u8], b: &[u8]) -> (r: bool)
    ensures
        r == (a@ == b@),
{
    if a.len() != b.len() {
        return false;
    }
    let mut i: usize = 0;
    while i < a.len()
        invariant
            i <= a.len(),
            a.len() == b.len(),
            forall|j: int| 0 <= j < i ==> a@[j] == b@[j],
        decreases a.len() - i,
    {
        if a[i] != b[i] {
            return false;
        }
        i += 1;
    }
    assert(a@ =~= b@);
    true
}

/// Copies a slice of bytes into a fresh vector.
pub fn bytes_to_vec(s: &[u8]) -> (r: Vec<u8>)
    ensures
        r@ == s@,
{
    let mut r: Vec<u8> = Vec::new();
    let mut i: usize = 0;
    while i < s.len()
        invariant
            i <= s.len(),
            r@ == s@.subrange(0, i as int),
        decreases s.len() - i,
    {
        r.push(s[i]);
        i += 1;
        assert(r@ =~= s@.subrange(0, i as int));
    }
    assert(s@.subrange(0, s.len() as int) =~= s@);
    r
}

/// Copies `s[start..end]` into a fresh vector.
pub fn sub_to_vec(s: &[u8], start: usize, end: usize) -> (r: Vec<u8>)
    requires
        start <= end <= s.len(),
    ensures
        r@ == s@.subrange(start as int, end as int),
{
    let mut r: Vec<u8> = Vec::new();
    let mut i: usize = start;
    while i < end
        invariant
            start <= i <= end <= s.len(),
            r@ == s@.subrange(start as int, i as int),
        decreases end - i,
    {
        r.push(s[i]);
        i += 1;
        assert(r@ =~= s@.subrange(start as int, i as int));
    }
    r
}

/// Appends all bytes of `src` to `dst`.
pub fn extend_bytes(dst: &mut Vec<u8>, src: &[u8])
    ensures
        final(dst)@ == old(dst)@ + src@,
{
    let mut i: usize = 0;
    let ghost d0 = dst@;
    while i < src.len()
        invariant
            i <= src.len(),
            dst@ == d0 + src@.subrange(0, i as int),
        decreases src.len() - i,
    {
        dst.push(src[i]);
        i += 1;
        assert(dst@ =~= d0 + src@.subrange(0, i as int));
    }
    assert(src@.subrange(0, src.len() as int) =~= src@);
}


/// Lower-casing twice is lower-casing once.
pub proof fn lemma_lower_idempotent(s: Seq<u8>)
    ensures
        lower(lower(s)) == lower(s),
{
    assert(lower(lower(s)) =~= lower(s));
}

} // verus!
