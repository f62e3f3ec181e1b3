//! Maximal runs of bytes of one character class.
use vstd::prelude::*;
use crate::text::chars::{alnum_cp, atext_code, atext_cp, bchar_code, bchar_cp, dtext_code, dtext_cp, ftext_code, ftext_cp, in_range, invalid_msgid_text_code, invalid_msgid_text_cp, non_ascii, obs_no_ws_ctl_code, qtext_code, qtext_cp, safe_char2_code, safe_char2_cp, token_text_code, token_text_cp, unstructured_cp, vchar_code, vchar_cp};

verus! {

/// The byte classes that the grammar takes runs of.
#[derive(Clone, Copy, PartialEq, Eq, Debug)]
pub enum ByteClass {
    Atext,
    Token,
    Qtext,
    Dtext,
    Vchar,
    Ftext,
    Digit,
    Alnum,
    InvalidMsgId,
    Unstructured,
    SafeChar2,
    Bchar,
    /// The signs `+` and `-`.
    Sign,
    /// Any byte but CR and LF.
    Line,
}

/// Membership of a byte in a class; bytes `>= 0x80` belong to the classes
/// that admit UTF-8 text (RFC 6532).
pub open spec fn in_class(c: ByteClass, b: u8) -> bool {
    let x = b as u32;
    match c {
        ByteClass::Atext => atext_cp(x),
        ByteClass::Token => token_text_cp(x),
        ByteClass::Qtext => qtext_cp(x) || non_ascii(x),
        ByteClass::Dtext => dtext_cp(x),
        ByteClass::Vchar => vchar_cp(x),
        ByteClass::Ftext => ftext_cp(x),
        ByteClass::Digit => in_range(x, 0x30, 0x39),
        ByteClass::Alnum => alnum_cp(x),
        ByteClass::InvalidMsgId => invalid_msgid_text_cp(x),
        ByteClass::Unstructured => unstructured_cp(x) && x != 0x0D && x != 0x0A,
        ByteClass::SafeChar2 => safe_char2_cp(x),
        ByteClass::Bchar => bchar_cp(x),
        ByteClass::Sign => x == 0x2B || x == 0x2D,
        ByteClass::Line => x != 0x0D && x != 0x0A,
    }
}

pub fn class_has(c: ByteClass, b: u8) -> (r: bool)
    ensures
        r == in_class(c, b),
{
    let x = b as u32;
    match c {
        ByteClass::Atext => atext_code(x),
        ByteClass::Token => token_text_code(x),
        ByteClass::Qtext => qtext_code(x) || x >= 0x80,
        ByteClass::Dtext => dtext_code(x),
        ByteClass::Vchar => vchar_code(x),
        ByteClass::Ftext => ftext_code(x),
        ByteClass::Digit => 0x30 <= x && x <= 0x39,
        ByteClass::Alnum => (0x30 <= x && x <= 0x39) || (0x41 <= x && x <= 0x5A) || (0x61 <= x
            && x <= 0x7A),
        ByteClass::InvalidMsgId => invalid_msgid_text_code(x),
        ByteClass::Unstructured => (vchar_code(x) || obs_no_ws_ctl_code(x) || x == 0) && x != 0x0D
            && x != 0x0A,
        ByteClass::SafeChar2 => safe_char2_code(x),
        ByteClass::Bchar => bchar_code(x),
        ByteClass::Sign => x == 0x2B || x == 0x2D,
        ByteClass::Line => x != 0x0D && x != 0x0A,
    }
}

/// End of the maximal run of bytes of class `c` starting at `i`.
pub open spec fn run_end(s: Seq<u8>, i: int, c: ByteClass) -> int
    decreases s.len() - i,
{
    if 0 <= i < s.len() && in_class(c, s[i]) {
        run_end(s, i + 1, c)
    } else {
        i
    }
}

/// A run of at least one byte of class `c`: its end.
pub open spec fn run1(s: Seq<u8>, i: int, c: ByteClass) -> Option<int> {
    let e = run_end(s, i, c);
    if e > i {
        Some(e)
    } else {
        None
    }
}

pub proof fn lemma_run_end(s: Seq<u8>, i: int, c: ByteClass)
    requires
        0 <= i <= s.len(),
    ensures
        i <= run_end(s, i, c) <= s.len(),
        forall|k: int| i <= k < run_end(s, i, c) ==> in_class(c, #[trigger] s[k]),
        run_end(s, i, c) < s.len() ==> !in_class(c, s[run_end(s, i, c)]),
    decreases s.len() - i,
{
    if i < s.len() && in_class(c, s[i]) {
        lemma_run_end(s, i + 1, c);
    }
}

/// A run of class `c` from `a` that stops at `b` ends at `b`.
pub proof fn lemma_run_end_exact(s: Seq<u8>, a: int, b: int, c: ByteClass)
    requires
        0 <= a <= b <= s.len(),
        forall|x: int| a <= x < b ==> in_class(c, #[trigger] s[x]),
        b == s.len() || !in_class(c, s[b]),
    ensures
        run_end(s, a, c) == b,
    decreases b - a,
{
    if a < b {
        lemma_run_end_exact(s, a + 1, b, c);
    }
}

pub fn take_run(s: &[u8], i: usize, c: ByteClass) -> (r: usize)
    requires
        i <= s.len(),
    ensures
        r == run_end(s@, i as int, c),
        i <= r <= s.len(),
{
    let mut j = i;
    while j < s.len() && class_has(c, s[j])
        invariant
            i <= j <= s.len(),
            run_end(s@, j as int, c) == run_end(s@, i as int, c),
        decreases s.len() - j,
    {
        j += 1;
    }
    j
}

pub fn take_run1(s: &[u8], i: usize, c: ByteClass) -> (r: Option<usize>)
    requires
        i <= s.len(),
    ensures
        crate::text::whitespace::opt_int(r) == run1(s@, i as int, c),
        r matches Some(e) ==> i < e <= s.len(),
{
    let e = take_run(s, i, c);
    if e > i {
        Some(e)
    } else {
        None
    }
}

/// A run of at least one byte of class `c` at any position `i`: its end.
pub fn run1_at(s: &[u8], i: usize, c: ByteClass) -> (r: Option<usize>)
    ensures
        crate::text::whitespace::opt_int(r) == run1(s@, i as int, c),
        r matches Some(e) ==> i < e <= s.len(),
{
    if i > s.len() {
        return None;
    }
    take_run1(s, i, c)
}

} // verus!
