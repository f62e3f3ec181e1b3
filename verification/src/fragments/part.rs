//! Multipart delimiters (RFC 2046 5.1.1): boundary lines and the preamble
//! that precedes the first of them.
use vstd::prelude::*;
use crate::text::run::{ByteClass, in_class, run_end, take_run, lemma_run_end};
use crate::text::tag::{spec_tag, tag};
use crate::text::whitespace::{spec_perm_crlf, perm_crlf};

verus! {

/// Which delimiter a boundary line is: between two parts, or after the last.
#[derive(Debug, PartialEq, Eq, Clone, Copy)]
pub enum Delimiter {
    Next,
    Last,
}

/// A boundary line at `i`: a line break, `--`, the boundary, `--` for the
/// last one, and a line break. The end of the line and which delimiter it is.
pub open spec fn spec_boundary(b: Seq<u8>, s: Seq<u8>, i: int) -> Option<(int, Delimiter)> {
    match spec_perm_crlf(s, i) {
        Some(a) => match spec_tag(s, a, seq![0x2Du8, 0x2Du8]) {
            Some(c) => match spec_tag(s, c, b) {
                Some(d) => {
                    let (e, last) = match spec_tag(s, d, seq![0x2Du8, 0x2Du8]) {
                        Some(e) => (e, true),
                        None => (d, false),
                    };
                    match spec_perm_crlf(s, e) {
                        Some(f) => Some((
                            f,
                            if last {
                                Delimiter::Last
                            } else {
                                Delimiter::Next
                            },
                        )),
                        None => None,
                    }
                },
                None => None,
            },
            None => None,
        },
        None => None,
    }
}

/// The line breaks from `i` on that start no boundary line: their end.
pub open spec fn spec_line_breaks(b: Seq<u8>, s: Seq<u8>, i: int) -> int
    decreases s.len() - i,
{
    if 0 <= i <= s.len() && spec_boundary(b, s, i) is None {
        match spec_perm_crlf(s, i) {
            Some(j) => if i < j <= s.len() {
                spec_line_breaks(b, s, j)
            } else {
                i
            },
            None => i,
        }
    } else {
        i
    }
}

/// The preamble from `i`: lines of text, each followed by the line breaks
/// that start no boundary line. Its end, where a line break starts the
/// first boundary line (or the text ends).
pub open spec fn spec_preamble(b: Seq<u8>, s: Seq<u8>, i: int) -> int
    decreases s.len() - i,
{
    if 0 <= i <= s.len() {
        let e = run_end(s, i, ByteClass::Line);
        let f = spec_line_breaks(b, s, e);
        if i < e && e <= f <= s.len() {
            spec_preamble(b, s, f)
        } else {
            i
        }
    } else {
        i
    }
}

proof fn lemma_line_breaks(b: Seq<u8>, s: Seq<u8>, i: int)
    requires
        0 <= i <= s.len(),
    ensures
        i <= spec_line_breaks(b, s, i) <= s.len(),
        forall|k: int| i <= k < spec_line_breaks(b, s, i) ==> #[trigger] spec_boundary(b, s, k) is None,
        spec_boundary(b, s, spec_line_breaks(b, s, i)) is Some || spec_perm_crlf(
            s,
            spec_line_breaks(b, s, i),
        ) is None,
    decreases s.len() - i,
{
    if spec_boundary(b, s, i) is None {
        if let Some(j) = spec_perm_crlf(s, i) {
            lemma_line_breaks(b, s, j);
            if j == i + 2 {
                assert(spec_perm_crlf(s, i + 1) == Some(j));
                assert(spec_boundary(b, s, i + 1) == spec_boundary(b, s, i));
            }
            let f = spec_line_breaks(b, s, i);
            assert forall|k: int| i <= k < f implies #[trigger] spec_boundary(b, s, k) is None by {
                if k >= j {
                } else if k == i {
                } else {
                    assert(k == i + 1 && j == i + 2);
                }
            }
        }
    }
}

/// The preamble reaches up to the first boundary line and no further: no
/// boundary line starts inside it, and it ends at the end of the input, at
/// its start (an input that starts with a line break has no preamble), or
/// where a boundary line starts.
pub proof fn law_preamble_stops_at_first_boundary(b: Seq<u8>, s: Seq<u8>, i: int)
    requires
        0 <= i <= s.len(),
    ensures
        i <= spec_preamble(b, s, i) <= s.len(),
        forall|k: int| i <= k < spec_preamble(b, s, i) ==> #[trigger] spec_boundary(b, s, k) is None,
        spec_preamble(b, s, i) == s.len() || spec_preamble(b, s, i) == i || spec_boundary(
            b,
            s,
            spec_preamble(b, s, i),
        ) is Some,
    decreases s.len() - i,
{
    let e = run_end(s, i, ByteClass::Line);
    lemma_run_end(s, i, ByteClass::Line);
    lemma_line_breaks(b, s, e);
    let f = spec_line_breaks(b, s, e);
    if i < e {
        law_preamble_stops_at_first_boundary(b, s, f);
        let r = spec_preamble(b, s, i);
        assert(r == spec_preamble(b, s, f));
        assert forall|k: int| i <= k < r implies #[trigger] spec_boundary(b, s, k) is None by {
            if k < e {
                assert(in_class(ByteClass::Line, s[k]));
                assert(spec_perm_crlf(s, k) is None);
            }
        }
        if r == f && f < s.len() {
            let e2 = run_end(s, f, ByteClass::Line);
            lemma_run_end(s, f, ByteClass::Line);
            lemma_line_breaks(b, s, e2);
            if f < e2 {
                law_preamble_stops_at_first_boundary(b, s, spec_line_breaks(b, s, e2));
                assert(false);
            }
            assert(!in_class(ByteClass::Line, s[f]));
        }
    }
}

/// A boundary line at `i`: its end and which delimiter it is.
pub fn boundary(bound: &[u8], s: &[u8], i: usize) -> (r: Option<(usize, Delimiter)>)
    ensures
        match r {
            Some((j, d)) => spec_boundary(bound@, s@, i as int) == Some((j as int, d)),
            None => spec_boundary(bound@, s@, i as int) is None,
        },
{
    let dashes: [u8; 2] = [0x2D, 0x2D];
    assert(dashes@ =~= seq![0x2Du8, 0x2Du8]);
    let a = match perm_crlf(s, i) {
        Some(a) => a,
        None => return None,
    };
    let c = match tag(s, a, dashes.as_slice()) {
        Some(c) => c,
        None => return None,
    };
    let d = match tag(s, c, bound) {
        Some(d) => d,
        None => return None,
    };
    let (e, last) = match tag(s, d, dashes.as_slice()) {
        Some(e) => (e, true),
        None => (d, false),
    };
    match perm_crlf(s, e) {
        Some(f) => Some((
            f,
            if last {
                Delimiter::Last
            } else {
                Delimiter::Next
            },
        )),
        None => None,
    }
}

fn line_breaks(bound: &[u8], s: &[u8], i: usize) -> (r: usize)
    requires
        i <= s.len(),
    ensures
        r == spec_line_breaks(bound@, s@, i as int),
        i <= r <= s.len(),
{
    let mut j = i;
    loop
        invariant
            i <= j <= s.len(),
            spec_line_breaks(bound@, s@, j as int) == spec_line_breaks(bound@, s@, i as int),
        decreases s.len() - j,
    {
        if boundary(bound, s, j).is_some() {
            return j;
        }
        match perm_crlf(s, j) {
            Some(k) => {
                j = k;
            },
            None => {
                return j;
            },
        }
    }
}

/// The preamble of a multipart body from `i`: the end of the text before
/// the line break that starts the first boundary line.
pub fn preamble(bound: &[u8], s: &[u8], i: usize) -> (r: usize)
    requires
        i <= s.len(),
    ensures
        r == spec_preamble(bound@, s@, i as int),
        i <= r <= s.len(),
{
    let mut j = i;
    loop
        invariant
            i <= j <= s.len(),
            spec_preamble(bound@, s@, j as int) == spec_preamble(bound@, s@, i as int),
        decreases s.len() - j,
    {
        let e = take_run(s, j, ByteClass::Line);
        if e == j {
            return j;
        }
        let f = line_breaks(bound, s, e);
        j = f;
    }
}

} // verus!
