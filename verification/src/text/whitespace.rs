//! Whitespace, folding whitespace and comments (RFC 5322 section 3.2.2).
//!
//! Parsers work on a byte buffer and a start position; they return the
//! position right after what they recognized. Each executable parser returns
//! exactly what its spec function of the same grammar rule computes.
use vstd::prelude::*;
use crate::text::ascii::{self, is_wsp};
use crate::text::chars::{ctext_cp, ctext_code};
use crate::text::run::{ByteClass, run1, run1_at};

verus! {

/// Lifts an optional executable position to a mathematical one.
pub open spec fn opt_int(r: Option<usize>) -> Option<int> {
    match r {
        Some(x) => Some(x as int),
        None => None,
    }
}

/// The position reached by an optional rule: its end, or the start when it fails.
pub open spec fn or_pos(r: Option<int>, i: int) -> int {
    match r {
        Some(j) => j,
        None => i,
    }
}

/// Permissive line break: CRLF, or a lone CR, or a lone LF.
pub open spec fn spec_perm_crlf(s: Seq<u8>, i: int) -> Option<int> {
    if 0 <= i && i + 1 < s.len() && s[i] == ascii::CR && s[i + 1] == ascii::LF {
        Some(i + 2)
    } else if 0 <= i < s.len() && (s[i] == ascii::CR || s[i] == ascii::LF) {
        Some(i + 1)
    } else {
        None
    }
}

/// End of the longest run of WSP starting at `i` (`*WSP`).
pub open spec fn spec_space0(s: Seq<u8>, i: int) -> int
    decreases s.len() - i,
{
    if 0 <= i < s.len() && is_wsp(s[i]) {
        spec_space0(s, i + 1)
    } else {
        i
    }
}

/// One folding marker: `*WSP CRLF 1*WSP`.
pub open spec fn spec_fold_marker(s: Seq<u8>, i: int) -> Option<int> {
    let a = spec_space0(s, i);
    match spec_perm_crlf(s, a) {
        Some(b) => {
            let c = spec_space0(s, b);
            if c > b {
                Some(c)
            } else {
                None
            }
        },
        None => None,
    }
}

/// End of a maximal sequence of folding markers.
pub open spec fn spec_fold_markers(s: Seq<u8>, i: int) -> int
    decreases s.len() - i,
{
    match spec_fold_marker(s, i) {
        Some(j) => if i < j <= s.len() {
            spec_fold_markers(s, j)
        } else {
            i
        },
        None => i,
    }
}

/// Folding whitespace: `1*fold-marker / 1*WSP` (includes the obsolete syntax).
pub open spec fn spec_fws(s: Seq<u8>, i: int) -> Option<int> {
    let j = spec_fold_markers(s, i);
    if j > i {
        Some(j)
    } else {
        let k = spec_space0(s, i);
        if k > i {
            Some(k)
        } else {
            None
        }
    }
}

pub open spec fn spec_opt_fws(s: Seq<u8>, i: int) -> int {
    or_pos(spec_fws(s, i), i)
}

/// A comment: `"(" *([FWS] ccontent) [FWS] ")"`.
pub open spec fn spec_comment(s: Seq<u8>, i: int) -> Option<int>
    decreases s.len() - i, 0int,
{
    if 0 <= i < s.len() && s[i] == ascii::LEFT_PAR {
        let m = spec_ccontent_seq(s, i + 1);
        let n = spec_opt_fws(s, m);
        if 0 <= n < s.len() && s[n] == ascii::RIGHT_PAR {
            Some(n + 1)
        } else {
            None
        }
    } else {
        None
    }
}

/// `ccontent = ctext / quoted-pair / comment`
pub open spec fn spec_ccontent(s: Seq<u8>, k: int) -> Option<int>
    decreases s.len() - k, 1int,
{
    if 0 <= k < s.len() && ctext_cp(s[k] as u32) {
        Some(k + 1)
    } else if 0 <= k && k + 1 < s.len() && s[k] == ascii::BACKSLASH {
        Some(k + 2)
    } else if 0 <= k <= s.len() {
        spec_comment(s, k)
    } else {
        None
    }
}

/// End of `*([FWS] ccontent)` starting at `i`.
pub open spec fn spec_ccontent_seq(s: Seq<u8>, i: int) -> int
    decreases s.len() - i, 2int,
{
    let k = spec_opt_fws(s, i);
    if i <= k <= s.len() {
        match spec_ccontent(s, k) {
            Some(j) => if i < j <= s.len() {
                spec_ccontent_seq(s, j)
            } else {
                i
            },
            None => i,
        }
    } else {
        i
    }
}

/// End of `*([FWS] comment)` starting at `i`.
pub open spec fn spec_comment_seq(s: Seq<u8>, i: int) -> int
    decreases s.len() - i,
{
    let k = spec_opt_fws(s, i);
    match spec_comment(s, k) {
        Some(j) => if i < j <= s.len() {
            spec_comment_seq(s, j)
        } else {
            i
        },
        None => i,
    }
}

/// `1*([FWS] comment) [FWS]`
pub open spec fn spec_comments(s: Seq<u8>, i: int) -> Option<int> {
    let k = spec_opt_fws(s, i);
    match spec_comment(s, k) {
        Some(j) => Some(spec_opt_fws(s, spec_comment_seq(s, j))),
        None => None,
    }
}

/// `CFWS = (1*([FWS] comment) [FWS]) / FWS`
pub open spec fn spec_cfws(s: Seq<u8>, i: int) -> Option<int> {
    match spec_comments(s, i) {
        Some(j) => Some(j),
        None => spec_fws(s, i),
    }
}

pub open spec fn spec_opt_cfws(s: Seq<u8>, i: int) -> int {
    or_pos(spec_cfws(s, i), i)
}

pub fn perm_crlf(s: &[u8], i: usize) -> (r: Option<usize>)
    ensures
        opt_int(r) == spec_perm_crlf(s@, i as int),
{
    if i < s.len() && i + 1 < s.len() && s[i] == ascii::CR && s[i + 1] == ascii::LF {
        Some(i + 2)
    } else if i < s.len() && (s[i] == ascii::CR || s[i] == ascii::LF) {
        Some(i + 1)
    } else {
        None
    }
}

pub fn space0(s: &[u8], i: usize) -> (r: usize)
    ensures
        r == spec_space0(s@, i as int),
        i <= r,
        i <= s.len() ==> r <= s.len(),
{
    let mut j = i;
    while j < s.len() && ascii::is_ws(s[j])
        invariant
            i <= j,
            i <= s.len() ==> j <= s.len(),
            spec_space0(s@, j as int) == spec_space0(s@, i as int),
        decreases s.len() - j,
    {
        j += 1;
    }
    j
}

pub fn fold_marker(s: &[u8], i: usize) -> (r: Option<usize>)
    ensures
        opt_int(r) == spec_fold_marker(s@, i as int),
{
    let a = space0(s, i);
    match perm_crlf(s, a) {
        Some(b) => {
            let c = space0(s, b);
            if c > b {
                Some(c)
            } else {
                None
            }
        },
        None => None,
    }
}

/// Folding whitespace (obsolete syntax included).
pub fn fws(s: &[u8], i: usize) -> (r: Option<usize>)
    ensures
        opt_int(r) == spec_fws(s@, i as int),
{
    let mut j = i;
    loop
        invariant
            i <= j,
            spec_fold_markers(s@, j as int) == spec_fold_markers(s@, i as int),
        ensures
            i <= j,
            spec_fold_markers(s@, i as int) == j,
        decreases s.len() - j,
    {
        match fold_marker(s, j) {
            Some(k) => {
                if j < k && k <= s.len() {
                    j = k;
                } else {
                    break ;
                }
            },
            None => {
                break ;
            },
        }
    }
    if j > i {
        Some(j)
    } else {
        let k = space0(s, i);
        if k > i {
            Some(k)
        } else {
            None
        }
    }
}

pub fn opt_fws(s: &[u8], i: usize) -> (r: usize)
    ensures
        r == spec_opt_fws(s@, i as int),
{
    match fws(s, i) {
        Some(j) => j,
        None => i,
    }
}

/// Comment, possibly nested.
pub fn comment(s: &[u8], i: usize) -> (r: Option<usize>)
    ensures
        opt_int(r) == spec_comment(s@, i as int),
    decreases s.len() - i, 0int,
{
    if i < s.len() && s[i] == ascii::LEFT_PAR {
        let m = ccontent_seq(s, i + 1);
        let n = opt_fws(s, m);
        if n < s.len() && s[n] == ascii::RIGHT_PAR {
            Some(n + 1)
        } else {
            None
        }
    } else {
        None
    }
}

pub fn ccontent(s: &[u8], k: usize) -> (r: Option<usize>)
    requires
        k <= s.len(),
    ensures
        opt_int(r) == spec_ccontent(s@, k as int),
    decreases s.len() - k, 1int,
{
    if k < s.len() && ctext_code(s[k] as u32) {
        Some(k + 1)
    } else if k < s.len() && k + 1 < s.len() && s[k] == ascii::BACKSLASH {
        Some(k + 2)
    } else {
        comment(s, k)
    }
}

fn ccontent_seq(s: &[u8], i: usize) -> (r: usize)
    ensures
        r == spec_ccontent_seq(s@, i as int),
    decreases s.len() - i, 2int,
{
    let k = opt_fws(s, i);
    if i <= k && k <= s.len() {
        match ccontent(s, k) {
            Some(j) => if i < j && j <= s.len() {
                ccontent_seq(s, j)
            } else {
                i
            },
            None => i,
        }
    } else {
        i
    }
}

fn comment_seq(s: &[u8], i: usize) -> (r: usize)
    ensures
        r == spec_comment_seq(s@, i as int),
{
    let mut j = i;
    loop
        invariant
            i <= j,
            spec_comment_seq(s@, j as int) == spec_comment_seq(s@, i as int),
        decreases s.len() - j,
    {
        let k = opt_fws(s, j);
        match comment(s, k) {
            Some(m) => {
                if j < m && m <= s.len() {
                    j = m;
                } else {
                    return j;
                }
            },
            None => {
                return j;
            },
        }
    }
}

pub fn comments(s: &[u8], i: usize) -> (r: Option<usize>)
    ensures
        opt_int(r) == spec_comments(s@, i as int),
{
    let k = opt_fws(s, i);
    match comment(s, k) {
        Some(j) => Some(opt_fws(s, comment_seq(s, j))),
        None => None,
    }
}

/// Comments and folding whitespace.
pub fn cfws(s: &[u8], i: usize) -> (r: Option<usize>)
    ensures
        opt_int(r) == spec_cfws(s@, i as int),
{
    match comments(s, i) {
        Some(j) => Some(j),
        None => fws(s, i),
    }
}

pub fn opt_cfws(s: &[u8], i: usize) -> (r: usize)
    ensures
        r == spec_opt_cfws(s@, i as int),
{
    match cfws(s, i) {
        Some(j) => j,
        None => i,
    }
}

// ---------------------------------------------------------------- lines

/// Line continuations: `1*(line-break 1*WSP)`, where they end.
pub open spec fn spec_line_breaks(s: Seq<u8>, i: int) -> int
    decreases s.len() - i,
{
    match spec_perm_crlf(s, i) {
        Some(a) => {
            let b = spec_space0(s, a);
            if a < b <= s.len() {
                spec_line_breaks(s, b)
            } else {
                i
            }
        },
        None => i,
    }
}

/// A continuation of a folded line: `1*(line-break 1*WSP) 1*(not CR/LF)`.
pub open spec fn spec_continuation(s: Seq<u8>, i: int) -> Option<int> {
    let b = spec_line_breaks(s, i);
    if b > i {
        run1(s, b, ByteClass::Line)
    } else {
        None
    }
}

/// End of the continuations of a folded line.
pub open spec fn spec_continuations(s: Seq<u8>, i: int) -> int
    decreases s.len() - i,
{
    match spec_continuation(s, i) {
        Some(j) => if i < j <= s.len() {
            spec_continuations(s, j)
        } else {
            i
        },
        None => i,
    }
}

/// A folded line: `1*(not CR/LF) *(1*(line-break 1*WSP) 1*(not CR/LF))
/// line-break`. The end of its content (line break excluded) and the end of
/// the line.
pub open spec fn spec_foldable_line(s: Seq<u8>, i: int) -> Option<(int, int)> {
    match run1(s, i, ByteClass::Line) {
        Some(a) => {
            let e = spec_continuations(s, a);
            match spec_perm_crlf(s, e) {
                Some(f) => Some((e, f)),
                None => None,
            }
        },
        None => None,
    }
}

fn line_breaks(s: &[u8], i: usize) -> (r: usize)
    ensures
        r == spec_line_breaks(s@, i as int),
{
    let mut j = i;
    loop
        invariant
            spec_line_breaks(s@, j as int) == spec_line_breaks(s@, i as int),
        decreases s.len() - j,
    {
        match perm_crlf(s, j) {
            Some(a) => {
                let b = space0(s, a);
                if a < b && b <= s.len() {
                    j = b;
                } else {
                    return j;
                }
            },
            None => {
                return j;
            },
        }
    }
}

fn continuation(s: &[u8], i: usize) -> (r: Option<usize>)
    ensures
        opt_int(r) == spec_continuation(s@, i as int),
{
    let b = line_breaks(s, i);
    if b > i {
        run1_at(s, b, ByteClass::Line)
    } else {
        None
    }
}

/// Recognizes a folded line at `i`: the end of its content and the end of
/// the line.
pub fn foldable_line(s: &[u8], i: usize) -> (r: Option<(usize, usize)>)
    ensures
        match r {
            Some((e, f)) => spec_foldable_line(s@, i as int) == Some((e as int, f as int)) && i
                < e < f <= s.len(),
            None => spec_foldable_line(s@, i as int) is None,
        },
{
    let a = match run1_at(s, i, ByteClass::Line) {
        Some(a) => a,
        None => return None,
    };
    let mut e = a;
    loop
        invariant
            spec_continuations(s@, e as int) == spec_continuations(s@, a as int),
            i < a <= e <= s.len(),
        ensures
            spec_continuations(s@, a as int) == e,
        decreases s.len() - e,
    {
        match continuation(s, e) {
            Some(j) => {
                if e < j && j <= s.len() {
                    e = j;
                } else {
                    break ;
                }
            },
            None => {
                break ;
            },
        }
    }
    match perm_crlf(s, e) {
        Some(f) => Some((e, f)),
        None => None,
    }
}

/// No folding whitespace and no comment starts at a byte that is neither
/// whitespace, a line break nor an opening parenthesis, nor at the end.
pub proof fn lemma_no_cfws(s: Seq<u8>, p: int)
    requires
        0 <= p <= s.len(),
        p < s.len() ==> !is_wsp(s[p]) && s[p] != ascii::CR && s[p] != ascii::LF && s[p]
            != ascii::LEFT_PAR,
    ensures
        spec_fws(s, p) is None,
        spec_opt_fws(s, p) == p,
        spec_opt_cfws(s, p) == p,
{
    assert(spec_space0(s, p) == p);
    assert(spec_perm_crlf(s, p) is None);
    assert(spec_fold_marker(s, p) is None);
    assert(spec_fold_markers(s, p) == p);
    assert(spec_comment(s, p) is None);
}

/// A single whitespace byte before other text is folding whitespace.
pub proof fn lemma_fws_one_space(s: Seq<u8>, p: int)
    requires
        0 <= p,
        p + 1 < s.len(),
        is_wsp(s[p]),
        !is_wsp(s[p + 1]),
        s[p + 1] != ascii::CR,
        s[p + 1] != ascii::LF,
    ensures
        spec_fws(s, p) == Some(p + 1),
        spec_opt_fws(s, p) == p + 1,
{
    assert(spec_space0(s, p + 1) == p + 1);
    assert(spec_space0(s, p) == p + 1);
    assert(spec_perm_crlf(s, p + 1) is None);
    assert(spec_fold_marker(s, p) is None);
    assert(spec_fold_markers(s, p) == p);
}

} // verus!
