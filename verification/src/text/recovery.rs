//! Best-effort skipping of unparsable text.
use vstd::prelude::*;
use crate::text::ascii;

verus! {

/// The end of a quoted string whose content starts at `i` (the opening quote
/// is at `i - 1`): after its closing quote; `None` when it is unterminated.
pub open spec fn spec_skip_quoted(s: Seq<u8>, i: int) -> Option<int>
    decreases s.len() - i,
{
    if i < 0 || i >= s.len() {
        None
    } else if s[i] == ascii::BACKSLASH && i + 1 < s.len() {
        spec_skip_quoted(s, i + 2)
    } else if s[i] == ascii::DQUOTE {
        Some(i + 1)
    } else {
        spec_skip_quoted(s, i + 1)
    }
}

/// Skips bytes until `stop`, stepping over complete quoted strings as a whole
/// (a `stop` byte inside quotes does not stop); an unterminated quote is an
/// ordinary byte.
pub open spec fn spec_take_quoted_or_until(s: Seq<u8>, i: int, stop: u8) -> int
    decreases s.len() - i,
{
    if i < 0 || i >= s.len() || s[i] == stop {
        i
    } else if s[i] == ascii::DQUOTE && spec_skip_quoted(s, i + 1) is Some {
        let j = spec_skip_quoted(s, i + 1).unwrap();
        if i < j <= s.len() {
            spec_take_quoted_or_until(s, j, stop)
        } else {
            i
        }
    } else {
        spec_take_quoted_or_until(s, i + 1, stop)
    }
}

/// Like `spec_take_quoted_or_until`, but must skip at least one byte.
pub open spec fn spec_take_quoted_or_until1(s: Seq<u8>, i: int, stop: u8) -> Option<int> {
    let j = spec_take_quoted_or_until(s, i, stop);
    if j > i {
        Some(j)
    } else {
        None
    }
}

fn skip_quoted(s: &[u8], i: usize) -> (r: Option<usize>)
    ensures
        crate::text::whitespace::opt_int(r) == spec_skip_quoted(s@, i as int),
{
    let mut j = i;
    loop
        invariant
            spec_skip_quoted(s@, j as int) == spec_skip_quoted(s@, i as int),
        decreases s.len() - j,
    {
        if j >= s.len() {
            return None;
        } else if s[j] == ascii::BACKSLASH && j + 1 < s.len() {
            j = j + 2;
        } else if s[j] == ascii::DQUOTE {
            return Some(j + 1);
        } else {
            j = j + 1;
        }
    }
}

pub fn take_quoted_or_until(s: &[u8], i: usize, stop: u8) -> (r: usize)
    ensures
        r == spec_take_quoted_or_until(s@, i as int, stop),
{
    let mut j = i;
    loop
        invariant
            spec_take_quoted_or_until(s@, j as int, stop) == spec_take_quoted_or_until(
                s@,
                i as int,
                stop,
            ),
        decreases s.len() - j,
    {
        if j >= s.len() || s[j] == stop {
            return j;
        }
        let q = if s[j] == ascii::DQUOTE {
            skip_quoted(s, j + 1)
        } else {
            None
        };
        match q {
            Some(k) => {
                if j < k && k <= s.len() {
                    j = k;
                } else {
                    return j;
                }
            },
            None => {
                j = j + 1;
            },
        }
    }
}

pub fn take_quoted_or_until1(s: &[u8], i: usize, stop: u8) -> (r: Option<usize>)
    ensures
        crate::text::whitespace::opt_int(r) == spec_take_quoted_or_until1(s@, i as int, stop),
{
    let j = take_quoted_or_until(s, i, stop);
    if j > i {
        Some(j)
    } else {
        None
    }
}

} // verus!
