//! Atoms, dot-atoms and MIME tokens (RFC 5322 3.2.3, RFC 2045 5.1).
use vstd::prelude::*;
use crate::text::ascii;
use crate::print::{Formatter, Print, free_text, unmarked, write_free};
use crate::text::run::{ByteClass, run1, take_run1};
use crate::text::whitespace::{spec_opt_cfws, opt_cfws};

verus! {

/// An atom: a non-empty run of atext.
#[derive(Debug, PartialEq, Eq)]
pub struct Atom(pub Vec<u8>);

impl View for Atom {
    type V = Seq<u8>;

    open spec fn view(&self) -> Seq<u8> {
        self.0@
    }
}

/// A MIME token (RFC 2045): a non-empty run of token characters.
#[derive(Debug, PartialEq, Eq)]
pub struct MIMEAtom(pub Vec<u8>);

impl View for MIMEAtom {
    type V = Seq<u8>;

    open spec fn view(&self) -> Seq<u8> {
        self.0@
    }
}

/// `[CFWS] 1*(class) [CFWS]`, with the text of the run.
pub open spec fn spec_delimited_run(s: Seq<u8>, i: int, c: ByteClass) -> Option<(int, Seq<u8>)> {
    let a = spec_opt_cfws(s, i);
    match run1(s, a, c) {
        Some(e) => Some((spec_opt_cfws(s, e), s.subrange(a, e))),
        None => None,
    }
}

pub open spec fn spec_atom(s: Seq<u8>, i: int) -> Option<(int, Seq<u8>)> {
    spec_delimited_run(s, i, ByteClass::Atext)
}

pub open spec fn spec_mime_atom(s: Seq<u8>, i: int) -> Option<(int, Seq<u8>)> {
    spec_delimited_run(s, i, ByteClass::Token)
}

/// End of `*("." 1*atext)` starting at `i`.
pub open spec fn spec_dot_parts(s: Seq<u8>, i: int) -> int
    decreases s.len() - i,
{
    if 0 <= i < s.len() && s[i] == ascii::PERIOD {
        match run1(s, i + 1, ByteClass::Atext) {
            Some(e) => if e <= s.len() {
                spec_dot_parts(s, e)
            } else {
                i
            },
            None => i,
        }
    } else {
        i
    }
}

/// `dot-atom-text = 1*atext *("." 1*atext)`
pub open spec fn spec_dot_atom_text(s: Seq<u8>, i: int) -> Option<int> {
    match run1(s, i, ByteClass::Atext) {
        Some(e) => Some(spec_dot_parts(s, e)),
        None => None,
    }
}

fn delimited_run(s: &[u8], i: usize, c: ByteClass) -> (r: Option<(usize, Vec<u8>)>)
    ensures
        match r {
            Some((j, v)) => spec_delimited_run(s@, i as int, c) == Some((j as int, v@)),
            None => spec_delimited_run(s@, i as int, c) is None,
        },
{
    let a = opt_cfws(s, i);
    if a > s.len() {
        proof {
            assert(run1(s@, a as int, c) is None) by {
                assert(crate::text::run::run_end(s@, a as int, c) == a);
            }
        }
        return None;
    }
    match take_run1(s, a, c) {
        Some(e) => {
            let v = ascii::sub_to_vec(s, a, e);
            Some((opt_cfws(s, e), v))
        },
        None => None,
    }
}

/// `atom = [CFWS] 1*atext [CFWS]`
pub fn atom(s: &[u8], i: usize) -> (r: Option<(usize, Atom)>)
    ensures
        match r {
            Some((j, v)) => spec_atom(s@, i as int) == Some((j as int, v@)),
            None => spec_atom(s@, i as int) is None,
        },
{
    match delimited_run(s, i, ByteClass::Atext) {
        Some((j, v)) => Some((j, Atom(v))),
        None => None,
    }
}

/// MIME token, surrounded by optional CFWS.
pub fn mime_atom(s: &[u8], i: usize) -> (r: Option<(usize, MIMEAtom)>)
    ensures
        match r {
            Some((j, v)) => spec_mime_atom(s@, i as int) == Some((j as int, v@)),
            None => spec_mime_atom(s@, i as int) is None,
        },
{
    match delimited_run(s, i, ByteClass::Token) {
        Some((j, v)) => Some((j, MIMEAtom(v))),
        None => None,
    }
}

/// A non-empty run of visible characters (non-ASCII bytes included): its end.
pub fn vchar_seq(s: &[u8], i: usize) -> (r: Option<usize>)
    ensures
        crate::text::whitespace::opt_int(r) == run1(s@, i as int, ByteClass::Vchar),
{
    crate::text::run::run1_at(s, i, ByteClass::Vchar)
}

/// `dot-atom-text`: returns the end position.
pub fn dot_atom_text(s: &[u8], i: usize) -> (r: Option<usize>)
    ensures
        crate::text::whitespace::opt_int(r) == spec_dot_atom_text(s@, i as int),
{
    if i > s.len() {
        proof {
            assert(crate::text::run::run_end(s@, i as int, ByteClass::Atext) == i);
        }
        return None;
    }
    match take_run1(s, i, ByteClass::Atext) {
        Some(e) => {
            let mut j = e;
            loop
                invariant
                    e <= j <= s.len(),
                    spec_dot_parts(s@, j as int) == spec_dot_parts(s@, e as int),
                ensures
                    spec_dot_parts(s@, e as int) == j,
                decreases s.len() - j,
            {
                if j < s.len() && s[j] == ascii::PERIOD {
                    match take_run1(s, j + 1, ByteClass::Atext) {
                        Some(k) => {
                            j = k;
                        },
                        None => {
                            break ;
                        },
                    }
                } else {
                    break ;
                }
            }
            Some(j)
        },
        None => None,
    }
}

/// `dot-atom = [CFWS] dot-atom-text [CFWS]`, returning the dot-atom-text.
pub open spec fn spec_dot_atom(s: Seq<u8>, i: int) -> Option<(int, Seq<u8>)> {
    let a = spec_opt_cfws(s, i);
    match spec_dot_atom_text(s, a) {
        Some(e) => Some((spec_opt_cfws(s, e), s.subrange(a, e))),
        None => None,
    }
}

pub fn dot_atom(s: &[u8], i: usize) -> (r: Option<(usize, Vec<u8>)>)
    ensures
        match r {
            Some((j, v)) => spec_dot_atom(s@, i as int) == Some((j as int, v@)),
            None => spec_dot_atom(s@, i as int) is None,
        },
{
    let a = opt_cfws(s, i);
    match dot_atom_text(s, a) {
        Some(e) => {
            proof {
                crate::text::run::lemma_run_end(s@, a as int, ByteClass::Atext);
                lemma_dot_parts(s@, crate::text::run::run_end(s@, a as int, ByteClass::Atext));
            }
            let v = ascii::sub_to_vec(s, a, e);
            Some((opt_cfws(s, e), v))
        },
        None => None,
    }
}

pub proof fn lemma_dot_parts(s: Seq<u8>, i: int)
    requires
        0 <= i <= s.len(),
    ensures
        i <= spec_dot_parts(s, i) <= s.len(),
    decreases s.len() - i,
{
    if 0 <= i < s.len() && s[i] == ascii::PERIOD {
        match run1(s, i + 1, ByteClass::Atext) {
            Some(e) => {
                crate::text::run::lemma_run_end(s, i + 1, ByteClass::Atext);
                if e <= s.len() {
                    lemma_dot_parts(s, e);
                }
            },
            None => {},
        }
    }
}


/// An atom is printed as it is; it must be free text.
impl Print for Atom {
    open spec fn print_text(&self) -> Seq<u8> {
        self@
    }

    open spec fn print_marks(&self) -> Seq<bool> {
        unmarked(self@.len())
    }

    open spec fn printable_after(&self, w: Seq<u8>) -> bool {
        free_text(self@)
    }

    fn print<F: Formatter>(&self, fmt: &mut F) {
        write_free(fmt, self.0.as_slice());
    }
}


/// A MIME token is printed as it is; it must be free text.
impl Print for MIMEAtom {
    open spec fn print_text(&self) -> Seq<u8> {
        self@
    }

    open spec fn print_marks(&self) -> Seq<bool> {
        unmarked(self@.len())
    }

    open spec fn printable_after(&self, w: Seq<u8>) -> bool {
        free_text(self@)
    }

    fn print<F: Formatter>(&self, fmt: &mut F) {
        write_free(fmt, self.0.as_slice());
    }
}

} // verus!
