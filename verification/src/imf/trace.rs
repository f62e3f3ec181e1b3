//! The Return-Path trace field (RFC 5322 section 3.6.7).
use vstd::prelude::*;
use crate::dup::Duplicate;
use crate::imf::mailbox::{
    AddrSpec, AddrSpecV, spec_angle_addr, angle_addr, spec_addr_spec, addr_spec, spec_mailbox,
    mailbox,
};
use crate::text::ascii;
use crate::imf::mailbox::addr_spec_printable;
use crate::print::{Formatter, Print, unmarked, write_free};
use crate::text::tag::{spec_byte, byte};
use crate::text::whitespace::{spec_opt_cfws, opt_cfws};

verus! {

/// A return path: an address, or none for `<>`.
#[derive(Debug, PartialEq, Eq)]
pub struct ReturnPath(pub Option<AddrSpec>);

impl View for ReturnPath {
    type V = Option<AddrSpecV>;

    open spec fn view(&self) -> Option<AddrSpecV> {
        match self.0 {
            Some(a) => Some(a@),
            None => None,
        }
    }
}

impl Duplicate for ReturnPath {
    fn duplicate(&self) -> (r: ReturnPath) {
        match &self.0 {
            Some(a) => ReturnPath(Some(a.duplicate())),
            None => ReturnPath(None),
        }
    }
}

/// `[CFWS] "<" [CFWS] ">" [CFWS]`
pub open spec fn spec_empty_path(s: Seq<u8>, i: int) -> Option<int> {
    match spec_byte(s, spec_opt_cfws(s, i), ascii::LT) {
        Some(a) => match spec_byte(s, spec_opt_cfws(s, a), ascii::GT) {
            Some(b) => Some(spec_opt_cfws(s, b)),
            None => None,
        },
        None => None,
    }
}

/// Return path:
/// ```abnf
///    path            =   angle-addr / ([CFWS] "<" [CFWS] ">" [CFWS])
/// ```
/// A bare addr-spec, or a mailbox whose address is kept, is also accepted
/// since both are found in real-world emails.
#[verifier::opaque]
pub open spec fn spec_return_path(s: Seq<u8>, i: int) -> Option<(int, Option<AddrSpecV>)> {
    match spec_angle_addr(s, i) {
        Some((j, a)) => Some((j, Some(a))),
        None => match spec_addr_spec(s, i) {
            Some((j, a)) => Some((j, Some(a))),
            None => match spec_mailbox(s, i) {
                Some((j, m)) => Some((j, Some(m.addrspec))),
                None => match spec_empty_path(s, i) {
                    Some(j) => Some((j, None)),
                    None => None,
                },
            },
        },
    }
}

fn empty_path(s: &[u8], i: usize) -> (r: Option<usize>)
    ensures
        crate::text::whitespace::opt_int(r) == spec_empty_path(s@, i as int),
{
    match byte(s, opt_cfws(s, i), ascii::LT) {
        Some(a) => match byte(s, opt_cfws(s, a), ascii::GT) {
            Some(b) => Some(opt_cfws(s, b)),
            None => None,
        },
        None => None,
    }
}

pub fn return_path(s: &[u8], i: usize) -> (r: Option<(usize, ReturnPath)>)
    ensures
        match r {
            Some((j, p)) => spec_return_path(s@, i as int) == Some((j as int, p@)),
            None => spec_return_path(s@, i as int) is None,
        },
{
    reveal(spec_return_path);
    match angle_addr(s, i) {
        Some((j, a)) => Some((j, ReturnPath(Some(a)))),
        None => match addr_spec(s, i) {
            Some((j, a)) => Some((j, ReturnPath(Some(a)))),
            None => match mailbox(s, i) {
                Some((j, m)) => Some((j, ReturnPath(Some(m.addrspec)))),
                None => match empty_path(s, i) {
                    Some(j) => Some((j, ReturnPath(None))),
                    None => None,
                },
            },
        },
    }
}


/// A return path is printed as `"<" addr-spec ">"`, or `<>` when empty.
impl Print for ReturnPath {
    open spec fn print_text(&self) -> Seq<u8> {
        match self.0 {
            Some(a) => seq![ascii::LT] + a.print_text() + seq![ascii::GT],
            None => seq![ascii::LT, ascii::GT],
        }
    }

    open spec fn print_marks(&self) -> Seq<bool> {
        match self.0 {
            Some(a) => seq![false] + a.print_marks() + seq![false],
            None => seq![false, false],
        }
    }

    open spec fn printable_after(&self, w: Seq<u8>) -> bool {
        match self.0 {
            Some(a) => addr_spec_printable(a),
            None => true,
        }
    }

    #[verifier::spinoff_prover]
    fn print<F: Formatter>(&self, fmt: &mut F) {
        let ghost w0 = fmt.written();
        let ghost m0 = fmt.fws_marks();
        match &self.0 {
            Some(a) => {
                let lt: [u8; 1] = [ascii::LT];
                assert(lt@ == seq![ascii::LT]);
                write_free(fmt, lt.as_slice());
                a.print(fmt);
                let gt: [u8; 1] = [ascii::GT];
                assert(gt@ == seq![ascii::GT]);
                write_free(fmt, gt.as_slice());
            },
            None => {
                let empty: [u8; 2] = [ascii::LT, ascii::GT];
                assert(empty@ == seq![ascii::LT, ascii::GT]);
                write_free(fmt, empty.as_slice());
                assert(unmarked(2) =~= seq![false, false]);
            },
        }
        assert(fmt.written() =~= w0 + self.print_text());
        assert(fmt.fws_marks() =~= m0 + self.print_marks());
    }
}

} // verus!
