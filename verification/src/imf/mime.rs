//! The MIME-Version field (RFC 2045 section 4).
use vstd::prelude::*;
use vstd::slice::slice_subrange;
use crate::text::ascii;
use crate::print::{Formatter, Print, lemma_graphic_append, lemma_decimal_graphic, write_graphic};
use crate::text::digits::{
    spec_number, number, digits, decimal, u64_decimal, is_digit, lemma_decimal_digits,
    lemma_decimal_value,
};
use crate::text::run::{ByteClass, in_class, lemma_run_end_exact};
use crate::text::tag::{spec_byte, byte};
use crate::text::whitespace::{spec_opt_cfws, opt_cfws, lemma_no_cfws};

verus! {

/// A MIME version `major.minor`.
#[derive(Debug, Clone, Copy, PartialEq, Eq, Structural)]
pub struct Version {
    pub major: u64,
    pub minor: u64,
}

impl Default for Version {
    /// Version 1.0.
    fn default() -> (r: Version)
        ensures
            r == (Version { major: 1, minor: 0 }),
    {
        Version { major: 1, minor: 0 }
    }
}

/// `version := [CFWS] 1*DIGIT [CFWS] "." [CFWS] 1*DIGIT [CFWS]`: its end,
/// the major and the minor number.
pub open spec fn spec_version(s: Seq<u8>, i: int) -> Option<(int, nat, nat)> {
    let a = spec_opt_cfws(s, i);
    match spec_number(s, a) {
        Some((b, major)) => match spec_byte(s, spec_opt_cfws(s, b), ascii::PERIOD) {
            Some(d) => match spec_number(s, spec_opt_cfws(s, d)) {
                Some((f, minor)) => Some((spec_opt_cfws(s, f), major, minor)),
                None => None,
            },
            None => None,
        },
        None => None,
    }
}

/// Each number that `version` reads at `i` fits in a `u64` (a number is read
/// as soon as its digits are recognized, whatever follows).
pub open spec fn spec_version_fits(s: Seq<u8>, i: int) -> bool {
    let a = spec_opt_cfws(s, i);
    match spec_number(s, a) {
        Some((b, major)) => major <= u64::MAX && match spec_byte(
            s,
            spec_opt_cfws(s, b),
            ascii::PERIOD,
        ) {
            Some(d) => match spec_number(s, spec_opt_cfws(s, d)) {
                Some((_, minor)) => minor <= u64::MAX,
                None => true,
            },
            None => true,
        },
        None => true,
    }
}

/// Parses a MIME version.
pub fn version(s: &[u8], i: usize) -> (r: Option<(usize, Version)>)
    requires
        spec_version_fits(s@, i as int),
    ensures
        match r {
            Some((j, v)) => spec_version(s@, i as int) == Some(
                (j as int, v.major as nat, v.minor as nat),
            ),
            None => spec_version(s@, i as int) is None,
        },
{
    let a = opt_cfws(s, i);
    let (b, major) = match number(s, a) {
        Some(x) => x,
        None => return None,
    };
    let d = match byte(s, opt_cfws(s, b), ascii::PERIOD) {
        Some(d) => d,
        None => return None,
    };
    let (f, minor) = match number(s, opt_cfws(s, d)) {
        Some(x) => x,
        None => return None,
    };
    Some((opt_cfws(s, f), Version { major, minor }))
}

/// Whether `version` can be called at `i`, and its result when it can:
/// `None` where a number it would read does not fit in a `u64`.
pub fn checked_version(s: &[u8], i: usize) -> (r: Option<Option<(usize, Version)>>)
    ensures
        r is Some <==> spec_version_fits(s@, i as int),
        r matches Some(Some((j, v))) ==> spec_version(s@, i as int) == Some(
            (j as int, v.major as nat, v.minor as nat),
        ),
        r matches Some(None) ==> spec_version(s@, i as int) is None,
{
    let a = opt_cfws(s, i);
    match digits(s, a) {
        Some(b) => {
            if crate::text::digits::digits_to_u64_bounded(slice_subrange(s, a, b), u64::MAX).is_none() {
                return None;
            }
            match byte(s, opt_cfws(s, b), ascii::PERIOD) {
                Some(d) => {
                    let e = opt_cfws(s, d);
                    match digits(s, e) {
                        Some(f) => {
                            if crate::text::digits::digits_to_u64_bounded(
                                slice_subrange(s, e, f),
                                u64::MAX,
                            ).is_none() {
                                return None;
                            }
                        },
                        None => {},
                    }
                },
                None => {},
            }
        },
        None => {},
    }
    Some(version(s, i))
}

/// The text of a version: `major "." minor`.
pub open spec fn version_text(v: Version) -> Seq<u8> {
    decimal(v.major as nat) + seq![ascii::PERIOD] + decimal(v.minor as nat)
}

impl Version {
    /// The version as text.
    pub fn to_bytes(&self) -> (r: Vec<u8>)
        ensures
            r@ == version_text(*self),
    {
        let mut r = u64_decimal(self.major);
        r.push(ascii::PERIOD);
        let mut m = u64_decimal(self.minor);
        let ghost r0 = r@;
        r.append(&mut m);
        r
    }
}

/// A version is printed as `major "." minor`.
impl Print for Version {
    open spec fn print_text(&self) -> Seq<u8> {
        version_text(*self)
    }

    open spec fn print_marks(&self) -> Seq<bool> {
        crate::print::unmarked(self.print_text().len())
    }

    open spec fn printable_after(&self, w: Seq<u8>) -> bool {
        true
    }

    fn print<F: Formatter>(&self, fmt: &mut F) {
        proof {
            lemma_decimal_graphic(self.major as nat);
            lemma_decimal_graphic(self.minor as nat);
            lemma_graphic_append(decimal(self.major as nat), seq![ascii::PERIOD]);
            lemma_graphic_append(decimal(self.major as nat) + seq![ascii::PERIOD], decimal(self.minor as nat));
        }
        let b = self.to_bytes();
        write_graphic(fmt, b.as_slice());
    }
}

/// Print, then parse: the text of a version reads back as the same version.
pub proof fn law_version_print_parse(v: Version)
    ensures
        spec_version(version_text(v), 0) == Some(
            (version_text(v).len() as int, v.major as nat, v.minor as nat),
        ),
{
    let d1 = decimal(v.major as nat);
    let d2 = decimal(v.minor as nat);
    let s = version_text(v);
    let a = d1.len() as int;
    lemma_decimal_digits(v.major as nat);
    lemma_decimal_digits(v.minor as nat);
    lemma_decimal_value(v.major as nat);
    lemma_decimal_value(v.minor as nat);
    assert(s[0] == d1[0]);
    assert(is_digit(d1[0]));
    lemma_no_cfws(s, 0);
    assert(s[a] == ascii::PERIOD);
    assert forall|x: int| 0 <= x < a implies in_class(ByteClass::Digit, #[trigger] s[x]) by {
        assert(s[x] == d1[x]);
        assert(is_digit(d1[x]));
    }
    lemma_run_end_exact(s, 0, a, ByteClass::Digit);
    assert(s.subrange(0, a) =~= d1);
    lemma_no_cfws(s, a);
    assert(s[a + 1] == d2[0]);
    assert(is_digit(d2[0]));
    lemma_no_cfws(s, a + 1);
    assert forall|x: int| a + 1 <= x < s.len() implies in_class(ByteClass::Digit, #[trigger] s[x]) by {
        assert(s[x] == d2[x - a - 1]);
        assert(is_digit(d2[x - a - 1]));
    }
    lemma_run_end_exact(s, a + 1, s.len() as int, ByteClass::Digit);
    assert(s.subrange(a + 1, s.len() as int) =~= d2);
    lemma_no_cfws(s, s.len() as int);
}

} // verus!
