//! Framing of header fields: names and raw bodies.
use vstd::prelude::*;
use vstd::slice::slice_subrange;
use crate::dup::{Duplicate, seq_view, opt_view};
use crate::text::ascii::{self, COL, SP};
use crate::print::{Formatter, Print, bytes_allowed, crlf, unmarked};
use crate::text::misc_token::{self, UnstrTokenV, spec_unstructured, unstructured};
use crate::text::run::{ByteClass, run1, run1_at};
use crate::text::tag::{spec_byte, byte};
use crate::text::whitespace::{spec_space0, space0, spec_perm_crlf, perm_crlf, spec_foldable_line, foldable_line};

verus! {

/// A valid header field name.
#[derive(Debug, Clone, PartialEq, Eq)]
pub struct FieldName(pub Vec<u8>);

impl View for FieldName {
    type V = Seq<u8>;

    open spec fn view(&self) -> Seq<u8> {
        self.0@
    }
}

impl Duplicate for FieldName {
    fn duplicate(&self) -> (r: FieldName) {
        FieldName(self.0.duplicate())
    }
}

impl FieldName {
    pub fn bytes(&self) -> (r: &[u8])
        ensures
            r@ == self@,
    {
        self.0.as_slice()
    }
}

/// A field name is printed as it is.
impl Print for FieldName {
    open spec fn print_text(&self) -> Seq<u8> {
        self@
    }

    open spec fn print_marks(&self) -> Seq<bool> {
        crate::print::unmarked(self.print_text().len())
    }

    open spec fn printable_after(&self, w: Seq<u8>) -> bool {
        bytes_allowed(w, self@)
    }

    fn print<F: Formatter>(&self, fmt: &mut F) {
        fmt.write_bytes(self.0.as_slice());
    }
}

/// A header field after framing: a valid name and the raw bytes of its body,
/// which is parsed further.
#[derive(Debug, Clone, PartialEq, Eq)]
pub struct FieldRaw<'a> {
    pub name: FieldName,
    pub body: &'a [u8],
}

pub struct FieldRawV {
    pub name: Seq<u8>,
    pub body: Seq<u8>,
}

impl<'a> View for FieldRaw<'a> {
    type V = FieldRawV;

    open spec fn view(&self) -> FieldRawV {
        FieldRawV { name: self.name@, body: self.body@ }
    }
}

/// Header field name, followed by its colon:
/// ```abnf
/// field-name =   1*ftext
/// ftext      =   %d33-57 /          ; Printable US-ASCII
///                %d59-126           ;  characters not including
///                                   ;  ":".
/// ```
/// followed by `*WSP ":"` (obsolete syntax). The end of the name and the end
/// of the colon.
pub open spec fn spec_field_name(s: Seq<u8>, i: int) -> Option<(int, int)> {
    match run1(s, i, ByteClass::Ftext) {
        Some(a) => match spec_byte(s, spec_space0(s, a), ascii::COL) {
            Some(b) => Some((a, b)),
            None => None,
        },
        None => None,
    }
}

pub fn field_name(s: &[u8], i: usize) -> (r: Option<(usize, usize)>)
    ensures
        match r {
            Some((a, b)) => spec_field_name(s@, i as int) == Some((a as int, b as int)) && i < a
                <= s.len(),
            None => spec_field_name(s@, i as int) is None,
        },
{
    match run1_at(s, i, ByteClass::Ftext) {
        Some(a) => match byte(s, space0(s, a), ascii::COL) {
            Some(b) => Some((a, b)),
            None => None,
        },
        None => None,
    }
}

/// `field-name ":" folded-line`: where it ends and the field.
pub open spec fn spec_field_raw(s: Seq<u8>, i: int) -> Option<(int, FieldRawV)> {
    match spec_field_name(s, i) {
        Some((a, b)) => match spec_foldable_line(s, b) {
            Some((e, f)) => Some((f, FieldRawV { name: s.subrange(i, a), body: s.subrange(b, e) })),
            None => None,
        },
        None => None,
    }
}

/// A field, or a folded line that is not one (kept as `None`).
pub open spec fn spec_field_raw_opt(s: Seq<u8>, i: int) -> Option<(int, Option<FieldRawV>)> {
    match spec_field_raw(s, i) {
        Some((f, v)) => Some((f, Some(v))),
        None => match spec_foldable_line(s, i) {
            Some((_, f)) => Some((f, None)),
            None => None,
        },
    }
}

pub open spec fn opt_seq<T>(o: Option<T>) -> Seq<T> {
    match o {
        Some(x) => seq![x],
        None => seq![],
    }
}

/// The fields of the lines starting at `i`, and where they end.
pub open spec fn spec_fields(s: Seq<u8>, i: int) -> (int, Seq<FieldRawV>)
    decreases s.len() - i,
{
    match spec_field_raw_opt(s, i) {
        Some((j, o)) => if i < j <= s.len() {
            let (e, r) = spec_fields(s, j);
            (e, opt_seq(o) + r)
        } else {
            (i, seq![])
        },
        None => (i, seq![]),
    }
}

/// What ends a header section: an empty line, the end of the input, or
/// (best effort) the rest of the input, kept as a last field when it starts
/// with a field name.
pub open spec fn spec_header_end(s: Seq<u8>, i: int) -> (int, Seq<FieldRawV>) {
    match spec_perm_crlf(s, i) {
        Some(j) => (j, seq![]),
        None => if i == s.len() {
            (i, seq![])
        } else {
            match spec_field_name(s, i) {
                Some((a, b)) => (
                    s.len() as int,
                    seq![FieldRawV { name: s.subrange(i, a), body: s.subrange(b, s.len() as int) }],
                ),
                None => (s.len() as int, seq![]),
            }
        },
    }
}

/// The header fields of `s` as raw key/values, up to an empty line or the
/// end of the input: where they end, and the fields.
pub open spec fn spec_header_kv(s: Seq<u8>) -> (int, Seq<FieldRawV>) {
    let (j, fs) = spec_fields(s, 0);
    let (e, t) = spec_header_end(s, j);
    (e, fs + t)
}

fn field_raw<'a>(s: &'a [u8], i: usize) -> (r: Option<(usize, FieldRaw<'a>)>)
    ensures
        match r {
            Some((f, v)) => spec_field_raw(s@, i as int) == Some((f as int, v@)),
            None => spec_field_raw(s@, i as int) is None,
        },
{
    match field_name(s, i) {
        Some((a, b)) => match foldable_line(s, b) {
            Some((e, f)) => {
                proof {
                    crate::text::run::lemma_run_end(s@, i as int, ByteClass::Ftext);
                }
                let name = FieldName(ascii::sub_to_vec(s, i, a));
                Some((f, FieldRaw { name, body: slice_subrange(s, b, e) }))
            },
            None => None,
        },
        None => None,
    }
}

fn field_raw_opt<'a>(s: &'a [u8], i: usize) -> (r: Option<(usize, Option<FieldRaw<'a>>)>)
    ensures
        match r {
            Some((f, Some(v))) => spec_field_raw_opt(s@, i as int) == Some(
                (f as int, Some(v@)),
            ),
            Some((f, None)) => spec_field_raw_opt(s@, i as int) == Some(
                (f as int, None::<FieldRawV>),
            ),
            None => spec_field_raw_opt(s@, i as int) is None,
        },
{
    match field_raw(s, i) {
        Some((f, v)) => Some((f, Some(v))),
        None => match foldable_line(s, i) {
            Some((_, f)) => Some((f, None)),
            None => None,
        },
    }
}

/// Parses header fields as raw key/values; stops at an empty line or at the
/// end of the input. Lines that are not fields are dropped. Returns what
/// follows the header section, and the fields.
pub fn header_kv<'a>(s: &'a [u8]) -> (r: (&'a [u8], Vec<FieldRaw<'a>>))
    ensures
        r.0@ == s@.subrange(spec_header_kv(s@).0, s@.len() as int),
        seq_view(r.1@) == spec_header_kv(s@).1,
{
    let mut j: usize = 0;
    let mut acc: Vec<FieldRaw<'a>> = Vec::new();
    loop
        invariant
            spec_fields(s@, 0).0 == spec_fields(s@, j as int).0,
            spec_fields(s@, 0).1 == seq_view(acc@) + spec_fields(s@, j as int).1,
        ensures
            spec_fields(s@, 0) == (j as int, seq_view(acc@)),
        decreases s.len() - j,
    {
        let ghost a0 = seq_view(acc@);
        match field_raw_opt(s, j) {
            Some((k, o)) => {
                if j < k && k <= s.len() {
                    match o {
                        Some(v) => {
                            acc.push(v);
                            assert(seq_view(acc@) =~= a0.push(acc@.last()@));
                            assert(a0 + (seq![acc@.last()@] + spec_fields(s@, k as int).1)
                                =~= seq_view(acc@) + spec_fields(s@, k as int).1);
                        },
                        None => {
                            assert(a0 + (Seq::<FieldRawV>::empty() + spec_fields(s@, k as int).1)
                                =~= a0 + spec_fields(s@, k as int).1);
                        },
                    }
                    j = k;
                } else {
                    assert(a0 + Seq::<FieldRawV>::empty() =~= a0);
                    break ;
                }
            },
            None => {
                assert(a0 + Seq::<FieldRawV>::empty() =~= a0);
                break ;
            },
        }
    }
    let ghost a1 = seq_view(acc@);
    let e = match perm_crlf(s, j) {
        Some(k) => {
            assert(a1 + Seq::<FieldRawV>::empty() =~= a1);
            k
        },
        None => if j == s.len() {
            assert(a1 + Seq::<FieldRawV>::empty() =~= a1);
            j
        } else {
            match field_name(s, j) {
                Some((a, b)) => {
                    proof {
                        crate::text::run::lemma_run_end(s@, j as int, ByteClass::Ftext);
                    }
                    let name = FieldName(ascii::sub_to_vec(s, j, a));
                    let b2 = if b <= s.len() {
                        b
                    } else {
                        s.len()
                    };
                    acc.push(FieldRaw { name, body: slice_subrange(s, b2, s.len()) });
                    assert(seq_view(acc@) =~= a1 + seq![acc@.last()@]);
                    s.len()
                },
                None => {
                    assert(a1 + Seq::<FieldRawV>::empty() =~= a1);
                    s.len()
                },
            }
        },
    };
    (slice_subrange(s, e, s.len()), acc)
}

/// An unstructured header field: its name and its body.
#[derive(Debug, PartialEq, Eq)]
pub struct Unstructured(pub FieldName, pub misc_token::Unstructured);

pub struct UnstructuredV {
    pub name: Seq<u8>,
    pub body: Seq<UnstrTokenV>,
}

impl View for Unstructured {
    type V = UnstructuredV;

    open spec fn view(&self) -> UnstructuredV {
        UnstructuredV { name: self.0@, body: self.1@ }
    }
}

impl Duplicate for Unstructured {
    fn duplicate(&self) -> (r: Unstructured) {
        Unstructured(self.0.duplicate(), self.1.duplicate())
    }
}

/// A header field as unstructured text, when its whole body is
/// unstructured text.
pub open spec fn spec_unstructured_field(f: FieldRawV) -> Option<UnstructuredV> {
    let (j, u) = spec_unstructured(f.body, 0);
    if j == f.body.len() {
        Some(UnstructuredV { name: f.name, body: u })
    } else {
        None
    }
}

impl Unstructured {
    /// The field as unstructured text, when its whole body is unstructured
    /// text.
    pub fn from_raw(f: &FieldRaw) -> (r: Option<Unstructured>)
        ensures
            opt_view(r) == spec_unstructured_field(f@),
    {
        let (e, body) = unstructured(f.body, 0);
        if e == f.body.len() {
            Some(Unstructured(f.name.duplicate(), body))
        } else {
            None
        }
    }
}

/// The text of a structured field: its name, a colon, a space, its body,
/// and a line break.
pub open spec fn field_text(name: Seq<u8>, body: Seq<u8>) -> Seq<u8> {
    name + seq![COL, SP] + body + crlf()
}

/// The text of an unstructured field: its name, a colon, its body (whose
/// whitespace is its own), and a line break.
pub open spec fn unstructured_field_text(name: Seq<u8>, body: Seq<u8>) -> Seq<u8> {
    name + seq![COL] + body + crlf()
}

/// Which bytes of a structured field's text are folding whitespace: the
/// space after the colon, and those of its body.
pub open spec fn field_marks(name_len: nat, body: Seq<bool>) -> Seq<bool> {
    unmarked(name_len) + seq![false, true] + body + seq![false, false]
}

/// Which bytes of an unstructured field's text are folding whitespace:
/// those of its body.
pub open spec fn unstructured_field_marks(name_len: nat, body: Seq<bool>) -> Seq<bool> {
    unmarked(name_len) + seq![false] + body + seq![false, false]
}

/// Prints a structured header field: its name, a colon, folding whitespace,
/// its body, and a line break.
pub fn print<T: Print, F: Formatter>(fmt: &mut F, name: &[u8], body: &T)
    requires
        old(fmt).accepts_writes(),
        bytes_allowed(old(fmt).written(), name@),
        body.printable_after(old(fmt).written() + name@ + seq![COL, SP]),
    ensures
        final(fmt).accepts_writes(),
        final(fmt).written() == old(fmt).written() + field_text(name@, body.print_text()),
        final(fmt).fws_marks() == old(fmt).fws_marks() + field_marks(name@.len(), body.print_marks()),
{
    let ghost w0 = fmt.written();
    let ghost m0 = fmt.fws_marks();
    fmt.write_bytes(name);
    let colon: [u8; 1] = [COL];
    assert(colon@ == seq![COL]);
    fmt.write_bytes(colon.as_slice());
    fmt.write_fws();
    assert(fmt.written() =~= w0 + name@ + seq![COL, SP]);
    body.print(fmt);
    fmt.write_crlf();
    assert(fmt.written() =~= w0 + field_text(name@, body.print_text()));
    assert(fmt.fws_marks() =~= m0 + field_marks(name@.len(), body.print_marks()));
}

/// Prints an unstructured header field: its name, a colon, its body, and a
/// line break.
pub fn print_unstructured<F: Formatter>(fmt: &mut F, name: &[u8], body: &misc_token::Unstructured)
    requires
        old(fmt).accepts_writes(),
        bytes_allowed(old(fmt).written(), name@),
        body.printable_after(old(fmt).written() + name@ + seq![COL]),
    ensures
        final(fmt).accepts_writes(),
        final(fmt).written() == old(fmt).written() + unstructured_field_text(name@, body.print_text()),
        final(fmt).fws_marks() == old(fmt).fws_marks() + unstructured_field_marks(
            name@.len(),
            body.print_marks(),
        ),
{
    let ghost w0 = fmt.written();
    let ghost m0 = fmt.fws_marks();
    fmt.write_bytes(name);
    let colon: [u8; 1] = [COL];
    assert(colon@ == seq![COL]);
    fmt.write_bytes(colon.as_slice());
    assert(fmt.written() =~= w0 + name@ + seq![COL]);
    body.print(fmt);
    fmt.write_crlf();
    assert(fmt.written() =~= w0 + unstructured_field_text(name@, body.print_text()));
    assert(fmt.fws_marks() =~= m0 + unstructured_field_marks(name@.len(), body.print_marks()));
}

/// An unstructured field is printed as its name, a colon, and its body.
impl Print for Unstructured {
    open spec fn print_text(&self) -> Seq<u8> {
        unstructured_field_text(self.0@, self.1.print_text())
    }

    open spec fn print_marks(&self) -> Seq<bool> {
        unstructured_field_marks(self.0@.len(), self.1.print_marks())
    }

    open spec fn printable_after(&self, w: Seq<u8>) -> bool {
        bytes_allowed(w, self.0@) && self.1.printable_after(w + self.0@ + seq![COL])
    }

    fn print<F: Formatter>(&self, fmt: &mut F) {
        print_unstructured(fmt, self.0.0.as_slice(), &self.1);
    }
}

} // verus!
