//! MIME header fields (RFC 2045): their names and their parsed bodies.
use vstd::prelude::*;

use crate::header::{FieldName, FieldRaw};
use crate::imf::identification::{MessageID, MessageIDV, spec_msg_id, msg_id};
use crate::mime::mechanism::{Mechanism, MechanismV, spec_mechanism, mechanism};
use crate::mime::types::{
    AnyType, AnyTypeV, NaiveType, NaiveTypeV, spec_naive_type, naive_type, any_type_text,
    any_type_marks, any_type_printable,
};
use crate::header::{print, print_unstructured, field_text, field_marks, unstructured_field_text, unstructured_field_marks};
use crate::print::{Formatter, Print, graphic, lemma_graphic_allowed};
use crate::text::ascii;
use crate::text::ascii::{lower, to_ascii_lowercase, bytes_eq, bytes_to_vec};
use crate::text::misc_token::{Unstructured, UnstrTokenV, spec_unstructured, unstructured};

verus! {

/// What a MIME field is about.
#[derive(Debug, Clone, Copy, PartialEq, Eq, Hash, Structural)]
pub enum Entry {
    Type,
    TransferEncoding,
    ID,
    Description,
}

/// The kinds of MIME field names.
#[derive(Debug, Clone, Copy, PartialEq, Eq, Structural)]
pub enum MimeKind {
    Type,
    TransferEncoding,
    ID,
    Description,
    Unknown,
}

/// The kind of MIME field that a lower-cased name names.
pub open spec fn mime_kind(l: Seq<u8>) -> MimeKind {
    if l == seq![99u8, 111u8, 110u8, 116u8, 101u8, 110u8, 116u8, 45u8, 116u8, 121u8, 112u8, 101u8] {
        MimeKind::Type
    } else if l == seq![99u8, 111u8, 110u8, 116u8, 101u8, 110u8, 116u8, 45u8, 116u8, 114u8, 97u8, 110u8, 115u8, 102u8, 101u8, 114u8, 45u8, 101u8, 110u8, 99u8, 111u8, 100u8, 105u8, 110u8, 103u8] {
        MimeKind::TransferEncoding
    } else if l == seq![99u8, 111u8, 110u8, 116u8, 101u8, 110u8, 116u8, 45u8, 105u8, 100u8] {
        MimeKind::ID
    } else if l == seq![99u8, 111u8, 110u8, 116u8, 101u8, 110u8, 116u8, 45u8, 100u8, 101u8, 115u8, 99u8, 114u8, 105u8, 112u8, 116u8, 105u8, 111u8, 110u8] {
        MimeKind::Description
    } else {
        MimeKind::Unknown
    }
}

pub fn mime_kind_of_name(name: &[u8]) -> (r: MimeKind)
    ensures
        r == mime_kind(lower(name@)),
{
    let l = to_ascii_lowercase(name);
    let l = l.as_slice();
    if bytes_eq(l, [99u8, 111u8, 110u8, 116u8, 101u8, 110u8, 116u8, 45u8, 116u8, 121u8, 112u8, 101u8].as_slice()) {
        MimeKind::Type
    } else if bytes_eq(l, [99u8, 111u8, 110u8, 116u8, 101u8, 110u8, 116u8, 45u8, 116u8, 114u8, 97u8, 110u8, 115u8, 102u8, 101u8, 114u8, 45u8, 101u8, 110u8, 99u8, 111u8, 100u8, 105u8, 110u8, 103u8].as_slice()) {
        MimeKind::TransferEncoding
    } else if bytes_eq(l, [99u8, 111u8, 110u8, 116u8, 101u8, 110u8, 116u8, 45u8, 105u8, 100u8].as_slice()) {
        MimeKind::ID
    } else if bytes_eq(l, [99u8, 111u8, 110u8, 116u8, 101u8, 110u8, 116u8, 45u8, 100u8, 101u8, 115u8, 99u8, 114u8, 105u8, 112u8, 116u8, 105u8, 111u8, 110u8].as_slice()) {
        MimeKind::Description
    } else {
        MimeKind::Unknown
    }
}

/// The name of the header field of an entry, as printed.
pub open spec fn mime_field_name(e: Entry) -> Seq<u8> {
    match e {
        Entry::Type => seq![67u8, 111u8, 110u8, 116u8, 101u8, 110u8, 116u8, 45u8, 84u8, 121u8, 112u8, 101u8],
        Entry::TransferEncoding => seq![67u8, 111u8, 110u8, 116u8, 101u8, 110u8, 116u8, 45u8, 84u8, 114u8, 97u8, 110u8, 115u8, 102u8, 101u8, 114u8, 45u8, 69u8, 110u8, 99u8, 111u8, 100u8, 105u8, 110u8, 103u8],
        Entry::ID => seq![67u8, 111u8, 110u8, 116u8, 101u8, 110u8, 116u8, 45u8, 73u8, 100u8],
        Entry::Description => seq![67u8, 111u8, 110u8, 116u8, 101u8, 110u8, 116u8, 45u8, 68u8, 101u8, 115u8, 99u8, 114u8, 105u8, 112u8, 116u8, 105u8, 111u8, 110u8],
    }
}

/// An interpreted MIME field.
#[derive(Debug, PartialEq, Eq)]
pub enum Field {
    Type(AnyType),
    TransferEncoding(Mechanism),
    ID(MessageID),
    Description(Unstructured),
}

pub enum FieldV {
    Type(AnyTypeV),
    TransferEncoding(MechanismV),
    ID(MessageIDV),
    Description(Seq<UnstrTokenV>),
}

impl View for Field {
    type V = FieldV;

    open spec fn view(&self) -> FieldV {
        match self {
            Field::Type(t) => FieldV::Type(t@),
            Field::TransferEncoding(m) => FieldV::TransferEncoding(m@),
            Field::ID(i) => FieldV::ID(i@),
            Field::Description(d) => FieldV::Description(d@),
        }
    }
}

impl Field {
    pub open spec fn entry(&self) -> Entry {
        match self {
            Field::Type(_) => Entry::Type,
            Field::TransferEncoding(_) => Entry::TransferEncoding,
            Field::ID(_) => Entry::ID,
            Field::Description(_) => Entry::Description,
        }
    }

    /// The name of this field, as printed.
    pub fn raw_name(&self) -> (r: FieldName)
        ensures
            r@ == mime_field_name(self.entry()),
    {
        let v: Vec<u8> = match self {
            Field::Type(_) => bytes_to_vec([67u8, 111u8, 110u8, 116u8, 101u8, 110u8, 116u8, 45u8, 84u8, 121u8, 112u8, 101u8].as_slice()),
            Field::TransferEncoding(_) => bytes_to_vec([67u8, 111u8, 110u8, 116u8, 101u8, 110u8, 116u8, 45u8, 84u8, 114u8, 97u8, 110u8, 115u8, 102u8, 101u8, 114u8, 45u8, 69u8, 110u8, 99u8, 111u8, 100u8, 105u8, 110u8, 103u8].as_slice()),
            Field::ID(_) => bytes_to_vec([67u8, 111u8, 110u8, 116u8, 101u8, 110u8, 116u8, 45u8, 73u8, 100u8].as_slice()),
            Field::Description(_) => bytes_to_vec([67u8, 111u8, 110u8, 116u8, 101u8, 110u8, 116u8, 45u8, 68u8, 101u8, 115u8, 99u8, 114u8, 105u8, 112u8, 116u8, 105u8, 111u8, 110u8].as_slice()),
        };
        FieldName(v)
    }
}

/// A MIME field as written, its content type not interpreted.
#[derive(Debug, PartialEq, Eq)]
pub enum NaiveField {
    Type(NaiveType),
    TransferEncoding(Mechanism),
    ID(MessageID),
    Description(Unstructured),
}

pub enum NaiveFieldV {
    Type(NaiveTypeV),
    TransferEncoding(MechanismV),
    ID(MessageIDV),
    Description(Seq<UnstrTokenV>),
}

impl View for NaiveField {
    type V = NaiveFieldV;

    open spec fn view(&self) -> NaiveFieldV {
        match self {
            NaiveField::Type(t) => NaiveFieldV::Type(t@),
            NaiveField::TransferEncoding(m) => NaiveFieldV::TransferEncoding(m@),
            NaiveField::ID(i) => NaiveFieldV::ID(i@),
            NaiveField::Description(d) => NaiveFieldV::Description(d@),
        }
    }
}

/// Why a header field is not a MIME field.
#[derive(Debug, Clone, Copy, PartialEq, Eq, Structural)]
pub enum InvalidField {
    /// The name is not that of a MIME field.
    Name,
    /// The body could not be parsed whole.
    Body,
}

/// The MIME field of a header field name and body: the body is parsed as
/// the name asks, and must be consumed whole.
pub open spec fn spec_naive_field(name: Seq<u8>, b: Seq<u8>) -> Result<NaiveFieldV, InvalidField> {
    let n = b.len() as int;
    match mime_kind(lower(name)) {
        MimeKind::Type => match spec_naive_type(b, 0) {
            Some((j, t)) => if j == n {
                Ok(NaiveFieldV::Type(t))
            } else {
                Err(InvalidField::Body)
            },
            None => Err(InvalidField::Body),
        },
        MimeKind::TransferEncoding => match spec_mechanism(b, 0) {
            Some((j, m)) => if j == n {
                Ok(NaiveFieldV::TransferEncoding(m))
            } else {
                Err(InvalidField::Body)
            },
            None => Err(InvalidField::Body),
        },
        MimeKind::ID => match spec_msg_id(b, 0) {
            Some((j, i)) => if j == n {
                Ok(NaiveFieldV::ID(i))
            } else {
                Err(InvalidField::Body)
            },
            None => Err(InvalidField::Body),
        },
        MimeKind::Description => {
            let (j, u) = spec_unstructured(b, 0);
            if j == n {
                Ok(NaiveFieldV::Description(u))
            } else {
                Err(InvalidField::Body)
            }
        },
        MimeKind::Unknown => Err(InvalidField::Name),
    }
}

pub open spec fn naive_field_result_view(r: Result<NaiveField, InvalidField>) -> Result<NaiveFieldV, InvalidField> {
    match r {
        Ok(f) => Ok(f@),
        Err(e) => Err(e),
    }
}

impl NaiveField {
    /// Parses the body of a header field as the MIME field that its name
    /// names.
    pub fn try_from(f: &FieldRaw) -> (r: Result<NaiveField, InvalidField>)
        ensures
            naive_field_result_view(r) == spec_naive_field(f.name@, f.body@),
    {
        let b = f.body;
        let n = b.len();
        match mime_kind_of_name(f.name.bytes()) {
            MimeKind::Type => match naive_type(b, 0) {
                Some((j, t)) => if j == n {
                    Ok(NaiveField::Type(t))
                } else {
                    Err(InvalidField::Body)
                },
                None => Err(InvalidField::Body),
            },
            MimeKind::TransferEncoding => match mechanism(b, 0) {
                Some((j, m)) => if j == n {
                    Ok(NaiveField::TransferEncoding(m))
                } else {
                    Err(InvalidField::Body)
                },
                None => Err(InvalidField::Body),
            },
            MimeKind::ID => match msg_id(b, 0) {
                Some((j, i)) => if j == n {
                    Ok(NaiveField::ID(i))
                } else {
                    Err(InvalidField::Body)
                },
                None => Err(InvalidField::Body),
            },
            MimeKind::Description => {
                let (j, u) = unstructured(b, 0);
                if j == n {
                    Ok(NaiveField::Description(u))
                } else {
                    Err(InvalidField::Body)
                }
            },
            MimeKind::Unknown => Err(InvalidField::Name),
        }
    }
}

/// The name is that of a MIME field (ignoring ASCII case).
pub fn is_mime_header(name: &FieldName) -> (r: bool)
    ensures
        r == (mime_kind(lower(name@)) != MimeKind::Unknown),
{
    match mime_kind_of_name(name.bytes()) {
        MimeKind::Unknown => false,
        _ => true,
    }
}


// ---------------------------------------------------------------- printing

/// The name a MIME field of a kind is printed with; none for an unknown
/// kind.
pub open spec fn mime_field_name_text(k: MimeKind) -> Seq<u8> {
    match k {
        MimeKind::Type => seq![67u8, 111u8, 110u8, 116u8, 101u8, 110u8, 116u8, 45u8, 84u8, 121u8, 112u8, 101u8],
        MimeKind::TransferEncoding => seq![67u8, 111u8, 110u8, 116u8, 101u8, 110u8, 116u8, 45u8, 84u8, 114u8, 97u8, 110u8, 115u8, 102u8, 101u8, 114u8, 45u8, 69u8, 110u8, 99u8, 111u8, 100u8, 105u8, 110u8, 103u8],
        MimeKind::ID => seq![67u8, 111u8, 110u8, 116u8, 101u8, 110u8, 116u8, 45u8, 73u8, 100u8],
        MimeKind::Description => seq![67u8, 111u8, 110u8, 116u8, 101u8, 110u8, 116u8, 45u8, 68u8, 101u8, 115u8, 99u8, 114u8, 105u8, 112u8, 116u8, 105u8, 111u8, 110u8],
        MimeKind::Unknown => seq![],
    }
}

/// The name a MIME field of a kind is printed with.
pub fn mime_field_name_bytes(k: MimeKind) -> (r: Vec<u8>)
    ensures
        r@ == mime_field_name_text(k),
{
    match k {
        MimeKind::Type => bytes_to_vec([67u8, 111u8, 110u8, 116u8, 101u8, 110u8, 116u8, 45u8, 84u8, 121u8, 112u8, 101u8].as_slice()),
        MimeKind::TransferEncoding => bytes_to_vec([67u8, 111u8, 110u8, 116u8, 101u8, 110u8, 116u8, 45u8, 84u8, 114u8, 97u8, 110u8, 115u8, 102u8, 101u8, 114u8, 45u8, 69u8, 110u8, 99u8, 111u8, 100u8, 105u8, 110u8, 103u8].as_slice()),
        MimeKind::ID => bytes_to_vec([67u8, 111u8, 110u8, 116u8, 101u8, 110u8, 116u8, 45u8, 73u8, 100u8].as_slice()),
        MimeKind::Description => bytes_to_vec([67u8, 111u8, 110u8, 116u8, 101u8, 110u8, 116u8, 45u8, 68u8, 101u8, 115u8, 99u8, 114u8, 105u8, 112u8, 116u8, 105u8, 111u8, 110u8].as_slice()),
        MimeKind::Unknown => Vec::new(),
    }
}

/// MIME field names are printable text without whitespace.
pub proof fn lemma_mime_field_name_graphic(k: MimeKind)
    ensures
        graphic(mime_field_name_text(k)),
{
    let n = mime_field_name_text(k);
    assert forall|i: int| 0 <= i < n.len() implies 0x21 <= #[trigger] n[i] <= 0x7e by {}
}

impl Field {
    /// The kind of this field.
    pub open spec fn kind(&self) -> MimeKind {
        match self {
            Field::Type(_) => MimeKind::Type,
            Field::TransferEncoding(_) => MimeKind::TransferEncoding,
            Field::ID(_) => MimeKind::ID,
            Field::Description(_) => MimeKind::Description,
        }
    }

    /// The text of this field printed with the boundary `b` for a multipart
    /// type.
    pub open spec fn text_with_boundary(&self, b: Seq<u8>) -> Seq<u8> {
        match self {
            Field::Type(t) => field_text(mime_field_name_text(MimeKind::Type), any_type_text(*t, b)),
            Field::TransferEncoding(m) => field_text(
                mime_field_name_text(MimeKind::TransferEncoding),
                m.print_text(),
            ),
            Field::ID(i) => field_text(mime_field_name_text(MimeKind::ID), i.print_text()),
            Field::Description(d) => unstructured_field_text(
                mime_field_name_text(MimeKind::Description),
                d.print_text(),
            ),
        }
    }

    /// The folding whitespace of `text_with_boundary(b)`.
    pub open spec fn marks_with_boundary(&self, b: Seq<u8>) -> Seq<bool> {
        match self {
            Field::Type(t) => field_marks(mime_field_name_text(MimeKind::Type).len(), any_type_marks(*t, b)),
            Field::TransferEncoding(m) => field_marks(
                mime_field_name_text(MimeKind::TransferEncoding).len(),
                m.print_marks(),
            ),
            Field::ID(i) => field_marks(mime_field_name_text(MimeKind::ID).len(), i.print_marks()),
            Field::Description(d) => unstructured_field_marks(
                mime_field_name_text(MimeKind::Description).len(),
                d.print_marks(),
            ),
        }
    }

    /// This field can be printed after `w` with the boundary `b`.
    pub open spec fn printable_with_boundary(&self, w: Seq<u8>, b: Seq<u8>) -> bool {
        let n = mime_field_name_text(self.kind());
        match self {
            Field::Type(t) => any_type_printable(*t, w + n + seq![ascii::COL, ascii::SP], b),
            Field::TransferEncoding(m) => m.printable_after(w + n + seq![ascii::COL, ascii::SP]),
            Field::ID(i) => i.printable_after(w + n + seq![ascii::COL, ascii::SP]),
            Field::Description(d) => d.printable_after(w + n + seq![ascii::COL]),
        }
    }

    /// Prints this field as a header field, a multipart type with the
    /// boundary `b`.
    pub fn print_with_boundary<F: Formatter>(&self, fmt: &mut F, b: &[u8])
        requires
            old(fmt).accepts_writes(),
            self.printable_with_boundary(old(fmt).written(), b@),
        ensures
            final(fmt).accepts_writes(),
            final(fmt).written() == old(fmt).written() + self.text_with_boundary(b@),
            final(fmt).fws_marks() == old(fmt).fws_marks() + self.marks_with_boundary(b@),
    {
        let name = mime_field_name_bytes(match self {
            Field::Type(_) => MimeKind::Type,
            Field::TransferEncoding(_) => MimeKind::TransferEncoding,
            Field::ID(_) => MimeKind::ID,
            Field::Description(_) => MimeKind::Description,
        });
        proof {
            lemma_mime_field_name_graphic(self.kind());
            lemma_graphic_allowed(fmt.written(), name@);
        }
        match self {
            Field::Type(t) => {
                let ghost w0 = fmt.written();
                let ghost m0 = fmt.fws_marks();
                fmt.write_bytes(name.as_slice());
                let colon: [u8; 1] = [ascii::COL];
                assert(colon@ == seq![ascii::COL]);
                fmt.write_bytes(colon.as_slice());
                fmt.write_fws();
                assert(fmt.written() =~= w0 + name@ + seq![ascii::COL, ascii::SP]);
                t.print_with_boundary(fmt, b);
                fmt.write_crlf();
                assert(fmt.written() =~= w0 + self.text_with_boundary(b@));
                assert(fmt.fws_marks() =~= m0 + self.marks_with_boundary(b@));
            },
            Field::TransferEncoding(m) => print(fmt, name.as_slice(), m),
            Field::ID(i) => print(fmt, name.as_slice(), i),
            Field::Description(d) => print_unstructured(fmt, name.as_slice(), d),
        }
    }
}


/// A MIME field name is read as the kind it names, in any case: the name a
/// kind is printed with, and any name equal to it but for case, reads back
/// as that kind.
pub proof fn law_mime_field_name_kind(name: Seq<u8>, k: MimeKind)
    requires
        k != MimeKind::Unknown,
        lower(name) == lower(mime_field_name_text(k)),
    ensures
        mime_kind(lower(name)) == k,
{
    let n = mime_field_name_text(k);
    let l = lower(n);
    assert(l.len() == n.len());
    match k {
        MimeKind::Type => assert(l =~= seq![99u8, 111u8, 110u8, 116u8, 101u8, 110u8, 116u8, 45u8, 116u8, 121u8, 112u8, 101u8]),
        MimeKind::TransferEncoding => assert(l =~= seq![99u8, 111u8, 110u8, 116u8, 101u8, 110u8, 116u8, 45u8, 116u8, 114u8, 97u8, 110u8, 115u8, 102u8, 101u8, 114u8, 45u8, 101u8, 110u8, 99u8, 111u8, 100u8, 105u8, 110u8, 103u8]),
        MimeKind::ID => assert(l =~= seq![99u8, 111u8, 110u8, 116u8, 101u8, 110u8, 116u8, 45u8, 105u8, 100u8]),
        MimeKind::Description => assert(l =~= seq![99u8, 111u8, 110u8, 116u8, 101u8, 110u8, 116u8, 45u8, 100u8, 101u8, 115u8, 99u8, 114u8, 105u8, 112u8, 116u8, 105u8, 111u8, 110u8]),
        MimeKind::Unknown => {},
    }
}

/// Only the MIME field names are read as MIME kinds: a name read as a kind
/// other than Unknown is, up to case, the name that kind is printed with.
pub proof fn law_mime_kind_named(name: Seq<u8>)
    ensures
        mime_kind(lower(name)) != MimeKind::Unknown ==> lower(name) == lower(
            mime_field_name_text(mime_kind(lower(name))),
        ),
{
    let k = mime_kind(lower(name));
    if k != MimeKind::Unknown {
        let n = mime_field_name_text(k);
        assert(lower(n).len() == n.len());
        assert(lower(name) =~= lower(n));
    }
}

} // verus!
