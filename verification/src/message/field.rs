//! The header fields of a top-level message: IMF fields (RFC 5322), MIME
//! fields (RFC 2045) and other fields, kept as unstructured text.
use vstd::prelude::*;
use crate::dup::{Duplicate, seq_view};
use crate::header::{self, FieldName, FieldRaw, FieldRawV, UnstructuredV, spec_unstructured_field};
use crate::imf::{self, PartialImf, PartialImfV, spec_add_field, empty_partial_imf, spec_to_imf};
use crate::imf::field::{field_panics, spec_field, imf_field_name, InvalidField as ImfInvalid};
use crate::mime::{self, NaiveMIME, NaiveMIMEV, spec_naive_add_field};
use crate::mime::field::{spec_naive_field, mime_field_name, InvalidField as MimeInvalid};
use crate::text::ascii;
use crate::print::{Formatter, Print};

verus! {

/// A header field of a top-level message, with the raw bytes of its body.
#[derive(Debug, PartialEq, Eq)]
#[allow(inconsistent_fields)]
pub enum MessageField {
    MIME { f: mime::field::Field, raw_body: Vec<u8> },
    Imf { f: imf::field::Field, raw_body: Vec<u8> },
    /// A field whose name is neither that of an IMF nor of a MIME field.
    Unstructured(header::Unstructured),
}

#[allow(inconsistent_fields)]
pub enum MessageFieldV {
    MIME { f: mime::field::FieldV, raw_body: Seq<u8> },
    Imf { f: imf::field::FieldV, raw_body: Seq<u8> },
    Unstructured(UnstructuredV),
}

impl View for MessageField {
    type V = MessageFieldV;

    open spec fn view(&self) -> MessageFieldV {
        match self {
            MessageField::MIME { f, raw_body } => MessageFieldV::MIME { f: f@, raw_body: raw_body@ },
            MessageField::Imf { f, raw_body } => MessageFieldV::Imf { f: f@, raw_body: raw_body@ },
            MessageField::Unstructured(u) => MessageFieldV::Unstructured(u@),
        }
    }
}

/// The name of a header field of a message, as printed.
pub open spec fn message_field_name(f: MessageFieldV) -> Seq<u8> {
    match f {
        MessageFieldV::MIME { f, .. } => mime_field_name(mime_field_entry(f)),
        MessageFieldV::Imf { f, .. } => imf_field_name(f),
        MessageFieldV::Unstructured(u) => u.name,
    }
}

pub open spec fn mime_field_entry(f: mime::field::FieldV) -> mime::field::Entry {
    match f {
        mime::field::FieldV::Type(_) => mime::field::Entry::Type,
        mime::field::FieldV::TransferEncoding(_) => mime::field::Entry::TransferEncoding,
        mime::field::FieldV::ID(_) => mime::field::Entry::ID,
        mime::field::FieldV::Description(_) => mime::field::Entry::Description,
    }
}

/// The raw body of a header field of a message.
pub open spec fn message_field_body(f: MessageFieldV) -> Seq<u8> {
    match f {
        MessageFieldV::MIME { raw_body, .. } => raw_body,
        MessageFieldV::Imf { raw_body, .. } => raw_body,
        MessageFieldV::Unstructured(u) => crate::text::misc_token::unstructured_text(u.body),
    }
}

impl MessageField {
    /// The name of this field, as printed.
    pub fn raw_name(&self) -> (r: FieldName)
        ensures
            r@ == message_field_name(self@),
    {
        match self {
            MessageField::MIME { f, .. } => {
                proof {
                    assert(mime_field_entry(f@) == f.entry());
                }
                f.raw_name()
            },
            MessageField::Imf { f, .. } => f.raw_name(),
            MessageField::Unstructured(u) => u.0.duplicate(),
        }
    }

    /// The raw body of this field.
    pub fn raw_body(&self) -> (r: Vec<u8>)
        ensures
            r@ == message_field_body(self@),
    {
        match self {
            MessageField::MIME { raw_body, .. } => raw_body.duplicate(),
            MessageField::Imf { raw_body, .. } => raw_body.duplicate(),
            MessageField::Unstructured(u) => u.1.text(),
        }
    }
}

/// What a header field of a message stands for in its parsed header.
#[derive(Debug, PartialEq, Eq)]
#[allow(inconsistent_fields)]
pub enum MessageEntry {
    MIME { e: mime::field::Entry, raw_body: Vec<u8> },
    Imf { e: imf::field::Entry, raw_body: Vec<u8> },
    /// A field whose name is neither that of an IMF nor of a MIME field.
    Unstructured(header::Unstructured),
}

#[allow(inconsistent_fields)]
pub enum MessageEntryV {
    MIME { e: mime::field::Entry, raw_body: Seq<u8> },
    Imf { e: imf::field::Entry, raw_body: Seq<u8> },
    Unstructured(UnstructuredV),
}

impl View for MessageEntry {
    type V = MessageEntryV;

    open spec fn view(&self) -> MessageEntryV {
        match self {
            MessageEntry::MIME { e, raw_body } => MessageEntryV::MIME { e: *e, raw_body: raw_body@ },
            MessageEntry::Imf { e, raw_body } => MessageEntryV::Imf { e: *e, raw_body: raw_body@ },
            MessageEntry::Unstructured(u) => MessageEntryV::Unstructured(u@),
        }
    }
}

/// The fields of a message gathered so far: the MIME fields, the IMF
/// header under construction, and the entries in order.
pub struct FieldsState {
    pub mime: NaiveMIMEV,
    pub imf: PartialImfV,
    pub entries: Seq<MessageEntryV>,
}

pub open spec fn initial_fields_state() -> FieldsState {
    FieldsState {
        mime: NaiveMIMEV { ctype: None, transfer_encoding: None, id: None, description: None },
        imf: empty_partial_imf(),
        entries: seq![],
    }
}

/// Takes one header field into account: a MIME field (kept if it is the
/// first of its kind), else an IMF field (added to the header), else an
/// unstructured field. Fields whose body does not parse, and IMF fields to
/// be discarded, are dropped.
#[verifier::opaque]
pub open spec fn spec_field_step(st: FieldsState, f: FieldRawV) -> FieldsState {
    match spec_naive_field(f.name, f.body) {
        Ok(mf) => {
            let (m, e) = spec_naive_add_field(st.mime, mf);
            FieldsState {
                mime: m,
                entries: match e {
                    Some(e) => st.entries.push(MessageEntryV::MIME { e, raw_body: f.body }),
                    None => st.entries,
                },
                ..st
            }
        },
        Err(MimeInvalid::Body) => st,
        Err(MimeInvalid::Name) => match spec_field(f.name, f.body) {
            Ok(imff) => {
                let (p, r) = spec_add_field(st.imf, imff);
                FieldsState {
                    imf: p,
                    entries: match r {
                        Ok(e) => st.entries.push(MessageEntryV::Imf { e, raw_body: f.body }),
                        Err(_) => st.entries,
                    },
                    ..st
                }
            },
            Err(ImfInvalid::Name) => match spec_unstructured_field(f) {
                Some(u) => FieldsState {
                    entries: st.entries.push(MessageEntryV::Unstructured(u)),
                    ..st
                },
                None => st,
            },
            Err(_) => st,
        },
    }
}

/// The fields of a message, taken into account in order.
pub open spec fn spec_collect_fields(fs: Seq<FieldRawV>) -> FieldsState
    decreases fs.len(),
{
    if fs.len() == 0 {
        initial_fields_state()
    } else {
        spec_field_step(spec_collect_fields(fs.drop_last()), fs.last())
    }
}

/// No field has a body that its parser has no answer on.
pub open spec fn no_field_panics(fs: Seq<FieldRawV>) -> bool {
    forall|i: int| 0 <= i < fs.len() ==> !field_panics(#[trigger] fs[i].name, fs[i].body)
}

/// Takes one header field into account; see `spec_field_step`.
fn field_step(
    mime: &mut NaiveMIME,
    imf: &mut PartialImf,
    entries: &mut Vec<MessageEntry>,
    f: &FieldRaw,
)
    requires
        !field_panics(f.name@, f.body@),
    ensures
        spec_field_step(
            FieldsState { mime: old(mime)@, imf: old(imf)@, entries: seq_view(old(entries)@) },
            f@,
        ) == (FieldsState { mime: final(mime)@, imf: final(imf)@, entries: seq_view(final(entries)@) }),
{
    reveal(spec_field_step);
    let ghost e0 = seq_view(entries@);
    match mime::field::NaiveField::try_from(f) {
        Ok(mimef) => {
            match mime.add_field(mimef) {
                Some(entry) => {
                    entries.push(MessageEntry::MIME { e: entry, raw_body: ascii::bytes_to_vec(f.body) });
                    assert(seq_view(entries@) =~= e0.push(entries@.last()@));
                },
                None => {},
            }
        },
        Err(MimeInvalid::Body) => {},
        Err(MimeInvalid::Name) => {
            match imf::field::Field::try_from(f) {
                Ok(imff) => {
                    match imf.add_field(imff) {
                        Ok(entry) => {
                            entries.push(
                                MessageEntry::Imf { e: entry, raw_body: ascii::bytes_to_vec(f.body) },
                            );
                            assert(seq_view(entries@) =~= e0.push(entries@.last()@));
                        },
                        Err(_) => {},
                    }
                },
                Err(ImfInvalid::Name) => {
                    match header::Unstructured::from_raw(f) {
                        Some(u) => {
                            entries.push(MessageEntry::Unstructured(u));
                            assert(seq_view(entries@) =~= e0.push(entries@.last()@));
                        },
                        None => {},
                    }
                },
                Err(_) => {},
            }
        },
    }
}

/// The fields of a top-level message, gathered.
#[derive(Debug, PartialEq, Eq)]
pub struct NaiveMessageFields {
    pub mime: NaiveMIME,
    pub imf: imf::Imf,
    pub entries: Vec<MessageEntry>,
}

impl NaiveMessageFields {
    /// Gathers the header fields of a message, in order.
    pub fn from_iter(fields: &Vec<FieldRaw>) -> (r: NaiveMessageFields)
        requires
            no_field_panics(seq_view(fields@)),
        ensures
            r.mime@ == spec_collect_fields(seq_view(fields@)).mime,
            r.imf@ == spec_to_imf(spec_collect_fields(seq_view(fields@)).imf),
            seq_view(r.entries@) == spec_collect_fields(seq_view(fields@)).entries,
    {
        let ghost fv = seq_view(fields@);
        let mut mime = NaiveMIME::default();
        let mut imf = PartialImf::default();
        let mut entries: Vec<MessageEntry> = Vec::new();
        let mut i: usize = 0;
        assert(fv.take(0) =~= Seq::<FieldRawV>::empty());
        assert(seq_view(entries@) =~= Seq::<MessageEntryV>::empty());
        while i < fields.len()
            invariant
                i <= fields.len(),
                fv == seq_view(fields@),
                no_field_panics(fv),
                mime@ == spec_collect_fields(fv.take(i as int)).mime,
                imf@ == spec_collect_fields(fv.take(i as int)).imf,
                seq_view(entries@) == spec_collect_fields(fv.take(i as int)).entries,
            decreases fields.len() - i,
        {
            let f = &fields[i];
            proof {
                assert(fv.take(i + 1).drop_last() =~= fv.take(i as int));
                assert(fv.take(i + 1).last() == f@);
                assert(!field_panics(fv[i as int].name, fv[i as int].body));
            }
            field_step(&mut mime, &mut imf, &mut entries, f);
            i += 1;
        }
        assert(fv.take(fields.len() as int) =~= fv);
        NaiveMessageFields { mime, imf: imf.to_imf(), entries }
    }
}


// ---------------------------------------------------------------- printing

impl MessageField {
    /// The text of this field printed with the boundary `b` for a multipart
    /// content type.
    pub open spec fn text_with_boundary(&self, b: Seq<u8>) -> Seq<u8> {
        match self {
            MessageField::MIME { f, .. } => f.text_with_boundary(b),
            MessageField::Imf { f, .. } => f.print_text(),
            MessageField::Unstructured(u) => u.print_text(),
        }
    }

    /// The folding whitespace of `text_with_boundary(b)`.
    pub open spec fn marks_with_boundary(&self, b: Seq<u8>) -> Seq<bool> {
        match self {
            MessageField::MIME { f, .. } => f.marks_with_boundary(b),
            MessageField::Imf { f, .. } => f.print_marks(),
            MessageField::Unstructured(u) => u.print_marks(),
        }
    }

    /// This field can be printed after `w` with the boundary `b`.
    pub open spec fn printable_with_boundary(&self, w: Seq<u8>, b: Seq<u8>) -> bool {
        match self {
            MessageField::MIME { f, .. } => f.printable_with_boundary(w, b),
            MessageField::Imf { f, .. } => f.printable_after(w),
            MessageField::Unstructured(u) => u.printable_after(w),
        }
    }

    /// Prints this field as a header field: an IMF or MIME field as it is
    /// interpreted (a multipart content type with the boundary `b`), another
    /// field as unstructured text.
    pub fn print_with_boundary<F: Formatter>(&self, fmt: &mut F, b: &[u8])
        requires
            old(fmt).accepts_writes(),
            self.printable_with_boundary(old(fmt).written(), b@),
        ensures
            final(fmt).accepts_writes(),
            final(fmt).written() == old(fmt).written() + self.text_with_boundary(b@),
            final(fmt).fws_marks() == old(fmt).fws_marks() + self.marks_with_boundary(b@),
    {
        match self {
            MessageField::MIME { f, .. } => f.print_with_boundary(fmt, b),
            MessageField::Imf { f, .. } => f.print(fmt),
            MessageField::Unstructured(u) => u.print(fmt),
        }
    }
}

} // verus!
