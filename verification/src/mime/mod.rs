//! MIME headers (RFC 2045, RFC 2046).
pub mod charset;
pub mod mechanism;
pub mod types;
pub mod field;

use vstd::prelude::*;
use crate::dup::{Duplicate, duplicate_vec, duplicate_opt, opt_view};
use crate::imf::identification::{MessageID, MessageIDV};
use crate::mime::field::{Entry, Field, FieldV, NaiveField, NaiveFieldV};
use crate::mime::mechanism::{Mechanism, MechanismV, identity_encoding, is_identity_encoding};
use crate::mime::types::{AnyType, AnyTypeV, Binary, BinaryV, Message, MessageV, MessageSubtype, Multipart, MultipartV, NaiveType, NaiveTypeV, Text, TextV, TextSubtypeV, any_type_of};
use crate::mime::charset::EmailCharset;
use crate::text::misc_token::{Unstructured, UnstrTokenV};

verus! {

impl Duplicate for Mechanism {
    fn duplicate(&self) -> (r: Mechanism) {
        self.copy()
    }
}

impl Duplicate for Multipart {
    fn duplicate(&self) -> (r: Multipart) {
        Multipart {
            subtype: self.subtype.duplicate(),
            boundary: match &self.boundary {
                Some(b) => Some(b.duplicate()),
                None => None,
            },
            other_params: duplicate_vec(&self.other_params),
        }
    }
}

impl Duplicate for Message {
    fn duplicate(&self) -> (r: Message) {
        Message { subtype: self.subtype, params: duplicate_vec(&self.params) }
    }
}

impl Duplicate for Text {
    fn duplicate(&self) -> (r: Text) {
        Text {
            subtype: self.subtype.duplicate(),
            charset: self.charset,
            other_params: duplicate_vec(&self.other_params),
        }
    }
}

impl Duplicate for Binary {
    fn duplicate(&self) -> (r: Binary) {
        Binary { ctype: self.ctype.duplicate() }
    }
}

/// The fields that every MIME entity has, whatever its type.
#[derive(Debug, PartialEq, Eq)]
pub struct CommonMIME {
    pub transfer_encoding: Mechanism,
    pub id: Option<MessageID>,
    pub description: Option<Unstructured>,
}

pub struct CommonMIMEV {
    pub transfer_encoding: MechanismV,
    pub id: Option<MessageIDV>,
    pub description: Option<Seq<UnstrTokenV>>,
}

impl View for CommonMIME {
    type V = CommonMIMEV;

    open spec fn view(&self) -> CommonMIMEV {
        CommonMIMEV {
            transfer_encoding: self.transfer_encoding@,
            id: opt_view(self.id),
            description: opt_view(self.description),
        }
    }
}

impl Duplicate for CommonMIME {
    fn duplicate(&self) -> (r: CommonMIME) {
        CommonMIME {
            transfer_encoding: self.transfer_encoding.copy(),
            id: duplicate_opt(&self.id),
            description: duplicate_opt(&self.description),
        }
    }
}

impl Default for CommonMIME {
    /// 7bit, no identifier, no description.
    fn default() -> (r: CommonMIME)
        ensures
            r@ == (CommonMIMEV { transfer_encoding: MechanismV::_7Bit, id: None, description: None }),
    {
        CommonMIME { transfer_encoding: Mechanism::_7Bit, id: None, description: None }
    }
}

/// A MIME entity of content type `T`. When `T` is `Multipart` or `Message`,
/// the transfer encoding is 7bit, 8bit or binary.
#[derive(Debug, PartialEq, Eq)]
pub struct MIME<T> {
    pub ctype: T,
    pub fields: CommonMIME,
}

pub struct MIMEV<T> {
    pub ctype: T,
    pub fields: CommonMIMEV,
}

impl<T: View> View for MIME<T> {
    type V = MIMEV<T::V>;

    open spec fn view(&self) -> MIMEV<T::V> {
        MIMEV { ctype: self.ctype@, fields: self.fields@ }
    }
}

/// A MIME entity of any content type.
#[derive(Debug, PartialEq, Eq)]
pub enum AnyMIME {
    Mult(MIME<Multipart>),
    Msg(MIME<Message>),
    Txt(MIME<Text>),
    Bin(MIME<Binary>),
}

pub enum AnyMIMEV {
    Mult(MIMEV<MultipartV>),
    Msg(MIMEV<MessageV>),
    Txt(MIMEV<TextV>),
    Bin(MIMEV<BinaryV>),
}

impl View for AnyMIME {
    type V = AnyMIMEV;

    open spec fn view(&self) -> AnyMIMEV {
        match self {
            AnyMIME::Mult(m) => AnyMIMEV::Mult(m@),
            AnyMIME::Msg(m) => AnyMIMEV::Msg(m@),
            AnyMIME::Txt(m) => AnyMIMEV::Txt(m@),
            AnyMIME::Bin(m) => AnyMIMEV::Bin(m@),
        }
    }
}

/// The content type of an entity.
pub open spec fn mime_ctype(m: AnyMIMEV) -> AnyTypeV {
    match m {
        AnyMIMEV::Mult(m) => AnyTypeV::Multipart(m.ctype),
        AnyMIMEV::Msg(m) => AnyTypeV::Message(m.ctype),
        AnyMIMEV::Txt(m) => AnyTypeV::Text(m.ctype),
        AnyMIMEV::Bin(m) => AnyTypeV::Binary(m.ctype),
    }
}

/// The common fields of an entity.
pub open spec fn mime_common(m: AnyMIMEV) -> CommonMIMEV {
    match m {
        AnyMIMEV::Mult(m) => m.fields,
        AnyMIMEV::Msg(m) => m.fields,
        AnyMIMEV::Txt(m) => m.fields,
        AnyMIMEV::Bin(m) => m.fields,
    }
}

/// The field of an entity that an entry names, when it has one: the type
/// and the transfer encoding are always there.
pub open spec fn spec_mime_get_field(m: AnyMIMEV, e: Entry) -> Option<FieldV> {
    match e {
        Entry::Type => Some(FieldV::Type(mime_ctype(m))),
        Entry::TransferEncoding => Some(FieldV::TransferEncoding(mime_common(m).transfer_encoding)),
        Entry::ID => match mime_common(m).id {
            Some(i) => Some(FieldV::ID(i)),
            None => None,
        },
        Entry::Description => match mime_common(m).description {
            Some(d) => Some(FieldV::Description(d)),
            None => None,
        },
    }
}

/// The entries of an entity: type, transfer encoding, and the identifier
/// and the description when present.
pub open spec fn spec_mime_entries(m: AnyMIMEV) -> Seq<Entry> {
    seq![Entry::Type, Entry::TransferEncoding] + (if mime_common(m).id is Some {
        seq![Entry::ID]
    } else {
        seq![]
    }) + (if mime_common(m).description is Some {
        seq![Entry::Description]
    } else {
        seq![]
    })
}

impl AnyMIME {
    /// The content type of this entity.
    pub fn ctype(&self) -> (r: AnyType)
        ensures
            r@ == mime_ctype(self@),
    {
        match self {
            AnyMIME::Mult(m) => AnyType::Multipart(m.ctype.duplicate()),
            AnyMIME::Msg(m) => AnyType::Message(m.ctype.duplicate()),
            AnyMIME::Txt(m) => AnyType::Text(m.ctype.duplicate()),
            AnyMIME::Bin(m) => AnyType::Binary(m.ctype.duplicate()),
        }
    }

    /// The common fields of this entity.
    pub fn common(&self) -> (r: &CommonMIME)
        ensures
            r@ == mime_common(self@),
    {
        match self {
            AnyMIME::Mult(v) => &v.fields,
            AnyMIME::Msg(v) => &v.fields,
            AnyMIME::Txt(v) => &v.fields,
            AnyMIME::Bin(v) => &v.fields,
        }
    }

    /// The field that an entry names, when this entity has it.
    pub fn get_field(&self, f: Entry) -> (r: Option<Field>)
        ensures
            opt_view(r) == spec_mime_get_field(self@, f),
    {
        match f {
            Entry::Type => Some(Field::Type(self.ctype())),
            Entry::TransferEncoding => Some(
                Field::TransferEncoding(self.common().transfer_encoding.copy()),
            ),
            Entry::ID => match &self.common().id {
                Some(i) => Some(Field::ID(i.duplicate())),
                None => None,
            },
            Entry::Description => match &self.common().description {
                Some(d) => Some(Field::Description(d.duplicate())),
                None => None,
            },
        }
    }

    /// The entries of this entity, each once.
    pub fn field_entries(&self) -> (r: Vec<Entry>)
        ensures
            r@ == spec_mime_entries(self@),
    {
        let mut fs: Vec<Entry> = Vec::new();
        fs.push(Entry::Type);
        fs.push(Entry::TransferEncoding);
        let common = self.common();
        let ghost f0 = fs@;
        if common.id.is_some() {
            fs.push(Entry::ID);
        }
        let ghost f1 = fs@;
        if common.description.is_some() {
            fs.push(Entry::Description);
        }
        assert(fs@ =~= spec_mime_entries(self@));
        fs
    }

    pub fn from_multipart(m: MIME<Multipart>) -> (r: AnyMIME)
        ensures
            r@ == AnyMIMEV::Mult(m@),
    {
        AnyMIME::Mult(m)
    }

    pub fn from_message(m: MIME<Message>) -> (r: AnyMIME)
        ensures
            r@ == AnyMIMEV::Msg(m@),
    {
        AnyMIME::Msg(m)
    }

    pub fn from_text(m: MIME<Text>) -> (r: AnyMIME)
        ensures
            r@ == AnyMIMEV::Txt(m@),
    {
        AnyMIME::Txt(m)
    }

    pub fn from_binary(m: MIME<Binary>) -> (r: AnyMIME)
        ensures
            r@ == AnyMIMEV::Bin(m@),
    {
        AnyMIME::Bin(m)
    }

    /// The entity of a content type and the other fields of its header.
    pub fn from_pair(at: AnyType, fields: CommonMIME) -> (r: AnyMIME)
        ensures
            mime_ctype(r@) == at@,
            mime_common(r@) == fields@,
    {
        match at {
            AnyType::Multipart(m) => AnyMIME::Mult(MIME { ctype: m, fields }),
            AnyType::Message(m) => AnyMIME::Msg(MIME { ctype: m, fields }),
            AnyType::Text(m) => AnyMIME::Txt(MIME { ctype: m, fields }),
            AnyType::Binary(m) => AnyMIME::Bin(MIME { ctype: m, fields }),
        }
    }
}

/// The type of an entity whose header gives none (RFC 2046 section 5.1.5:
/// message/rfc822 in a multipart/digest, text/plain elsewhere).
#[derive(Debug, Clone, Copy, PartialEq, Eq, Structural)]
pub enum DefaultType {
    Generic,
    Digest,
}

impl Default for DefaultType {
    fn default() -> (r: DefaultType)
        ensures
            r == DefaultType::Generic,
    {
        DefaultType::Generic
    }
}

pub open spec fn default_type_of(d: DefaultType) -> AnyTypeV {
    match d {
        DefaultType::Generic => AnyTypeV::Text(
            TextV {
                subtype: TextSubtypeV::Plain,
                charset: EmailCharset::US_ASCII,
                other_params: seq![],
            },
        ),
        DefaultType::Digest => AnyTypeV::Message(
            MessageV { subtype: MessageSubtype::RFC822, params: seq![] },
        ),
    }
}

impl DefaultType {
    /// The content type that this default stands for.
    pub fn to_type(self) -> (r: AnyType)
        ensures
            r@ == default_type_of(self),
    {
        match self {
            DefaultType::Generic => AnyType::Text(Text::default()),
            DefaultType::Digest => AnyType::Message(Message::default()),
        }
    }
}

/// The MIME fields of an entity as written, gathered field by field.
#[derive(Debug, PartialEq, Eq)]
pub struct NaiveMIME {
    ctype: Option<NaiveType>,
    transfer_encoding: Option<Mechanism>,
    id: Option<MessageID>,
    description: Option<Unstructured>,
}

pub struct NaiveMIMEV {
    pub ctype: Option<NaiveTypeV>,
    pub transfer_encoding: Option<MechanismV>,
    pub id: Option<MessageIDV>,
    pub description: Option<Seq<UnstrTokenV>>,
}

impl View for NaiveMIME {
    type V = NaiveMIMEV;

    closed spec fn view(&self) -> NaiveMIMEV {
        NaiveMIMEV {
            ctype: opt_view(self.ctype),
            transfer_encoding: opt_view(self.transfer_encoding),
            id: opt_view(self.id),
            description: opt_view(self.description),
        }
    }
}

impl Default for NaiveMIME {
    /// No field yet.
    fn default() -> (r: NaiveMIME)
        ensures
            r@ == (NaiveMIMEV { ctype: None, transfer_encoding: None, id: None, description: None }),
    {
        NaiveMIME { ctype: None, transfer_encoding: None, id: None, description: None }
    }
}

/// Adds a field to the fields gathered so far: the first value of each
/// field is kept, a later one is dropped. The entry of the field when it is
/// kept.
pub open spec fn spec_naive_add_field(p: NaiveMIMEV, f: NaiveFieldV) -> (NaiveMIMEV, Option<Entry>) {
    match f {
        NaiveFieldV::Type(t) => if p.ctype is None {
            (NaiveMIMEV { ctype: Some(t), ..p }, Some(Entry::Type))
        } else {
            (p, None)
        },
        NaiveFieldV::TransferEncoding(m) => if p.transfer_encoding is None {
            (NaiveMIMEV { transfer_encoding: Some(m), ..p }, Some(Entry::TransferEncoding))
        } else {
            (p, None)
        },
        NaiveFieldV::ID(i) => if p.id is None {
            (NaiveMIMEV { id: Some(i), ..p }, Some(Entry::ID))
        } else {
            (p, None)
        },
        NaiveFieldV::Description(d) => if p.description is None {
            (NaiveMIMEV { description: Some(d), ..p }, Some(Entry::Description))
        } else {
            (p, None)
        },
    }
}

/// The entity that the gathered fields describe: the written type
/// interpreted, or the default; the transfer encoding restricted to 7bit,
/// 8bit or binary for multipart and message/rfc822 entities.
pub open spec fn spec_to_interpreted(p: NaiveMIMEV, d: DefaultType) -> AnyMIMEV {
    let typ = match p.ctype {
        Some(nt) => any_type_of(nt),
        None => default_type_of(d),
    };
    let te = match p.transfer_encoding {
        Some(m) => m,
        None => MechanismV::_7Bit,
    };
    let fields = CommonMIMEV { transfer_encoding: te, id: p.id, description: p.description };
    let restricted = CommonMIMEV { transfer_encoding: identity_encoding(te), ..fields };
    match typ {
        AnyTypeV::Multipart(c) => AnyMIMEV::Mult(MIMEV { ctype: c, fields: restricted }),
        AnyTypeV::Message(c) => AnyMIMEV::Msg(
            MIMEV {
                ctype: c,
                fields: if c.subtype == MessageSubtype::RFC822 {
                    restricted
                } else {
                    fields
                },
            },
        ),
        AnyTypeV::Text(c) => AnyMIMEV::Txt(MIMEV { ctype: c, fields }),
        AnyTypeV::Binary(c) => AnyMIMEV::Bin(MIMEV { ctype: c, fields }),
    }
}

/// Sets an absent value and says so; keeps a present one.
fn set_opt<T>(o: &mut Option<T>, x: T) -> (r: bool)
    ensures
        match *old(o) {
            None => *final(o) == Some(x) && r,
            Some(_) => *final(o) == *old(o) && !r,
        },
{
    if o.is_none() {
        *o = Some(x);
        true
    } else {
        false
    }
}

impl NaiveMIME {
    /// Adds a field; see `spec_naive_add_field`.
    pub fn add_field(&mut self, f: NaiveField) -> (r: Option<Entry>)
        ensures
            (final(self)@, r) == spec_naive_add_field(old(self)@, f@),
    {
        match f {
            NaiveField::Type(ctype) => if set_opt(&mut self.ctype, ctype) {
                Some(Entry::Type)
            } else {
                None
            },
            NaiveField::TransferEncoding(enc) => if set_opt(&mut self.transfer_encoding, enc) {
                Some(Entry::TransferEncoding)
            } else {
                None
            },
            NaiveField::ID(id) => if set_opt(&mut self.id, id) {
                Some(Entry::ID)
            } else {
                None
            },
            NaiveField::Description(desc) => if set_opt(&mut self.description, desc) {
                Some(Entry::Description)
            } else {
                None
            },
        }
    }

    /// The entity that the gathered fields describe; see
    /// `spec_to_interpreted`.
    pub fn to_interpreted(self, default_type: DefaultType) -> (r: AnyMIME)
        ensures
            r@ == spec_to_interpreted(self@, default_type),
    {
        let typ = match &self.ctype {
            Some(nt) => nt.to_type(),
            None => default_type.to_type(),
        };
        let transfer_encoding = match self.transfer_encoding {
            Some(m) => m,
            None => Mechanism::default(),
        };
        let mut fields = CommonMIME { transfer_encoding, id: self.id, description: self.description };
        match typ {
            AnyType::Multipart(ctype) => {
                fields.transfer_encoding = fields.transfer_encoding.to_multipart_encoding();
                AnyMIME::Mult(MIME { ctype, fields })
            },
            AnyType::Message(ctype) => {
                if let MessageSubtype::RFC822 = ctype.subtype {
                    fields.transfer_encoding = fields.transfer_encoding.to_message_rfc822_encoding();
                }
                AnyMIME::Msg(MIME { ctype, fields })
            },
            AnyType::Text(ctype) => AnyMIME::Txt(MIME { ctype, fields }),
            AnyType::Binary(ctype) => AnyMIME::Bin(MIME { ctype, fields }),
        }
    }
}

// ---------------------------------------------------------------- laws

/// Multipart and message/rfc822 entities only have the 7bit, 8bit or binary
/// transfer encoding.
pub proof fn law_interpreted_encoding(p: NaiveMIMEV, d: DefaultType)
    ensures
        match spec_to_interpreted(p, d) {
            AnyMIMEV::Mult(m) => is_identity_encoding(m.fields.transfer_encoding),
            AnyMIMEV::Msg(m) => m.ctype.subtype == MessageSubtype::RFC822 ==> is_identity_encoding(
                m.fields.transfer_encoding,
            ),
            _ => true,
        },
{
}

/// Interpretation keeps the identifier and the description, and uses the
/// default type when the header gives none.
pub proof fn law_interpreted_keeps_fields(p: NaiveMIMEV, d: DefaultType)
    ensures
        mime_common(spec_to_interpreted(p, d)).id == p.id,
        mime_common(spec_to_interpreted(p, d)).description == p.description,
        p.ctype is None ==> mime_ctype(spec_to_interpreted(p, d)) == default_type_of(d),
        p.ctype matches Some(nt) ==> mime_ctype(spec_to_interpreted(p, d)) == any_type_of(nt),
{
}

/// The first value of a MIME field is kept: a field added again is dropped
/// and changes nothing.
pub proof fn law_naive_first_value_wins(p: NaiveMIMEV, f: NaiveFieldV)
    requires
        match f {
            NaiveFieldV::Type(_) => p.ctype is Some,
            NaiveFieldV::TransferEncoding(_) => p.transfer_encoding is Some,
            NaiveFieldV::ID(_) => p.id is Some,
            NaiveFieldV::Description(_) => p.description is Some,
        },
    ensures
        spec_naive_add_field(p, f) == (p, None::<Entry>),
{
}

/// Fields added one after another to the fields gathered so far.
pub open spec fn spec_naive_add_fields(p: NaiveMIMEV, fs: Seq<NaiveFieldV>) -> NaiveMIMEV
    decreases fs.len(),
{
    if fs.len() == 0 {
        p
    } else {
        spec_naive_add_field(spec_naive_add_fields(p, fs.drop_last()), fs.last()).0
    }
}

/// What an entity reads back of a field added to it: the type
/// interpreted, and the transfer encoding restricted to 7bit, 8bit or
/// binary for multipart and message/rfc822 entities.
pub open spec fn naive_field_read(f: NaiveFieldV, m: AnyMIMEV) -> FieldV {
    match f {
        NaiveFieldV::Type(nt) => FieldV::Type(any_type_of(nt)),
        NaiveFieldV::TransferEncoding(x) => FieldV::TransferEncoding(
            match m {
                AnyMIMEV::Mult(_) => identity_encoding(x),
                AnyMIMEV::Msg(c) => if c.ctype.subtype == MessageSubtype::RFC822 {
                    identity_encoding(x)
                } else {
                    x
                },
                _ => x,
            },
        ),
        NaiveFieldV::ID(i) => FieldV::ID(i),
        NaiveFieldV::Description(d) => FieldV::Description(d),
    }
}

/// The value that a gathered field set keeps for the kind of field `f`.
pub open spec fn naive_slot_is(p: NaiveMIMEV, f: NaiveFieldV) -> bool {
    match f {
        NaiveFieldV::Type(t) => p.ctype == Some(t),
        NaiveFieldV::TransferEncoding(x) => p.transfer_encoding == Some(x),
        NaiveFieldV::ID(i) => p.id == Some(i),
        NaiveFieldV::Description(d) => p.description == Some(d),
    }
}

proof fn lemma_naive_slot_stays(p: NaiveMIMEV, f: NaiveFieldV, fs: Seq<NaiveFieldV>)
    requires
        naive_slot_is(p, f),
    ensures
        naive_slot_is(spec_naive_add_fields(p, fs), f),
    decreases fs.len(),
{
    if fs.len() > 0 {
        lemma_naive_slot_stays(p, f, fs.drop_last());
    }
}

/// What a read gives back of a write, whatever follows: when adding a MIME
/// field returns an entry, the entity that the fields gathered after any
/// further fields describe gives back that field for that entry, its type
/// interpreted and its transfer encoding restricted where the entity only
/// allows 7bit, 8bit or binary.
pub proof fn law_mime_field_stays(p: NaiveMIMEV, f: NaiveFieldV, fs: Seq<NaiveFieldV>, d: DefaultType)
    requires
        spec_naive_add_field(p, f).1 is Some,
    ensures
        ({
            let a = spec_to_interpreted(spec_naive_add_fields(spec_naive_add_field(p, f).0, fs), d);
            spec_mime_get_field(a, spec_naive_add_field(p, f).1->0) == Some(naive_field_read(f, a))
        }),
{
    lemma_naive_slot_stays(spec_naive_add_field(p, f).0, f, fs);
}

/// Every entry that an entity lists names a field that it has.
pub proof fn law_mime_entries_name_fields(m: AnyMIMEV, e: Entry)
    requires
        spec_mime_entries(m).contains(e),
    ensures
        spec_mime_get_field(m, e) is Some,
{
    let k = choose|k: int| 0 <= k < spec_mime_entries(m).len() && spec_mime_entries(m)[k] == e;
}

} // verus!
