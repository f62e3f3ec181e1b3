//! Content-Type, Content-Transfer-Encoding and MIME-Version, with the
//! interpretation of the first MIME model: known parameters and subtypes
//! named, the others kept as written.
use vstd::prelude::*;
use vstd::string::StringSliceAdditionalSpecFns;
use crate::dup::seq_view;
use crate::fragments::lazy;
use crate::mime::charset::{EmailCharset as NewCharset, charset_of, charset_name, charset_label, effective_label};
use crate::text::ascii::{self, lower, equals_lower, bytes_to_vec};
use crate::text::digits::{spec_u32, u32_at};
use crate::text::quoted::{concat, spec_quoted_string, quoted_string};
use crate::text::tag::{spec_byte, byte};
use crate::text::whitespace::{spec_opt_cfws, opt_cfws};
use crate::text::words::{spec_mime_atom, mime_atom};

verus! {

/// Why a header value could not be parsed.
#[derive(Debug, Clone, Copy, PartialEq, Eq, Structural)]
pub enum IMFError {
    Version,
    ContentType,
    Mechanism,
}

/// A MIME version.
#[derive(Debug, Clone, Copy, PartialEq, Eq, Structural)]
pub struct Version {
    pub major: u32,
    pub minor: u32,
}

/// A charset: one of the IANA charsets known here, or another one by
/// name.
#[allow(non_camel_case_types)]
#[derive(Debug, PartialEq, Eq)]
pub enum EmailCharset {
    US_ASCII,
    ISO_8859_1,
    ISO_8859_2,
    ISO_8859_3,
    ISO_8859_4,
    ISO_8859_5,
    ISO_8859_6,
    ISO_8859_7,
    ISO_8859_8,
    ISO_8859_9,
    ISO_8859_10,
    Shift_JIS,
    EUC_JP,
    ISO_2022_KR,
    EUC_KR,
    ISO_2022_JP,
    ISO_2022_JP_2,
    ISO_8859_6_E,
    ISO_8859_6_I,
    ISO_8859_8_E,
    ISO_8859_8_I,
    GB2312,
    Big5,
    KOI8_R,
    UTF_8,
    Other(Vec<u8>),
}

#[allow(non_camel_case_types)]
pub enum EmailCharsetV {
    US_ASCII,
    ISO_8859_1,
    ISO_8859_2,
    ISO_8859_3,
    ISO_8859_4,
    ISO_8859_5,
    ISO_8859_6,
    ISO_8859_7,
    ISO_8859_8,
    ISO_8859_9,
    ISO_8859_10,
    Shift_JIS,
    EUC_JP,
    ISO_2022_KR,
    EUC_KR,
    ISO_2022_JP,
    ISO_2022_JP_2,
    ISO_8859_6_E,
    ISO_8859_6_I,
    ISO_8859_8_E,
    ISO_8859_8_I,
    GB2312,
    Big5,
    KOI8_R,
    UTF_8,
    Other(Seq<u8>),
}

impl View for EmailCharset {
    type V = EmailCharsetV;

    open spec fn view(&self) -> EmailCharsetV {
        match self {
            EmailCharset::US_ASCII => EmailCharsetV::US_ASCII,
            EmailCharset::ISO_8859_1 => EmailCharsetV::ISO_8859_1,
            EmailCharset::ISO_8859_2 => EmailCharsetV::ISO_8859_2,
            EmailCharset::ISO_8859_3 => EmailCharsetV::ISO_8859_3,
            EmailCharset::ISO_8859_4 => EmailCharsetV::ISO_8859_4,
            EmailCharset::ISO_8859_5 => EmailCharsetV::ISO_8859_5,
            EmailCharset::ISO_8859_6 => EmailCharsetV::ISO_8859_6,
            EmailCharset::ISO_8859_7 => EmailCharsetV::ISO_8859_7,
            EmailCharset::ISO_8859_8 => EmailCharsetV::ISO_8859_8,
            EmailCharset::ISO_8859_9 => EmailCharsetV::ISO_8859_9,
            EmailCharset::ISO_8859_10 => EmailCharsetV::ISO_8859_10,
            EmailCharset::Shift_JIS => EmailCharsetV::Shift_JIS,
            EmailCharset::EUC_JP => EmailCharsetV::EUC_JP,
            EmailCharset::ISO_2022_KR => EmailCharsetV::ISO_2022_KR,
            EmailCharset::EUC_KR => EmailCharsetV::EUC_KR,
            EmailCharset::ISO_2022_JP => EmailCharsetV::ISO_2022_JP,
            EmailCharset::ISO_2022_JP_2 => EmailCharsetV::ISO_2022_JP_2,
            EmailCharset::ISO_8859_6_E => EmailCharsetV::ISO_8859_6_E,
            EmailCharset::ISO_8859_6_I => EmailCharsetV::ISO_8859_6_I,
            EmailCharset::ISO_8859_8_E => EmailCharsetV::ISO_8859_8_E,
            EmailCharset::ISO_8859_8_I => EmailCharsetV::ISO_8859_8_I,
            EmailCharset::GB2312 => EmailCharsetV::GB2312,
            EmailCharset::Big5 => EmailCharsetV::Big5,
            EmailCharset::KOI8_R => EmailCharsetV::KOI8_R,
            EmailCharset::UTF_8 => EmailCharsetV::UTF_8,
            EmailCharset::Other(n) => EmailCharsetV::Other(n@),
        }
    }
}

/// Unicode lower-casing (`str::to_lowercase`) of UTF-8 text, as far as it
/// can spell a charset label, which is ASCII: ASCII letters are lower-cased,
/// and the Kelvin sign (U+212A, bytes E2 84 AA), the one other character
/// whose lower case is ASCII (`k`), is read as `k`; every other byte is
/// kept, so that text with any other non-ASCII character spells no label.
pub open spec fn label_fold(s: Seq<u8>) -> Seq<u8>
    decreases s.len(),
{
    if s.len() == 0 {
        seq![]
    } else if s.len() >= 3 && s[0] == 0xE2 && s[1] == 0x84 && s[2] == 0xAA {
        seq![0x6Bu8] + label_fold(s.subrange(3, s.len() as int))
    } else {
        seq![ascii::lower_byte(s[0])] + label_fold(s.subrange(1, s.len() as int))
    }
}

/// `label_fold` of a label.
pub fn fold_label(s: &[u8]) -> (r: Vec<u8>)
    ensures
        r@ == label_fold(s@),
{
    let mut r: Vec<u8> = Vec::new();
    let mut i: usize = 0;
    assert(s@.subrange(0, s@.len() as int) =~= s@);
    while i < s.len()
        invariant
            i <= s.len(),
            r@ + label_fold(s@.subrange(i as int, s@.len() as int)) == label_fold(s@),
        decreases s.len() - i,
    {
        let ghost t = s@.subrange(i as int, s@.len() as int);
        let ghost r0 = r@;
        if s.len() - i >= 3 && s[i] == 0xE2 && s[i + 1] == 0x84 && s[i + 2] == 0xAA {
            r.push(0x6B);
            proof {
                assert(t[0] == 0xE2 && t[1] == 0x84 && t[2] == 0xAA);
                assert(t.subrange(3, t.len() as int) =~= s@.subrange(i + 3, s@.len() as int));
                assert(r@ + label_fold(s@.subrange(i + 3, s@.len() as int)) =~= r0 + label_fold(t));
            }
            i += 3;
        } else {
            r.push(ascii::to_lower(s[i]));
            proof {
                assert(t[0] == s@[i as int]);
                assert(!(t.len() >= 3 && t[0] == 0xE2 && t[1] == 0x84 && t[2] == 0xAA));
                assert(t.subrange(1, t.len() as int) =~= s@.subrange(i + 1, s@.len() as int));
                assert(r@ + label_fold(s@.subrange(i + 1, s@.len() as int)) =~= r0 + label_fold(t));
            }
            i += 1;
        }
    }
    assert(s@.subrange(i as int, s@.len() as int) =~= Seq::<u8>::empty());
    assert(r@ + label_fold(Seq::<u8>::empty()) =~= r@);
    r
}

/// The charset that a name names, ignoring case as Unicode lower-casing
/// does; an unknown name is kept as it is.
pub open spec fn old_charset_of(label: Seq<u8>) -> EmailCharsetV {
    match charset_of(label_fold(label)) {
        NewCharset::US_ASCII => EmailCharsetV::US_ASCII,
        NewCharset::ISO_8859_1 => EmailCharsetV::ISO_8859_1,
        NewCharset::ISO_8859_2 => EmailCharsetV::ISO_8859_2,
        NewCharset::ISO_8859_3 => EmailCharsetV::ISO_8859_3,
        NewCharset::ISO_8859_4 => EmailCharsetV::ISO_8859_4,
        NewCharset::ISO_8859_5 => EmailCharsetV::ISO_8859_5,
        NewCharset::ISO_8859_6 => EmailCharsetV::ISO_8859_6,
        NewCharset::ISO_8859_7 => EmailCharsetV::ISO_8859_7,
        NewCharset::ISO_8859_8 => EmailCharsetV::ISO_8859_8,
        NewCharset::ISO_8859_9 => EmailCharsetV::ISO_8859_9,
        NewCharset::ISO_8859_10 => EmailCharsetV::ISO_8859_10,
        NewCharset::Shift_JIS => EmailCharsetV::Shift_JIS,
        NewCharset::EUC_JP => EmailCharsetV::EUC_JP,
        NewCharset::ISO_2022_KR => EmailCharsetV::ISO_2022_KR,
        NewCharset::EUC_KR => EmailCharsetV::EUC_KR,
        NewCharset::ISO_2022_JP => EmailCharsetV::ISO_2022_JP,
        NewCharset::ISO_2022_JP_2 => EmailCharsetV::ISO_2022_JP_2,
        NewCharset::ISO_8859_6_E => EmailCharsetV::ISO_8859_6_E,
        NewCharset::ISO_8859_6_I => EmailCharsetV::ISO_8859_6_I,
        NewCharset::ISO_8859_8_E => EmailCharsetV::ISO_8859_8_E,
        NewCharset::ISO_8859_8_I => EmailCharsetV::ISO_8859_8_I,
        NewCharset::GB2312 => EmailCharsetV::GB2312,
        NewCharset::Big5 => EmailCharsetV::Big5,
        NewCharset::KOI8_R => EmailCharsetV::KOI8_R,
        NewCharset::UTF_8 => EmailCharsetV::UTF_8,
        NewCharset::Unknown => EmailCharsetV::Other(label),
    }
}

/// The name of a charset: the IANA name of a known one, the name as written
/// for another one.
pub open spec fn old_charset_name(c: EmailCharsetV) -> Seq<u8> {
    match c {
        EmailCharsetV::US_ASCII => charset_name(NewCharset::US_ASCII).spec_bytes(),
        EmailCharsetV::ISO_8859_1 => charset_name(NewCharset::ISO_8859_1).spec_bytes(),
        EmailCharsetV::ISO_8859_2 => charset_name(NewCharset::ISO_8859_2).spec_bytes(),
        EmailCharsetV::ISO_8859_3 => charset_name(NewCharset::ISO_8859_3).spec_bytes(),
        EmailCharsetV::ISO_8859_4 => charset_name(NewCharset::ISO_8859_4).spec_bytes(),
        EmailCharsetV::ISO_8859_5 => charset_name(NewCharset::ISO_8859_5).spec_bytes(),
        EmailCharsetV::ISO_8859_6 => charset_name(NewCharset::ISO_8859_6).spec_bytes(),
        EmailCharsetV::ISO_8859_7 => charset_name(NewCharset::ISO_8859_7).spec_bytes(),
        EmailCharsetV::ISO_8859_8 => charset_name(NewCharset::ISO_8859_8).spec_bytes(),
        EmailCharsetV::ISO_8859_9 => charset_name(NewCharset::ISO_8859_9).spec_bytes(),
        EmailCharsetV::ISO_8859_10 => charset_name(NewCharset::ISO_8859_10).spec_bytes(),
        EmailCharsetV::Shift_JIS => charset_name(NewCharset::Shift_JIS).spec_bytes(),
        EmailCharsetV::EUC_JP => charset_name(NewCharset::EUC_JP).spec_bytes(),
        EmailCharsetV::ISO_2022_KR => charset_name(NewCharset::ISO_2022_KR).spec_bytes(),
        EmailCharsetV::EUC_KR => charset_name(NewCharset::EUC_KR).spec_bytes(),
        EmailCharsetV::ISO_2022_JP => charset_name(NewCharset::ISO_2022_JP).spec_bytes(),
        EmailCharsetV::ISO_2022_JP_2 => charset_name(NewCharset::ISO_2022_JP_2).spec_bytes(),
        EmailCharsetV::ISO_8859_6_E => charset_name(NewCharset::ISO_8859_6_E).spec_bytes(),
        EmailCharsetV::ISO_8859_6_I => charset_name(NewCharset::ISO_8859_6_I).spec_bytes(),
        EmailCharsetV::ISO_8859_8_E => charset_name(NewCharset::ISO_8859_8_E).spec_bytes(),
        EmailCharsetV::ISO_8859_8_I => charset_name(NewCharset::ISO_8859_8_I).spec_bytes(),
        EmailCharsetV::GB2312 => charset_name(NewCharset::GB2312).spec_bytes(),
        EmailCharsetV::Big5 => charset_name(NewCharset::Big5).spec_bytes(),
        EmailCharsetV::KOI8_R => charset_name(NewCharset::KOI8_R).spec_bytes(),
        EmailCharsetV::UTF_8 => charset_name(NewCharset::UTF_8).spec_bytes(),
        EmailCharsetV::Other(n) => n,
    }
}

impl EmailCharset {
    /// The charset that a name names, ignoring case as Unicode
    /// lower-casing does.
    pub fn from_bytes(label: &[u8]) -> (r: EmailCharset)
        ensures
            r@ == old_charset_of(label@),
    {
        let folded = fold_label(label);
        match NewCharset::from_bytes(folded.as_slice()) {
            NewCharset::US_ASCII => EmailCharset::US_ASCII,
            NewCharset::ISO_8859_1 => EmailCharset::ISO_8859_1,
            NewCharset::ISO_8859_2 => EmailCharset::ISO_8859_2,
            NewCharset::ISO_8859_3 => EmailCharset::ISO_8859_3,
            NewCharset::ISO_8859_4 => EmailCharset::ISO_8859_4,
            NewCharset::ISO_8859_5 => EmailCharset::ISO_8859_5,
            NewCharset::ISO_8859_6 => EmailCharset::ISO_8859_6,
            NewCharset::ISO_8859_7 => EmailCharset::ISO_8859_7,
            NewCharset::ISO_8859_8 => EmailCharset::ISO_8859_8,
            NewCharset::ISO_8859_9 => EmailCharset::ISO_8859_9,
            NewCharset::ISO_8859_10 => EmailCharset::ISO_8859_10,
            NewCharset::Shift_JIS => EmailCharset::Shift_JIS,
            NewCharset::EUC_JP => EmailCharset::EUC_JP,
            NewCharset::ISO_2022_KR => EmailCharset::ISO_2022_KR,
            NewCharset::EUC_KR => EmailCharset::EUC_KR,
            NewCharset::ISO_2022_JP => EmailCharset::ISO_2022_JP,
            NewCharset::ISO_2022_JP_2 => EmailCharset::ISO_2022_JP_2,
            NewCharset::ISO_8859_6_E => EmailCharset::ISO_8859_6_E,
            NewCharset::ISO_8859_6_I => EmailCharset::ISO_8859_6_I,
            NewCharset::ISO_8859_8_E => EmailCharset::ISO_8859_8_E,
            NewCharset::ISO_8859_8_I => EmailCharset::ISO_8859_8_I,
            NewCharset::GB2312 => EmailCharset::GB2312,
            NewCharset::Big5 => EmailCharset::Big5,
            NewCharset::KOI8_R => EmailCharset::KOI8_R,
            NewCharset::UTF_8 => EmailCharset::UTF_8,
            NewCharset::Unknown => EmailCharset::Other(bytes_to_vec(label)),
        }
    }

    /// The charset that a name names, ignoring case as Unicode lower-casing
    /// does.
    pub fn from(label: &str) -> (r: EmailCharset)
        ensures
            r@ == old_charset_of(label.spec_bytes()),
    {
        Self::from_bytes(label.as_bytes())
    }

    /// The name of the charset: its IANA name, or the name as written for
    /// an unknown one.
    pub fn as_str(&self) -> (r: &[u8])
        ensures
            r@ == old_charset_name(self@),
    {
        match self {
            EmailCharset::US_ASCII => NewCharset::US_ASCII.as_bytes(),
            EmailCharset::ISO_8859_1 => NewCharset::ISO_8859_1.as_bytes(),
            EmailCharset::ISO_8859_2 => NewCharset::ISO_8859_2.as_bytes(),
            EmailCharset::ISO_8859_3 => NewCharset::ISO_8859_3.as_bytes(),
            EmailCharset::ISO_8859_4 => NewCharset::ISO_8859_4.as_bytes(),
            EmailCharset::ISO_8859_5 => NewCharset::ISO_8859_5.as_bytes(),
            EmailCharset::ISO_8859_6 => NewCharset::ISO_8859_6.as_bytes(),
            EmailCharset::ISO_8859_7 => NewCharset::ISO_8859_7.as_bytes(),
            EmailCharset::ISO_8859_8 => NewCharset::ISO_8859_8.as_bytes(),
            EmailCharset::ISO_8859_9 => NewCharset::ISO_8859_9.as_bytes(),
            EmailCharset::ISO_8859_10 => NewCharset::ISO_8859_10.as_bytes(),
            EmailCharset::Shift_JIS => NewCharset::Shift_JIS.as_bytes(),
            EmailCharset::EUC_JP => NewCharset::EUC_JP.as_bytes(),
            EmailCharset::ISO_2022_KR => NewCharset::ISO_2022_KR.as_bytes(),
            EmailCharset::EUC_KR => NewCharset::EUC_KR.as_bytes(),
            EmailCharset::ISO_2022_JP => NewCharset::ISO_2022_JP.as_bytes(),
            EmailCharset::ISO_2022_JP_2 => NewCharset::ISO_2022_JP_2.as_bytes(),
            EmailCharset::ISO_8859_6_E => NewCharset::ISO_8859_6_E.as_bytes(),
            EmailCharset::ISO_8859_6_I => NewCharset::ISO_8859_6_I.as_bytes(),
            EmailCharset::ISO_8859_8_E => NewCharset::ISO_8859_8_E.as_bytes(),
            EmailCharset::ISO_8859_8_I => NewCharset::ISO_8859_8_I.as_bytes(),
            EmailCharset::GB2312 => NewCharset::GB2312.as_bytes(),
            EmailCharset::Big5 => NewCharset::Big5.as_bytes(),
            EmailCharset::KOI8_R => NewCharset::KOI8_R.as_bytes(),
            EmailCharset::UTF_8 => NewCharset::UTF_8.as_bytes(),
            EmailCharset::Other(n) => n.as_slice(),
        }
    }

    /// The encoding that decodes text in this charset, by its label: the
    /// charset's name where `encoding_rs` knows it, windows-1252 otherwise.
    pub fn as_encoding(&self) -> (r: &[u8])
        ensures
            r@ == effective_label(old_charset_name(self@)),
    {
        charset_label(self.as_str())
    }
}

/// A parameter of a content type.
#[derive(Debug, PartialEq, Eq)]
pub enum Parameter {
    Charset(EmailCharset),
    Boundary(Vec<u8>),
    Other(Vec<u8>, Vec<u8>),
}

pub enum ParameterV {
    Charset(EmailCharsetV),
    Boundary(Seq<u8>),
    Other(Seq<u8>, Seq<u8>),
}

impl View for Parameter {
    type V = ParameterV;

    open spec fn view(&self) -> ParameterV {
        match self {
            Parameter::Charset(c) => ParameterV::Charset(c@),
            Parameter::Boundary(b) => ParameterV::Boundary(b@),
            Parameter::Other(n, v) => ParameterV::Other(n@, v@),
        }
    }
}

#[derive(Debug, PartialEq, Eq)]
pub enum MultipartSubtype {
    Alternative,
    Mixed,
    Digest,
    Parallel,
    Report,
    Other(Vec<u8>),
}

pub enum MultipartSubtypeV {
    Alternative,
    Mixed,
    Digest,
    Parallel,
    Report,
    Other(Seq<u8>),
}

impl View for MultipartSubtype {
    type V = MultipartSubtypeV;

    open spec fn view(&self) -> MultipartSubtypeV {
        match self {
            MultipartSubtype::Alternative => MultipartSubtypeV::Alternative,
            MultipartSubtype::Mixed => MultipartSubtypeV::Mixed,
            MultipartSubtype::Digest => MultipartSubtypeV::Digest,
            MultipartSubtype::Parallel => MultipartSubtypeV::Parallel,
            MultipartSubtype::Report => MultipartSubtypeV::Report,
            MultipartSubtype::Other(s) => MultipartSubtypeV::Other(s@),
        }
    }
}

#[derive(Debug, PartialEq, Eq)]
pub enum MessageSubtype {
    RFC822,
    Partial,
    External,
    Other(Vec<u8>),
}

pub enum MessageSubtypeV {
    RFC822,
    Partial,
    External,
    Other(Seq<u8>),
}

impl View for MessageSubtype {
    type V = MessageSubtypeV;

    open spec fn view(&self) -> MessageSubtypeV {
        match self {
            MessageSubtype::RFC822 => MessageSubtypeV::RFC822,
            MessageSubtype::Partial => MessageSubtypeV::Partial,
            MessageSubtype::External => MessageSubtypeV::External,
            MessageSubtype::Other(s) => MessageSubtypeV::Other(s@),
        }
    }
}

#[derive(Debug, PartialEq, Eq)]
pub enum TextSubtype {
    Plain,
    Html,
    Other(Vec<u8>),
}

pub enum TextSubtypeV {
    Plain,
    Html,
    Other(Seq<u8>),
}

impl View for TextSubtype {
    type V = TextSubtypeV;

    open spec fn view(&self) -> TextSubtypeV {
        match self {
            TextSubtype::Plain => TextSubtypeV::Plain,
            TextSubtype::Html => TextSubtypeV::Html,
            TextSubtype::Other(s) => TextSubtypeV::Other(s@),
        }
    }
}

#[derive(Debug, PartialEq, Eq)]
pub struct MultipartDesc {
    pub boundary: Vec<u8>,
    pub subtype: MultipartSubtype,
    pub unknown_parameters: Vec<Parameter>,
}

pub struct MultipartDescV {
    pub boundary: Seq<u8>,
    pub subtype: MultipartSubtypeV,
    pub unknown_parameters: Seq<ParameterV>,
}

impl View for MultipartDesc {
    type V = MultipartDescV;

    open spec fn view(&self) -> MultipartDescV {
        MultipartDescV {
            boundary: self.boundary@,
            subtype: self.subtype@,
            unknown_parameters: seq_view(self.unknown_parameters@),
        }
    }
}

#[derive(Debug, PartialEq, Eq)]
pub struct MessageDesc {
    pub subtype: MessageSubtype,
    pub unknown_parameters: Vec<Parameter>,
}

pub struct MessageDescV {
    pub subtype: MessageSubtypeV,
    pub unknown_parameters: Seq<ParameterV>,
}

impl View for MessageDesc {
    type V = MessageDescV;

    open spec fn view(&self) -> MessageDescV {
        MessageDescV { subtype: self.subtype@, unknown_parameters: seq_view(self.unknown_parameters@) }
    }
}

#[derive(Debug, PartialEq, Eq)]
pub struct TextDesc {
    pub charset: Option<EmailCharset>,
    pub subtype: TextSubtype,
    pub unknown_parameters: Vec<Parameter>,
}

pub struct TextDescV {
    pub charset: Option<EmailCharsetV>,
    pub subtype: TextSubtypeV,
    pub unknown_parameters: Seq<ParameterV>,
}

impl View for TextDesc {
    type V = TextDescV;

    open spec fn view(&self) -> TextDescV {
        TextDescV {
            charset: match self.charset {
                Some(c) => Some(c@),
                None => None,
            },
            subtype: self.subtype@,
            unknown_parameters: seq_view(self.unknown_parameters@),
        }
    }
}

/// A content type.
#[derive(Debug, PartialEq, Eq)]
pub enum Type {
    // Composite types
    Multipart(MultipartDesc),
    Message(MessageDesc),
    // Discrete types
    Text(TextDesc),
    Image(Vec<u8>, Vec<Parameter>),
    Audio(Vec<u8>, Vec<Parameter>),
    Video(Vec<u8>, Vec<Parameter>),
    Application(Vec<u8>, Vec<Parameter>),
    // Unknown
    Other(Vec<u8>, Vec<u8>, Vec<Parameter>),
}

pub enum TypeV {
    Multipart(MultipartDescV),
    Message(MessageDescV),
    Text(TextDescV),
    Image(Seq<u8>, Seq<ParameterV>),
    Audio(Seq<u8>, Seq<ParameterV>),
    Video(Seq<u8>, Seq<ParameterV>),
    Application(Seq<u8>, Seq<ParameterV>),
    Other(Seq<u8>, Seq<u8>, Seq<ParameterV>),
}

impl View for Type {
    type V = TypeV;

    open spec fn view(&self) -> TypeV {
        match self {
            Type::Multipart(m) => TypeV::Multipart(m@),
            Type::Message(m) => TypeV::Message(m@),
            Type::Text(t) => TypeV::Text(t@),
            Type::Image(s, p) => TypeV::Image(s@, seq_view(p@)),
            Type::Audio(s, p) => TypeV::Audio(s@, seq_view(p@)),
            Type::Video(s, p) => TypeV::Video(s@, seq_view(p@)),
            Type::Application(s, p) => TypeV::Application(s@, seq_view(p@)),
            Type::Other(t, s, p) => TypeV::Other(t@, s@, seq_view(p@)),
        }
    }
}

#[derive(Debug, PartialEq, Eq)]
pub enum Mechanism {
    _7Bit,
    _8Bit,
    Binary,
    QuotedPrintable,
    Base64,
    Other(Vec<u8>),
}

pub enum MechanismV {
    _7Bit,
    _8Bit,
    Binary,
    QuotedPrintable,
    Base64,
    Other(Seq<u8>),
}

impl View for Mechanism {
    type V = MechanismV;

    open spec fn view(&self) -> MechanismV {
        match self {
            Mechanism::_7Bit => MechanismV::_7Bit,
            Mechanism::_8Bit => MechanismV::_8Bit,
            Mechanism::Binary => MechanismV::Binary,
            Mechanism::QuotedPrintable => MechanismV::QuotedPrintable,
            Mechanism::Base64 => MechanismV::Base64,
            Mechanism::Other(s) => MechanismV::Other(s@),
        }
    }
}

// ---------------------------------------------------------------- names

/// The multipart subtype of a name `x`, lower-cased as `l`; an unknown name is kept as
/// written.
pub open spec fn multipart_subtype_named(l: Seq<u8>, x: Seq<u8>) -> MultipartSubtypeV {
    if l == seq![97u8, 108u8, 116u8, 101u8, 114u8, 110u8, 97u8, 116u8, 105u8, 118u8, 101u8] {
        MultipartSubtypeV::Alternative
    } else if l == seq![109u8, 105u8, 120u8, 101u8, 100u8] {
        MultipartSubtypeV::Mixed
    } else if l == seq![100u8, 105u8, 103u8, 101u8, 115u8, 116u8] {
        MultipartSubtypeV::Digest
    } else if l == seq![112u8, 97u8, 114u8, 97u8, 108u8, 108u8, 101u8, 108u8] {
        MultipartSubtypeV::Parallel
    } else if l == seq![114u8, 101u8, 112u8, 111u8, 114u8, 116u8] {
        MultipartSubtypeV::Report
    } else {
        MultipartSubtypeV::Other(x)
    }
}

/// The message subtype of a name `x`, lower-cased as `l`; an unknown name is kept as
/// written.
pub open spec fn message_subtype_named(l: Seq<u8>, x: Seq<u8>) -> MessageSubtypeV {
    if l == seq![114u8, 102u8, 99u8, 56u8, 50u8, 50u8] {
        MessageSubtypeV::RFC822
    } else if l == seq![112u8, 97u8, 114u8, 116u8, 105u8, 97u8, 108u8] {
        MessageSubtypeV::Partial
    } else if l == seq![101u8, 120u8, 116u8, 101u8, 114u8, 110u8, 97u8, 108u8] {
        MessageSubtypeV::External
    } else {
        MessageSubtypeV::Other(x)
    }
}

/// The text subtype of a name `x`, lower-cased as `l`; an unknown name is kept as
/// written.
pub open spec fn text_subtype_named(l: Seq<u8>, x: Seq<u8>) -> TextSubtypeV {
    if l == seq![104u8, 116u8, 109u8, 108u8] {
        TextSubtypeV::Html
    } else if l == seq![112u8, 108u8, 97u8, 105u8, 110u8] {
        TextSubtypeV::Plain
    } else {
        TextSubtypeV::Other(x)
    }
}

/// The mechanism of a name `x`, lower-cased as `l`; an unknown name is kept as
/// written.
pub open spec fn mechanism_named(l: Seq<u8>, x: Seq<u8>) -> MechanismV {
    if l == seq![55u8, 98u8, 105u8, 116u8] {
        MechanismV::_7Bit
    } else if l == seq![56u8, 98u8, 105u8, 116u8] {
        MechanismV::_8Bit
    } else if l == seq![98u8, 105u8, 110u8, 97u8, 114u8, 121u8] {
        MechanismV::Binary
    } else if l == seq![113u8, 117u8, 111u8, 116u8, 101u8, 100u8, 45u8, 112u8, 114u8, 105u8, 110u8, 116u8, 97u8, 98u8, 108u8, 101u8] {
        MechanismV::QuotedPrintable
    } else if l == seq![98u8, 97u8, 115u8, 101u8, 54u8, 52u8] {
        MechanismV::Base64
    } else {
        MechanismV::Other(x)
    }
}

impl MultipartSubtype {
    /// The subtype named by `x`, ignoring ASCII case.
    pub fn from(x: &[u8]) -> (r: MultipartSubtype)
        ensures
            r@ == multipart_subtype_named(lower(x@), x@),
    {
        if equals_lower(x, [97u8, 108u8, 116u8, 101u8, 114u8, 110u8, 97u8, 116u8, 105u8, 118u8, 101u8].as_slice()) {
            MultipartSubtype::Alternative
        } else if equals_lower(x, [109u8, 105u8, 120u8, 101u8, 100u8].as_slice()) {
            MultipartSubtype::Mixed
        } else if equals_lower(x, [100u8, 105u8, 103u8, 101u8, 115u8, 116u8].as_slice()) {
            MultipartSubtype::Digest
        } else if equals_lower(x, [112u8, 97u8, 114u8, 97u8, 108u8, 108u8, 101u8, 108u8].as_slice()) {
            MultipartSubtype::Parallel
        } else if equals_lower(x, [114u8, 101u8, 112u8, 111u8, 114u8, 116u8].as_slice()) {
            MultipartSubtype::Report
        } else {
            MultipartSubtype::Other(bytes_to_vec(x))
        }
    }
}

impl MessageSubtype {
    /// The subtype named by `x`, ignoring ASCII case.
    pub fn from(x: &[u8]) -> (r: MessageSubtype)
        ensures
            r@ == message_subtype_named(lower(x@), x@),
    {
        if equals_lower(x, [114u8, 102u8, 99u8, 56u8, 50u8, 50u8].as_slice()) {
            MessageSubtype::RFC822
        } else if equals_lower(x, [112u8, 97u8, 114u8, 116u8, 105u8, 97u8, 108u8].as_slice()) {
            MessageSubtype::Partial
        } else if equals_lower(x, [101u8, 120u8, 116u8, 101u8, 114u8, 110u8, 97u8, 108u8].as_slice()) {
            MessageSubtype::External
        } else {
            MessageSubtype::Other(bytes_to_vec(x))
        }
    }
}

impl TextSubtype {
    /// The subtype named by `x`, ignoring ASCII case.
    pub fn from(x: &[u8]) -> (r: TextSubtype)
        ensures
            r@ == text_subtype_named(lower(x@), x@),
    {
        if equals_lower(x, [104u8, 116u8, 109u8, 108u8].as_slice()) {
            TextSubtype::Html
        } else if equals_lower(x, [112u8, 108u8, 97u8, 105u8, 110u8].as_slice()) {
            TextSubtype::Plain
        } else {
            TextSubtype::Other(bytes_to_vec(x))
        }
    }
}

impl Mechanism {
    /// The mechanism named by `x`, ignoring ASCII case.
    pub fn from(x: &[u8]) -> (r: Mechanism)
        ensures
            r@ == mechanism_named(lower(x@), x@),
    {
        if equals_lower(x, [55u8, 98u8, 105u8, 116u8].as_slice()) {
            Mechanism::_7Bit
        } else if equals_lower(x, [56u8, 98u8, 105u8, 116u8].as_slice()) {
            Mechanism::_8Bit
        } else if equals_lower(x, [98u8, 105u8, 110u8, 97u8, 114u8, 121u8].as_slice()) {
            Mechanism::Binary
        } else if equals_lower(x, [113u8, 117u8, 111u8, 116u8, 101u8, 100u8, 45u8, 112u8, 114u8, 105u8, 110u8, 116u8, 97u8, 98u8, 108u8, 101u8].as_slice()) {
            Mechanism::QuotedPrintable
        } else if equals_lower(x, [98u8, 97u8, 115u8, 101u8, 54u8, 52u8].as_slice()) {
            Mechanism::Base64
        } else {
            Mechanism::Other(bytes_to_vec(x))
        }
    }
}

// ---------------------------------------------------------------- parsers

pub open spec fn CHARSET_NAME() -> Seq<u8> {
    seq![99u8, 104u8, 97u8, 114u8, 115u8, 101u8, 116u8]
}

pub open spec fn BOUNDARY_NAME() -> Seq<u8> {
    seq![98u8, 111u8, 117u8, 110u8, 100u8, 97u8, 114u8, 121u8]
}

pub open spec fn MULTIPART_NAME() -> Seq<u8> {
    seq![109u8, 117u8, 108u8, 116u8, 105u8, 112u8, 97u8, 114u8, 116u8]
}

pub open spec fn MESSAGE_NAME() -> Seq<u8> {
    seq![109u8, 101u8, 115u8, 115u8, 97u8, 103u8, 101u8]
}

pub open spec fn TEXT_NAME() -> Seq<u8> {
    seq![116u8, 101u8, 120u8, 116u8]
}

pub open spec fn IMAGE_NAME() -> Seq<u8> {
    seq![105u8, 109u8, 97u8, 103u8, 101u8]
}

pub open spec fn AUDIO_NAME() -> Seq<u8> {
    seq![97u8, 117u8, 100u8, 105u8, 111u8]
}

pub open spec fn VIDEO_NAME() -> Seq<u8> {
    seq![118u8, 105u8, 100u8, 101u8, 111u8]
}

pub open spec fn APPLICATION_NAME() -> Seq<u8> {
    seq![97u8, 112u8, 112u8, 108u8, 105u8, 99u8, 97u8, 116u8, 105u8, 111u8, 110u8]
}

/// The parameter of a name and a value: a charset, a boundary, or another.
pub open spec fn param_of(name: Seq<u8>, value: Seq<u8>) -> ParameterV {
    if lower(name) == CHARSET_NAME() {
        ParameterV::Charset(old_charset_of(value))
    } else if lower(name) == BOUNDARY_NAME() {
        ParameterV::Boundary(value)
    } else {
        ParameterV::Other(name, value)
    }
}

/// A parameter value: a quoted string (its content) or a token.
pub open spec fn spec_param_value(s: Seq<u8>, i: int) -> Option<(int, Seq<u8>)> {
    match spec_quoted_string(s, i) {
        Some((j, q)) => Some((j, concat(q))),
        None => spec_mime_atom(s, i),
    }
}

/// `parameter := token "=" (quoted-string / token)`
#[verifier::opaque]
pub open spec fn spec_parameter(s: Seq<u8>, i: int) -> Option<(int, ParameterV)> {
    match spec_mime_atom(s, i) {
        Some((a, name)) => match spec_byte(s, a, ascii::EQ) {
            Some(b) => match spec_param_value(s, b) {
                Some((c, value)) => Some((c, param_of(name, value))),
                None => None,
            },
            None => None,
        },
        None => None,
    }
}

/// `*(";" parameter)`: the parameters and where they end.
pub open spec fn spec_parameters(s: Seq<u8>, i: int) -> (int, Seq<ParameterV>)
    decreases s.len() - i,
{
    match spec_byte(s, i, ascii::SEM_COL) {
        Some(a) => match spec_parameter(s, a) {
            Some((b, p)) => if i < b <= s.len() {
                let (e, ps) = spec_parameters(s, b);
                (e, seq![p] + ps)
            } else {
                (i, seq![])
            },
            None => (i, seq![]),
        },
        None => (i, seq![]),
    }
}

pub open spec fn is_boundary(p: ParameterV) -> bool {
    p is Boundary
}

pub open spec fn is_charset(p: ParameterV) -> bool {
    p is Charset
}

/// The parameters that are (`keep`) or are not (`!keep`) charsets
/// (`charset`) or boundaries (`!charset`), in order.
pub open spec fn selected_params(ps: Seq<ParameterV>, charset: bool, keep: bool) -> Seq<ParameterV>
    decreases ps.len(),
{
    if ps.len() == 0 {
        seq![]
    } else {
        let rest = selected_params(ps.drop_last(), charset, keep);
        let p = ps.last();
        if (if charset { is_charset(p) } else { is_boundary(p) }) == keep {
            rest.push(p)
        } else {
            rest
        }
    }
}

/// The content type of a type name, a subtype name and parameters. A
/// multipart type takes its first boundary (without one, it is read as
/// text/plain); a text type takes its first charset; the other parameters
/// are kept in order.
pub open spec fn type_of(ctype: Seq<u8>, csub: Seq<u8>, ps: Seq<ParameterV>) -> TypeV {
    let l = lower(ctype);
    if l == MULTIPART_NAME() {
        multipart_type_of(csub, ps)
    } else if l == MESSAGE_NAME() {
        TypeV::Message(
            MessageDescV {
                subtype: message_subtype_named(lower(csub), csub),
                unknown_parameters: ps,
            },
        )
    } else if l == TEXT_NAME() {
        text_type_of(csub, ps)
    } else if l == IMAGE_NAME() {
        TypeV::Image(csub, ps)
    } else if l == AUDIO_NAME() {
        TypeV::Audio(csub, ps)
    } else if l == VIDEO_NAME() {
        TypeV::Video(csub, ps)
    } else if l == APPLICATION_NAME() {
        TypeV::Application(csub, ps)
    } else {
        TypeV::Other(ctype, csub, ps)
    }
}

/// A multipart type takes its first boundary; without one, it is read as
/// text/plain.
pub open spec fn multipart_type_of(csub: Seq<u8>, ps: Seq<ParameterV>) -> TypeV {
    let bs = selected_params(ps, false, true);
    let others = selected_params(ps, false, false);
    if bs.len() == 0 {
        TypeV::Text(TextDescV { charset: None, subtype: TextSubtypeV::Plain, unknown_parameters: others })
    } else {
        TypeV::Multipart(
            MultipartDescV {
                subtype: multipart_subtype_named(lower(csub), csub),
                unknown_parameters: others,
                boundary: bs[0]->Boundary_0,
            },
        )
    }
}

/// A text type takes its first charset.
pub open spec fn text_type_of(csub: Seq<u8>, ps: Seq<ParameterV>) -> TypeV {
    let cs = selected_params(ps, true, true);
    let others = selected_params(ps, true, false);
    TypeV::Text(
        TextDescV {
            subtype: text_subtype_named(lower(csub), csub),
            charset: if cs.len() == 0 {
                None
            } else {
                Some(cs[0]->Charset_0)
            },
            unknown_parameters: others,
        },
    )
}

/// `content-type := token "/" token *(";" parameter)`
pub open spec fn spec_content_type(s: Seq<u8>, i: int) -> Option<(int, TypeV)> {
    match spec_mime_atom(s, i) {
        Some((a, ctype)) => match spec_byte(s, a, ascii::SLASH) {
            Some(b) => match spec_mime_atom(s, b) {
                Some((c, csub)) => {
                    let (e, ps) = spec_parameters(s, c);
                    Some((e, type_of(ctype, csub, ps)))
                },
                None => None,
            },
            None => None,
        },
        None => None,
    }
}

/// `mechanism := token`
pub open spec fn spec_mechanism(s: Seq<u8>, i: int) -> Option<(int, MechanismV)> {
    match spec_mime_atom(s, i) {
        Some((a, m)) => Some((a, mechanism_named(lower(m), m))),
        None => None,
    }
}

/// `version := [CFWS] u32 [CFWS] "." [CFWS] u32 [CFWS]`
pub open spec fn spec_version(s: Seq<u8>, i: int) -> Option<(int, Version)> {
    match spec_u32(s, spec_opt_cfws(s, i)) {
        Some((b, major)) => match spec_byte(s, spec_opt_cfws(s, b), ascii::PERIOD) {
            Some(d) => match spec_u32(s, spec_opt_cfws(s, d)) {
                Some((f, minor)) => Some(
                    (spec_opt_cfws(s, f), Version { major: major as u32, minor: minor as u32 }),
                ),
                None => None,
            },
            None => None,
        },
        None => None,
    }
}

fn param_value(s: &[u8], i: usize) -> (r: Option<(usize, Vec<u8>)>)
    ensures
        match r {
            Some((j, v)) => spec_param_value(s@, i as int) == Some((j as int, v@)),
            None => spec_param_value(s@, i as int) is None,
        },
{
    match quoted_string(s, i) {
        Some((j, q)) => Some((j, q.chars())),
        None => match mime_atom(s, i) {
            Some((j, a)) => Some((j, a.0)),
            None => None,
        },
    }
}

pub fn parameter(s: &[u8], i: usize) -> (r: Option<(usize, Parameter)>)
    ensures
        match r {
            Some((j, p)) => spec_parameter(s@, i as int) == Some((j as int, p@)),
            None => spec_parameter(s@, i as int) is None,
        },
{
    reveal(spec_parameter);
    let (a, name) = match mime_atom(s, i) {
        Some(x) => x,
        None => return None,
    };
    let b = match byte(s, a, ascii::EQ) {
        Some(b) => b,
        None => return None,
    };
    let (c, value) = match param_value(s, b) {
        Some(x) => x,
        None => return None,
    };
    let n = name.0.as_slice();
    let p = if equals_lower(n, [99u8, 104u8, 97u8, 114u8, 115u8, 101u8, 116u8].as_slice()) {
        Parameter::Charset(EmailCharset::from_bytes(value.as_slice()))
    } else if equals_lower(n, [98u8, 111u8, 117u8, 110u8, 100u8, 97u8, 114u8, 121u8].as_slice()) {
        Parameter::Boundary(value)
    } else {
        Parameter::Other(name.0, value)
    };
    Some((c, p))
}

pub fn parameters(s: &[u8], i: usize) -> (r: (usize, Vec<Parameter>))
    ensures
        spec_parameters(s@, i as int) == (r.0 as int, seq_view(r.1@)),
{
    let mut j = i;
    let mut acc: Vec<Parameter> = Vec::new();
    loop
        invariant
            spec_parameters(s@, i as int).0 == spec_parameters(s@, j as int).0,
            spec_parameters(s@, i as int).1 == seq_view(acc@) + spec_parameters(s@, j as int).1,
        ensures
            spec_parameters(s@, i as int) == (j as int, seq_view(acc@)),
        decreases s.len() - j,
    {
        let ghost a0 = seq_view(acc@);
        let a = match byte(s, j, ascii::SEM_COL) {
            Some(a) => a,
            None => {
                assert(a0 + Seq::<ParameterV>::empty() =~= a0);
                break ;
            },
        };
        match parameter(s, a) {
            Some((b, p)) => {
                if j < b && b <= s.len() {
                    acc.push(p);
                    assert(seq_view(acc@) =~= a0.push(acc@.last()@));
                    assert(a0 + (seq![acc@.last()@] + spec_parameters(s@, b as int).1)
                        =~= seq_view(acc@) + spec_parameters(s@, b as int).1);
                    j = b;
                } else {
                    assert(a0 + Seq::<ParameterV>::empty() =~= a0);
                    break ;
                }
            },
            None => {
                assert(a0 + Seq::<ParameterV>::empty() =~= a0);
                break ;
            },
        }
    }
    (j, acc)
}

/// Splits parameters into those that are charsets (`charset`) or
/// boundaries (`!charset`), and the others, keeping their order.
fn split_params(ps: Vec<Parameter>, charset: bool) -> (r: (Vec<Parameter>, Vec<Parameter>))
    ensures
        seq_view(r.0@) == selected_params(seq_view(ps@), charset, true),
        seq_view(r.1@) == selected_params(seq_view(ps@), charset, false),
{
    let ghost psv = seq_view(ps@);
    let mut ps = ps;
    let mut sel: Vec<Parameter> = Vec::new();
    let mut others: Vec<Parameter> = Vec::new();
    let ghost n = ps.len();
    let mut k: usize = 0;
    assert(psv.take(0) =~= Seq::<ParameterV>::empty());
    assert(seq_view(sel@) =~= Seq::<ParameterV>::empty());
    assert(seq_view(others@) =~= Seq::<ParameterV>::empty());
    while ps.len() > 0
        invariant
            k + ps.len() == n,
            n == psv.len(),
            seq_view(ps@) == psv.skip(k as int),
            seq_view(sel@) == selected_params(psv.take(k as int), charset, true),
            seq_view(others@) == selected_params(psv.take(k as int), charset, false),
        decreases ps.len(),
    {
        let ghost s0 = seq_view(sel@);
        let ghost o0 = seq_view(others@);
        let ghost v0 = seq_view(ps@);
        let ghost raw0 = ps@;
        let p = ps.remove(0);
        proof {
            assert(p == raw0[0]);
            assert(v0[0] == raw0[0]@);
            assert(v0[0] == psv[k as int]);
            assert(p@ == psv[k as int]);
            assert(ps@ =~= raw0.remove(0));
            assert(psv.take(k + 1).drop_last() =~= psv.take(k as int));
            assert(psv.take(k + 1).last() == psv[k as int]);
            assert forall|j: int| 0 <= j < seq_view(ps@).len() implies seq_view(ps@)[j] == psv.skip(
                k + 1,
            )[j] by {
                assert(seq_view(ps@)[j] == ps@[j]@);
                assert(ps@[j] == raw0[j + 1]);
                assert(v0[j + 1] == raw0[j + 1]@);
                assert(v0[j + 1] == psv.skip(k as int)[j + 1]);
            }
            assert(seq_view(ps@) =~= psv.skip(k + 1));
        }
        let is_sel = match &p {
            Parameter::Charset(_) => charset,
            Parameter::Boundary(_) => !charset,
            Parameter::Other(_, _) => false,
        };
        if is_sel {
            sel.push(p);
            assert(seq_view(sel@) =~= s0.push(sel@.last()@));
        } else {
            others.push(p);
            assert(seq_view(others@) =~= o0.push(others@.last()@));
        }
        k += 1;
    }
    assert(psv.take(n as int) =~= psv);
    (sel, others)
}

fn multipart_type(csub: Vec<u8>, ps: Vec<Parameter>) -> (r: Type)
    ensures
        r@ == multipart_type_of(csub@, seq_view(ps@)),
{
    let ghost psv = seq_view(ps@);
    let (bs, others) = split_params(ps, false);
    if bs.len() == 0 {
        Type::Text(TextDesc { charset: None, subtype: TextSubtype::Plain, unknown_parameters: others })
    } else {
        proof {
            lemma_selected_kind(psv, false);
            assert(seq_view(bs@)[0] == bs@[0]@);
        }
        let mut bs = bs;
        let first = bs.remove(0);
        match first {
            Parameter::Boundary(v) => Type::Multipart(
                MultipartDesc {
                    subtype: MultipartSubtype::from(csub.as_slice()),
                    unknown_parameters: others,
                    boundary: v,
                },
            ),
            _ => {
                assert(false);
                Type::Other(Vec::new(), csub, others)
            },
        }
    }
}

fn text_type(csub: Vec<u8>, ps: Vec<Parameter>) -> (r: Type)
    ensures
        r@ == text_type_of(csub@, seq_view(ps@)),
{
    let ghost psv = seq_view(ps@);
    let (chs, others) = split_params(ps, true);
    let charset = if chs.len() == 0 {
        None
    } else {
        proof {
            lemma_selected_kind(psv, true);
            assert(seq_view(chs@)[0] == chs@[0]@);
        }
        let mut chs = chs;
        match chs.remove(0) {
            Parameter::Charset(c) => Some(c),
            _ => {
                assert(false);
                None
            },
        }
    };
    Type::Text(TextDesc { subtype: TextSubtype::from(csub.as_slice()), charset, unknown_parameters: others })
}

pub fn content_type(s: &[u8], i: usize) -> (r: Option<(usize, Type)>)
    ensures
        match r {
            Some((j, t)) => spec_content_type(s@, i as int) == Some((j as int, t@)),
            None => spec_content_type(s@, i as int) is None,
        },
{
    let (a, ctype) = match mime_atom(s, i) {
        Some(x) => x,
        None => return None,
    };
    let b = match byte(s, a, ascii::SLASH) {
        Some(b) => b,
        None => return None,
    };
    let (c, csub) = match mime_atom(s, b) {
        Some(x) => x,
        None => return None,
    };
    let (e, ps) = parameters(s, c);
    let ct = ctype.0.as_slice();
    let t = if equals_lower(ct, [109u8, 117u8, 108u8, 116u8, 105u8, 112u8, 97u8, 114u8, 116u8].as_slice()) {
        multipart_type(csub.0, ps)
    } else if equals_lower(ct, [109u8, 101u8, 115u8, 115u8, 97u8, 103u8, 101u8].as_slice()) {
        Type::Message(
            MessageDesc { subtype: MessageSubtype::from(csub.0.as_slice()), unknown_parameters: ps },
        )
    } else if equals_lower(ct, [116u8, 101u8, 120u8, 116u8].as_slice()) {
        text_type(csub.0, ps)
    } else if equals_lower(ct, [105u8, 109u8, 97u8, 103u8, 101u8].as_slice()) {
        Type::Image(csub.0, ps)
    } else if equals_lower(ct, [97u8, 117u8, 100u8, 105u8, 111u8].as_slice()) {
        Type::Audio(csub.0, ps)
    } else if equals_lower(ct, [118u8, 105u8, 100u8, 101u8, 111u8].as_slice()) {
        Type::Video(csub.0, ps)
    } else if equals_lower(ct, [97u8, 112u8, 112u8, 108u8, 105u8, 99u8, 97u8, 116u8, 105u8, 111u8, 110u8].as_slice()) {
        Type::Application(csub.0, ps)
    } else {
        Type::Other(ctype.0, csub.0, ps)
    };
    Some((e, t))
}

/// The selected parameters are all of the selected kind.
pub proof fn lemma_selected_kind(ps: Seq<ParameterV>, charset: bool)
    ensures
        forall|k: int|
            0 <= k < selected_params(ps, charset, true).len() ==> (if charset {
                is_charset(#[trigger] selected_params(ps, charset, true)[k])
            } else {
                is_boundary(selected_params(ps, charset, true)[k])
            }),
    decreases ps.len(),
{
    if ps.len() > 0 {
        lemma_selected_kind(ps.drop_last(), charset);
        let rest = selected_params(ps.drop_last(), charset, true);
        let all = selected_params(ps, charset, true);
        assert forall|k: int| 0 <= k < all.len() implies (if charset {
            is_charset(#[trigger] all[k])
        } else {
            is_boundary(all[k])
        }) by {
            if k < rest.len() {
                assert(all[k] == rest[k]);
            }
        }
    }
}

pub fn mechanism(s: &[u8], i: usize) -> (r: Option<(usize, Mechanism)>)
    ensures
        match r {
            Some((j, m)) => spec_mechanism(s@, i as int) == Some((j as int, m@)),
            None => spec_mechanism(s@, i as int) is None,
        },
{
    match mime_atom(s, i) {
        Some((a, m)) => Some((a, Mechanism::from(m.0.as_slice()))),
        None => None,
    }
}

pub fn version(s: &[u8], i: usize) -> (r: Option<(usize, Version)>)
    ensures
        match r {
            Some((j, v)) => spec_version(s@, i as int) == Some((j as int, v)),
            None => spec_version(s@, i as int) is None,
        },
{
    let (b, major) = match u32_at(s, opt_cfws(s, i)) {
        Some(x) => x,
        None => return None,
    };
    let d = match byte(s, opt_cfws(s, b), ascii::PERIOD) {
        Some(d) => d,
        None => return None,
    };
    let (f, minor) = match u32_at(s, opt_cfws(s, d)) {
        Some(x) => x,
        None => return None,
    };
    Some((opt_cfws(s, f), Version { major, minor }))
}

impl Type {
    /// Parses a content type as written; what follows it is ignored.
    pub fn try_from(tp: &lazy::Type) -> (r: Result<Type, IMFError>)
        ensures
            match r {
                Ok(t) => spec_content_type(tp.0.spec_bytes(), 0) matches Some((_, v)) && v == t@,
                Err(e) => spec_content_type(tp.0.spec_bytes(), 0) is None && e == IMFError::ContentType,
            },
    {
        match content_type(tp.0.as_bytes(), 0) {
            Some((_, t)) => Ok(t),
            None => Err(IMFError::ContentType),
        }
    }
}

impl Mechanism {
    /// Parses a transfer encoding as written; what follows it is ignored.
    pub fn try_from(mc: &lazy::Mechanism) -> (r: Result<Mechanism, IMFError>)
        ensures
            match r {
                Ok(m) => spec_mechanism(mc.0.spec_bytes(), 0) matches Some((_, v)) && v == m@,
                Err(e) => spec_mechanism(mc.0.spec_bytes(), 0) is None && e == IMFError::Mechanism,
            },
    {
        match mechanism(mc.0.as_bytes(), 0) {
            Some((_, m)) => Ok(m),
            None => Err(IMFError::Mechanism),
        }
    }
}

impl Version {
    /// Parses a MIME version as written; what follows it is ignored.
    pub fn try_from(vs: &lazy::Version) -> (r: Result<Version, IMFError>)
        ensures
            match r {
                Ok(v) => spec_version(vs.0.spec_bytes(), 0) matches Some((_, w)) && w == v,
                Err(e) => spec_version(vs.0.spec_bytes(), 0) is None && e == IMFError::Version,
            },
    {
        match version(vs.0.as_bytes(), 0) {
            Some((_, v)) => Ok(v),
            None => Err(IMFError::Version),
        }
    }
}

} // verus!
