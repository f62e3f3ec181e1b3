//! Whether a value uses the UTF-8 text that RFC 6532 adds to headers.
use vstd::prelude::*;

verus! {

/// Whether a value uses non-ASCII UTF-8 text (RFC 6532).
///
/// This tells header bodies and tokens that need RFC 6532 from those that
/// do not.
pub trait ContainsUtf8 {
    /// The value holds a byte outside ASCII somewhere in its text.
    spec fn uses_utf8(&self) -> bool;

    fn contains_utf8(&self) -> (r: bool)
        ensures
            r == self.uses_utf8(),
    ;
}

/// A byte of text: non-ASCII bytes are those of UTF-8 encoded characters.
impl ContainsUtf8 for u8 {
    open spec fn uses_utf8(&self) -> bool {
        *self >= 0x80
    }

    fn contains_utf8(&self) -> (r: bool) {
        *self >= 0x80
    }
}

impl<T: ContainsUtf8> ContainsUtf8 for Option<T> {
    open spec fn uses_utf8(&self) -> bool {
        match self {
            Some(x) => x.uses_utf8(),
            None => false,
        }
    }

    fn contains_utf8(&self) -> (r: bool) {
        match self {
            Some(x) => x.contains_utf8(),
            None => false,
        }
    }
}

impl<T: ContainsUtf8> ContainsUtf8 for Vec<T> {
    open spec fn uses_utf8(&self) -> bool {
        exists|i: int| 0 <= i < self@.len() && (#[trigger] self@[i]).uses_utf8()
    }

    fn contains_utf8(&self) -> (r: bool) {
        let mut i: usize = 0;
        while i < self.len()
            invariant
                i <= self@.len(),
                forall|k: int| 0 <= k < i ==> !(#[trigger] self@[k]).uses_utf8(),
            decreases self@.len() - i,
        {
            if self[i].contains_utf8() {
                return true;
            }
            i += 1;
        }
        false
    }
}

impl<T: ContainsUtf8> ContainsUtf8 for crate::mime::MIME<T> {
    open spec fn uses_utf8(&self) -> bool {
        self.ctype.uses_utf8() || self.fields.uses_utf8()
    }

    fn contains_utf8(&self) -> (r: bool) {
        self.ctype.contains_utf8() || self.fields.contains_utf8()
    }
}

/// Always ASCII: a date and time is printed in ASCII.
impl ContainsUtf8 for crate::imf::datetime::DateTime {
    open spec fn uses_utf8(&self) -> bool {
        false
    }

    fn contains_utf8(&self) -> (r: bool) {
        false
    }
}

/// Always ASCII: a version is made of digits.
impl ContainsUtf8 for crate::imf::mime::Version {
    open spec fn uses_utf8(&self) -> bool {
        false
    }

    fn contains_utf8(&self) -> (r: bool) {
        false
    }
}

/// Always ASCII: mechanism names are ASCII tokens.
impl ContainsUtf8 for crate::mime::mechanism::Mechanism {
    open spec fn uses_utf8(&self) -> bool {
        false
    }

    fn contains_utf8(&self) -> (r: bool) {
        false
    }
}

/// Always ASCII: its names are ASCII.
impl ContainsUtf8 for crate::mime::types::MessageSubtype {
    open spec fn uses_utf8(&self) -> bool {
        false
    }

    fn contains_utf8(&self) -> (r: bool) {
        false
    }
}

/// Always ASCII: charset names are ASCII.
impl ContainsUtf8 for crate::mime::charset::EmailCharset {
    open spec fn uses_utf8(&self) -> bool {
        false
    }

    fn contains_utf8(&self) -> (r: bool) {
        false
    }
}

impl ContainsUtf8 for crate::text::words::Atom {
    open spec fn uses_utf8(&self) -> bool {
        self.0.uses_utf8()
    }

    fn contains_utf8(&self) -> (r: bool) {
        self.0.contains_utf8()
    }
}

impl ContainsUtf8 for crate::text::words::MIMEAtom {
    open spec fn uses_utf8(&self) -> bool {
        self.0.uses_utf8()
    }

    fn contains_utf8(&self) -> (r: bool) {
        self.0.contains_utf8()
    }
}

impl ContainsUtf8 for crate::text::quoted::QuotedString {
    open spec fn uses_utf8(&self) -> bool {
        self.0.uses_utf8()
    }

    fn contains_utf8(&self) -> (r: bool) {
        self.0.contains_utf8()
    }
}

impl ContainsUtf8 for crate::text::misc_token::Phrase {
    open spec fn uses_utf8(&self) -> bool {
        self.0.uses_utf8()
    }

    fn contains_utf8(&self) -> (r: bool) {
        self.0.contains_utf8()
    }
}

impl ContainsUtf8 for crate::text::misc_token::PhraseList {
    open spec fn uses_utf8(&self) -> bool {
        self.0.uses_utf8()
    }

    fn contains_utf8(&self) -> (r: bool) {
        self.0.contains_utf8()
    }
}

impl ContainsUtf8 for crate::text::misc_token::UnstrToken {
    open spec fn uses_utf8(&self) -> bool {
        self.text.uses_utf8()
    }

    fn contains_utf8(&self) -> (r: bool) {
        self.text.contains_utf8()
    }
}

impl ContainsUtf8 for crate::text::misc_token::Unstructured {
    open spec fn uses_utf8(&self) -> bool {
        self.0.uses_utf8()
    }

    fn contains_utf8(&self) -> (r: bool) {
        self.0.contains_utf8()
    }
}

impl ContainsUtf8 for crate::imf::mailbox::LocalPart {
    open spec fn uses_utf8(&self) -> bool {
        self.0.uses_utf8()
    }

    fn contains_utf8(&self) -> (r: bool) {
        self.0.contains_utf8()
    }
}

impl ContainsUtf8 for crate::imf::mailbox::Dtext {
    open spec fn uses_utf8(&self) -> bool {
        self.0.uses_utf8()
    }

    fn contains_utf8(&self) -> (r: bool) {
        self.0.contains_utf8()
    }
}

impl ContainsUtf8 for crate::imf::mailbox::AddrSpec {
    open spec fn uses_utf8(&self) -> bool {
        self.local_part.uses_utf8() || self.domain.uses_utf8()
    }

    fn contains_utf8(&self) -> (r: bool) {
        self.local_part.contains_utf8() || self.domain.contains_utf8()
    }
}

impl ContainsUtf8 for crate::imf::mailbox::MailboxRef {
    open spec fn uses_utf8(&self) -> bool {
        self.addrspec.uses_utf8() || self.name.uses_utf8()
    }

    fn contains_utf8(&self) -> (r: bool) {
        self.addrspec.contains_utf8() || self.name.contains_utf8()
    }
}

impl ContainsUtf8 for crate::imf::mailbox::MailboxList {
    open spec fn uses_utf8(&self) -> bool {
        self.0.uses_utf8()
    }

    fn contains_utf8(&self) -> (r: bool) {
        self.0.contains_utf8()
    }
}

impl ContainsUtf8 for crate::imf::address::GroupRef {
    open spec fn uses_utf8(&self) -> bool {
        self.name.uses_utf8() || self.participants.uses_utf8()
    }

    fn contains_utf8(&self) -> (r: bool) {
        self.name.contains_utf8() || self.participants.contains_utf8()
    }
}

impl ContainsUtf8 for crate::imf::trace::ReturnPath {
    open spec fn uses_utf8(&self) -> bool {
        self.0.uses_utf8()
    }

    fn contains_utf8(&self) -> (r: bool) {
        self.0.contains_utf8()
    }
}

impl ContainsUtf8 for crate::imf::Imf {
    open spec fn uses_utf8(&self) -> bool {
        self.date.uses_utf8() || self.from.uses_utf8() || self.reply_to.uses_utf8() || self.to.uses_utf8() || self.cc.uses_utf8() || self.bcc.uses_utf8() || self.msg_id.uses_utf8() || self.in_reply_to.uses_utf8() || self.references.uses_utf8() || self.subject.uses_utf8() || self.comments.uses_utf8() || self.keywords.uses_utf8() || self.trace.uses_utf8() || self.mime_version.uses_utf8()
    }

    fn contains_utf8(&self) -> (r: bool) {
        self.date.contains_utf8() || self.from.contains_utf8() || self.reply_to.contains_utf8() || self.to.contains_utf8() || self.cc.contains_utf8() || self.bcc.contains_utf8() || self.msg_id.contains_utf8() || self.in_reply_to.contains_utf8() || self.references.contains_utf8() || self.subject.contains_utf8() || self.comments.contains_utf8() || self.keywords.contains_utf8() || self.trace.contains_utf8() || self.mime_version.contains_utf8()
    }
}

impl ContainsUtf8 for crate::mime::CommonMIME {
    open spec fn uses_utf8(&self) -> bool {
        self.transfer_encoding.uses_utf8() || self.id.uses_utf8() || self.description.uses_utf8()
    }

    fn contains_utf8(&self) -> (r: bool) {
        self.transfer_encoding.contains_utf8() || self.id.contains_utf8() || self.description.contains_utf8()
    }
}

impl ContainsUtf8 for crate::mime::types::Parameter {
    open spec fn uses_utf8(&self) -> bool {
        self.name.uses_utf8() || self.value.uses_utf8()
    }

    fn contains_utf8(&self) -> (r: bool) {
        self.name.contains_utf8() || self.value.contains_utf8()
    }
}

impl ContainsUtf8 for crate::mime::types::NaiveType {
    open spec fn uses_utf8(&self) -> bool {
        self.main.uses_utf8() || self.sub.uses_utf8() || self.params.uses_utf8()
    }

    fn contains_utf8(&self) -> (r: bool) {
        self.main.contains_utf8() || self.sub.contains_utf8() || self.params.contains_utf8()
    }
}

impl ContainsUtf8 for crate::mime::types::Multipart {
    open spec fn uses_utf8(&self) -> bool {
        self.subtype.uses_utf8() || self.other_params.uses_utf8()
    }

    fn contains_utf8(&self) -> (r: bool) {
        self.subtype.contains_utf8() || self.other_params.contains_utf8()
    }
}

impl ContainsUtf8 for crate::mime::types::Message {
    open spec fn uses_utf8(&self) -> bool {
        self.subtype.uses_utf8() || self.params.uses_utf8()
    }

    fn contains_utf8(&self) -> (r: bool) {
        self.subtype.contains_utf8() || self.params.contains_utf8()
    }
}

impl ContainsUtf8 for crate::mime::types::Text {
    open spec fn uses_utf8(&self) -> bool {
        self.subtype.uses_utf8() || self.charset.uses_utf8() || self.other_params.uses_utf8()
    }

    fn contains_utf8(&self) -> (r: bool) {
        self.subtype.contains_utf8() || self.charset.contains_utf8() || self.other_params.contains_utf8()
    }
}

impl ContainsUtf8 for crate::mime::types::Binary {
    open spec fn uses_utf8(&self) -> bool {
        self.ctype.uses_utf8()
    }

    fn contains_utf8(&self) -> (r: bool) {
        self.ctype.contains_utf8()
    }
}

impl ContainsUtf8 for crate::message::Message {
    open spec fn uses_utf8(&self) -> bool {
        self.imf.uses_utf8() || self.mime.uses_utf8()
    }

    fn contains_utf8(&self) -> (r: bool) {
        self.imf.contains_utf8() || self.mime.contains_utf8()
    }
}

impl ContainsUtf8 for crate::text::misc_token::MIMEWord {
    open spec fn uses_utf8(&self) -> bool {
        match self {
            crate::text::misc_token::MIMEWord::Quoted(x) => x.uses_utf8(),
            crate::text::misc_token::MIMEWord::Atom(x) => x.uses_utf8(),
        }
    }

    fn contains_utf8(&self) -> (r: bool) {
        match self {
            crate::text::misc_token::MIMEWord::Quoted(x) => x.contains_utf8(),
            crate::text::misc_token::MIMEWord::Atom(x) => x.contains_utf8(),
        }
    }
}

impl ContainsUtf8 for crate::text::misc_token::Word {
    open spec fn uses_utf8(&self) -> bool {
        match self {
            crate::text::misc_token::Word::Quoted(x) => x.uses_utf8(),
            crate::text::misc_token::Word::Atom(x) => x.uses_utf8(),
        }
    }

    fn contains_utf8(&self) -> (r: bool) {
        match self {
            crate::text::misc_token::Word::Quoted(x) => x.contains_utf8(),
            crate::text::misc_token::Word::Atom(x) => x.contains_utf8(),
        }
    }
}

impl ContainsUtf8 for crate::text::misc_token::PhraseToken {
    open spec fn uses_utf8(&self) -> bool {
        match self {
            crate::text::misc_token::PhraseToken::Word(x) => x.uses_utf8(),
        }
    }

    fn contains_utf8(&self) -> (r: bool) {
        match self {
            crate::text::misc_token::PhraseToken::Word(x) => x.contains_utf8(),
        }
    }
}

impl ContainsUtf8 for crate::imf::mailbox::LocalPartToken {
    open spec fn uses_utf8(&self) -> bool {
        match self {
            crate::imf::mailbox::LocalPartToken::Dot => false,
            crate::imf::mailbox::LocalPartToken::Word(x) => x.uses_utf8(),
        }
    }

    fn contains_utf8(&self) -> (r: bool) {
        match self {
            crate::imf::mailbox::LocalPartToken::Dot => false,
            crate::imf::mailbox::LocalPartToken::Word(x) => x.contains_utf8(),
        }
    }
}

impl ContainsUtf8 for crate::imf::mailbox::Domain {
    open spec fn uses_utf8(&self) -> bool {
        match self {
            crate::imf::mailbox::Domain::Atoms(x) => x.uses_utf8(),
            crate::imf::mailbox::Domain::Literal(x) => x.uses_utf8(),
        }
    }

    fn contains_utf8(&self) -> (r: bool) {
        match self {
            crate::imf::mailbox::Domain::Atoms(x) => x.contains_utf8(),
            crate::imf::mailbox::Domain::Literal(x) => x.contains_utf8(),
        }
    }
}

impl ContainsUtf8 for crate::imf::address::AddressRef {
    open spec fn uses_utf8(&self) -> bool {
        match self {
            crate::imf::address::AddressRef::Single(x) => x.uses_utf8(),
            crate::imf::address::AddressRef::Many(x) => x.uses_utf8(),
        }
    }

    fn contains_utf8(&self) -> (r: bool) {
        match self {
            crate::imf::address::AddressRef::Single(x) => x.contains_utf8(),
            crate::imf::address::AddressRef::Many(x) => x.contains_utf8(),
        }
    }
}

impl ContainsUtf8 for crate::imf::identification::MessageID {
    open spec fn uses_utf8(&self) -> bool {
        match self {
            crate::imf::identification::MessageID::ObsLeftRight { left, right } => left.uses_utf8() || right.uses_utf8(),
            crate::imf::identification::MessageID::Invalid(x) => x.uses_utf8(),
        }
    }

    fn contains_utf8(&self) -> (r: bool) {
        match self {
            crate::imf::identification::MessageID::ObsLeftRight { left, right } => left.contains_utf8() || right.contains_utf8(),
            crate::imf::identification::MessageID::Invalid(x) => x.contains_utf8(),
        }
    }
}

impl ContainsUtf8 for crate::imf::DateTimeOpt {
    open spec fn uses_utf8(&self) -> bool {
        match self {
            crate::imf::DateTimeOpt::Present(x) => x.uses_utf8(),
            crate::imf::DateTimeOpt::InvalidMissing => false,
        }
    }

    fn contains_utf8(&self) -> (r: bool) {
        match self {
            crate::imf::DateTimeOpt::Present(x) => x.contains_utf8(),
            crate::imf::DateTimeOpt::InvalidMissing => false,
        }
    }
}

impl ContainsUtf8 for crate::imf::From {
    open spec fn uses_utf8(&self) -> bool {
        match self {
            crate::imf::From::Single { from, sender } => from.uses_utf8() || sender.uses_utf8(),
            crate::imf::From::Multiple { from, sender } => from.uses_utf8() || sender.uses_utf8(),
            crate::imf::From::InvalidMissingFrom { sender } => sender.uses_utf8(),
            crate::imf::From::InvalidMissingSender { from } => from.uses_utf8(),
        }
    }

    fn contains_utf8(&self) -> (r: bool) {
        match self {
            crate::imf::From::Single { from, sender } => from.contains_utf8() || sender.contains_utf8(),
            crate::imf::From::Multiple { from, sender } => from.contains_utf8() || sender.contains_utf8(),
            crate::imf::From::InvalidMissingFrom { sender } => sender.contains_utf8(),
            crate::imf::From::InvalidMissingSender { from } => from.contains_utf8(),
        }
    }
}

impl ContainsUtf8 for crate::imf::TraceField {
    open spec fn uses_utf8(&self) -> bool {
        match self {
            crate::imf::TraceField::Received(x) => x.uses_utf8(),
            crate::imf::TraceField::ReturnPath(x) => x.uses_utf8(),
        }
    }

    fn contains_utf8(&self) -> (r: bool) {
        match self {
            crate::imf::TraceField::Received(x) => x.contains_utf8(),
            crate::imf::TraceField::ReturnPath(x) => x.contains_utf8(),
        }
    }
}

impl ContainsUtf8 for crate::mime::AnyMIME {
    open spec fn uses_utf8(&self) -> bool {
        match self {
            crate::mime::AnyMIME::Mult(x) => x.uses_utf8(),
            crate::mime::AnyMIME::Msg(x) => x.uses_utf8(),
            crate::mime::AnyMIME::Txt(x) => x.uses_utf8(),
            crate::mime::AnyMIME::Bin(x) => x.uses_utf8(),
        }
    }

    fn contains_utf8(&self) -> (r: bool) {
        match self {
            crate::mime::AnyMIME::Mult(x) => x.contains_utf8(),
            crate::mime::AnyMIME::Msg(x) => x.contains_utf8(),
            crate::mime::AnyMIME::Txt(x) => x.contains_utf8(),
            crate::mime::AnyMIME::Bin(x) => x.contains_utf8(),
        }
    }
}

impl ContainsUtf8 for crate::mime::types::MultipartSubtype {
    open spec fn uses_utf8(&self) -> bool {
        match self {
            crate::mime::types::MultipartSubtype::Alternative => false,
            crate::mime::types::MultipartSubtype::Mixed => false,
            crate::mime::types::MultipartSubtype::Digest => false,
            crate::mime::types::MultipartSubtype::Parallel => false,
            crate::mime::types::MultipartSubtype::Report => false,
            crate::mime::types::MultipartSubtype::Unknown(x) => x.uses_utf8(),
        }
    }

    fn contains_utf8(&self) -> (r: bool) {
        match self {
            crate::mime::types::MultipartSubtype::Alternative => false,
            crate::mime::types::MultipartSubtype::Mixed => false,
            crate::mime::types::MultipartSubtype::Digest => false,
            crate::mime::types::MultipartSubtype::Parallel => false,
            crate::mime::types::MultipartSubtype::Report => false,
            crate::mime::types::MultipartSubtype::Unknown(x) => x.contains_utf8(),
        }
    }
}

impl ContainsUtf8 for crate::mime::types::TextSubtype {
    open spec fn uses_utf8(&self) -> bool {
        match self {
            crate::mime::types::TextSubtype::Plain => false,
            crate::mime::types::TextSubtype::Html => false,
            crate::mime::types::TextSubtype::Unknown(x) => x.uses_utf8(),
        }
    }

    fn contains_utf8(&self) -> (r: bool) {
        match self {
            crate::mime::types::TextSubtype::Plain => false,
            crate::mime::types::TextSubtype::Html => false,
            crate::mime::types::TextSubtype::Unknown(x) => x.contains_utf8(),
        }
    }
}

} // verus!
