//! IMF header fields: their names and their parsed bodies.
use vstd::prelude::*;
use crate::dup::seq_view;
use crate::header::FieldRaw;
use crate::header::FieldName;
use crate::header::{print, print_unstructured, field_text, field_marks, unstructured_field_text, unstructured_field_marks};
use crate::print::{Formatter, Print, graphic, lemma_graphic_allowed};
use crate::text::ascii;
use crate::imf::address::{AddressRef, AddressRefV, spec_nullable_address_list, nullable_address_list};
use crate::imf::datetime::{DateTime, spec_date_time, date_time, date_time_panics};
use crate::imf::identification::{MessageID, MessageIDV, spec_msg_id, msg_id, spec_msg_list_items, nullable_msg_list};
use crate::imf::mailbox::{MailboxList, MailboxRef, MailboxRefV, spec_mailbox, mailbox, spec_mailbox_list, mailbox_list};
use crate::imf::mime::{Version, spec_version, spec_version_fits, version};
use crate::imf::trace::{ReturnPath, spec_return_path, return_path};
use crate::text::ascii::{lower, to_ascii_lowercase, bytes_eq, bytes_to_vec};
use crate::text::misc_token::{PhraseList, Unstructured, UnstrTokenV, WordV, spec_phrase_list, phrase_list, spec_unstructured, unstructured};
use crate::imf::mailbox::AddrSpecV;

verus! {

/// What an IMF field is about. Comments, keywords and trace fields may
/// repeat: their entry holds their position among their kind.
#[derive(Debug, Clone, Copy, PartialEq, Eq, Hash, Structural)]
pub enum Entry {
    Date,
    From,
    Sender,
    ReplyTo,
    To,
    Cc,
    Bcc,
    MessageID,
    InReplyTo,
    References,
    Subject,
    Comments(usize),
    Keywords(usize),
    /// Either a Received or a Return-Path field.
    Trace(usize),
    MIMEVersion,
}

/// The kinds of IMF field names.
#[derive(Debug, Clone, Copy, PartialEq, Eq, Structural)]
pub enum FieldKind {
    Date,
    From,
    Sender,
    ReplyTo,
    To,
    Cc,
    Bcc,
    MessageID,
    InReplyTo,
    References,
    Subject,
    Comments,
    Keywords,
    ReturnPath,
    Received,
    MIMEVersion,
    Unknown,
}

/// The kind of IMF field that a lower-cased name names.
pub open spec fn field_kind(l: Seq<u8>) -> FieldKind {
    if l == seq![100u8, 97u8, 116u8, 101u8] {
        FieldKind::Date
    } else if l == seq![102u8, 114u8, 111u8, 109u8] {
        FieldKind::From
    } else if l == seq![115u8, 101u8, 110u8, 100u8, 101u8, 114u8] {
        FieldKind::Sender
    } else if l == seq![114u8, 101u8, 112u8, 108u8, 121u8, 45u8, 116u8, 111u8] {
        FieldKind::ReplyTo
    } else if l == seq![116u8, 111u8] {
        FieldKind::To
    } else if l == seq![99u8, 99u8] {
        FieldKind::Cc
    } else if l == seq![98u8, 99u8, 99u8] {
        FieldKind::Bcc
    } else if l == seq![109u8, 101u8, 115u8, 115u8, 97u8, 103u8, 101u8, 45u8, 105u8, 100u8] {
        FieldKind::MessageID
    } else if l == seq![105u8, 110u8, 45u8, 114u8, 101u8, 112u8, 108u8, 121u8, 45u8, 116u8, 111u8] {
        FieldKind::InReplyTo
    } else if l == seq![114u8, 101u8, 102u8, 101u8, 114u8, 101u8, 110u8, 99u8, 101u8, 115u8] {
        FieldKind::References
    } else if l == seq![115u8, 117u8, 98u8, 106u8, 101u8, 99u8, 116u8] {
        FieldKind::Subject
    } else if l == seq![99u8, 111u8, 109u8, 109u8, 101u8, 110u8, 116u8, 115u8] {
        FieldKind::Comments
    } else if l == seq![107u8, 101u8, 121u8, 119u8, 111u8, 114u8, 100u8, 115u8] {
        FieldKind::Keywords
    } else if l == seq![114u8, 101u8, 116u8, 117u8, 114u8, 110u8, 45u8, 112u8, 97u8, 116u8, 104u8] {
        FieldKind::ReturnPath
    } else if l == seq![114u8, 101u8, 99u8, 101u8, 105u8, 118u8, 101u8, 100u8] {
        FieldKind::Received
    } else if l == seq![109u8, 105u8, 109u8, 101u8, 45u8, 118u8, 101u8, 114u8, 115u8, 105u8, 111u8, 110u8] {
        FieldKind::MIMEVersion
    } else {
        FieldKind::Unknown
    }
}

/// The kind of IMF field that a name names, ignoring ASCII case.
pub fn kind_of_name(name: &[u8]) -> (r: FieldKind)
    ensures
        r == field_kind(lower(name@)),
{
    let l = to_ascii_lowercase(name);
    let l = l.as_slice();
    if bytes_eq(l, [100u8, 97u8, 116u8, 101u8].as_slice()) {
        FieldKind::Date
    } else if bytes_eq(l, [102u8, 114u8, 111u8, 109u8].as_slice()) {
        FieldKind::From
    } else if bytes_eq(l, [115u8, 101u8, 110u8, 100u8, 101u8, 114u8].as_slice()) {
        FieldKind::Sender
    } else if bytes_eq(l, [114u8, 101u8, 112u8, 108u8, 121u8, 45u8, 116u8, 111u8].as_slice()) {
        FieldKind::ReplyTo
    } else if bytes_eq(l, [116u8, 111u8].as_slice()) {
        FieldKind::To
    } else if bytes_eq(l, [99u8, 99u8].as_slice()) {
        FieldKind::Cc
    } else if bytes_eq(l, [98u8, 99u8, 99u8].as_slice()) {
        FieldKind::Bcc
    } else if bytes_eq(l, [109u8, 101u8, 115u8, 115u8, 97u8, 103u8, 101u8, 45u8, 105u8, 100u8].as_slice()) {
        FieldKind::MessageID
    } else if bytes_eq(l, [105u8, 110u8, 45u8, 114u8, 101u8, 112u8, 108u8, 121u8, 45u8, 116u8, 111u8].as_slice()) {
        FieldKind::InReplyTo
    } else if bytes_eq(l, [114u8, 101u8, 102u8, 101u8, 114u8, 101u8, 110u8, 99u8, 101u8, 115u8].as_slice()) {
        FieldKind::References
    } else if bytes_eq(l, [115u8, 117u8, 98u8, 106u8, 101u8, 99u8, 116u8].as_slice()) {
        FieldKind::Subject
    } else if bytes_eq(l, [99u8, 111u8, 109u8, 109u8, 101u8, 110u8, 116u8, 115u8].as_slice()) {
        FieldKind::Comments
    } else if bytes_eq(l, [107u8, 101u8, 121u8, 119u8, 111u8, 114u8, 100u8, 115u8].as_slice()) {
        FieldKind::Keywords
    } else if bytes_eq(l, [114u8, 101u8, 116u8, 117u8, 114u8, 110u8, 45u8, 112u8, 97u8, 116u8, 104u8].as_slice()) {
        FieldKind::ReturnPath
    } else if bytes_eq(l, [114u8, 101u8, 99u8, 101u8, 105u8, 118u8, 101u8, 100u8].as_slice()) {
        FieldKind::Received
    } else if bytes_eq(l, [109u8, 105u8, 109u8, 101u8, 45u8, 118u8, 101u8, 114u8, 115u8, 105u8, 111u8, 110u8].as_slice()) {
        FieldKind::MIMEVersion
    } else {
        FieldKind::Unknown
    }
}

/// A parsed IMF field.
#[derive(Debug, PartialEq, Eq)]
pub enum Field {
    // 3.6.1.  The Origination Date Field
    Date(DateTime),
    // 3.6.2.  Originator Fields
    From(MailboxList),
    Sender(MailboxRef),
    ReplyTo(Vec<AddressRef>),
    // 3.6.3.  Destination Address Fields
    To(Vec<AddressRef>),
    Cc(Vec<AddressRef>),
    Bcc(Vec<AddressRef>),
    // 3.6.4.  Identification Fields
    MessageID(MessageID),
    InReplyTo(Vec<MessageID>),
    References(Vec<MessageID>),
    // 3.6.5.  Informational Fields
    Subject(Unstructured),
    Comments(Unstructured),
    Keywords(PhraseList),
    // 3.6.7   Trace Fields
    Received(Unstructured),
    ReturnPath(ReturnPath),
    // MIME
    MIMEVersion(Version),
}

pub enum FieldV {
    Date(DateTime),
    From(Seq<MailboxRefV>),
    Sender(MailboxRefV),
    ReplyTo(Seq<AddressRefV>),
    To(Seq<AddressRefV>),
    Cc(Seq<AddressRefV>),
    Bcc(Seq<AddressRefV>),
    MessageID(MessageIDV),
    InReplyTo(Seq<MessageIDV>),
    References(Seq<MessageIDV>),
    Subject(Seq<UnstrTokenV>),
    Comments(Seq<UnstrTokenV>),
    Keywords(Seq<Seq<WordV>>),
    Received(Seq<UnstrTokenV>),
    ReturnPath(Option<AddrSpecV>),
    MIMEVersion(Version),
}

impl View for Field {
    type V = FieldV;

    open spec fn view(&self) -> FieldV {
        match self {
            Field::Date(d) => FieldV::Date(*d),
            Field::From(l) => FieldV::From(l@),
            Field::Sender(m) => FieldV::Sender(m@),
            Field::ReplyTo(l) => FieldV::ReplyTo(seq_view(l@)),
            Field::To(l) => FieldV::To(seq_view(l@)),
            Field::Cc(l) => FieldV::Cc(seq_view(l@)),
            Field::Bcc(l) => FieldV::Bcc(seq_view(l@)),
            Field::MessageID(m) => FieldV::MessageID(m@),
            Field::InReplyTo(l) => FieldV::InReplyTo(seq_view(l@)),
            Field::References(l) => FieldV::References(seq_view(l@)),
            Field::Subject(u) => FieldV::Subject(u@),
            Field::Comments(u) => FieldV::Comments(u@),
            Field::Keywords(k) => FieldV::Keywords(k@),
            Field::Received(u) => FieldV::Received(u@),
            Field::ReturnPath(p) => FieldV::ReturnPath(p@),
            Field::MIMEVersion(v) => FieldV::MIMEVersion(*v),
        }
    }
}

/// Why a header field is not an IMF field.
#[derive(Debug, Clone, Copy, PartialEq, Eq, Structural)]
pub enum InvalidField {
    /// The field name is not a known IMF field.
    Name,
    /// The field body could not be parsed.
    Body,
    /// The field could be parsed but represents a dummy value that is not part
    /// of the RFC-strict syntax. It must be discarded (no meaningful data is
    /// lost).
    NeedsDiscard,
}

/// The parsers of these field bodies have no answer on them (they panic):
/// a date whose numeric zone has more than one sign, a MIME version whose
/// numbers do not fit in 64 bits.
#[verifier::opaque]
pub open spec fn field_panics(name: Seq<u8>, body: Seq<u8>) -> bool {
    match field_kind(lower(name)) {
        FieldKind::Date => date_time_panics(body, 0),
        FieldKind::MIMEVersion => !spec_version_fits(body, 0),
        _ => false,
    }
}

/// An optional parse result that must consume the whole body.
pub open spec fn whole<T>(r: Option<(int, T)>, n: int) -> Option<T> {
    match r {
        Some((j, v)) => if j == n {
            Some(v)
        } else {
            None
        },
        None => None,
    }
}

/// A list that consumes the whole body and that must not be empty.
pub open spec fn nonempty_list<T>(j: int, n: int, l: Seq<T>, f: spec_fn(Seq<T>) -> FieldV) -> Result<FieldV, InvalidField> {
    if j != n {
        Err(InvalidField::Body)
    } else if l.len() == 0 {
        Err(InvalidField::NeedsDiscard)
    } else {
        Ok(f(l))
    }
}

pub open spec fn ok_or_body<T>(r: Option<T>, f: spec_fn(T) -> FieldV) -> Result<FieldV, InvalidField> {
    match r {
        Some(v) => Ok(f(v)),
        None => Err(InvalidField::Body),
    }
}

/// The IMF field of a kind of name and a body: the body is parsed as the
/// kind asks, and must be consumed whole.
#[verifier::opaque]
pub open spec fn spec_field_of_kind(k: FieldKind, b: Seq<u8>) -> Result<FieldV, InvalidField> {
    let n = b.len() as int;
    match k {
        FieldKind::Date => ok_or_body(whole(spec_date_time(b, 0), n), |d| FieldV::Date(d)),
        FieldKind::From => ok_or_body(whole(spec_mailbox_list(b, 0), n), |l| FieldV::From(l)),
        FieldKind::Sender => ok_or_body(whole(spec_mailbox(b, 0), n), |m| FieldV::Sender(m)),
        FieldKind::ReplyTo => {
            let (j, l) = spec_nullable_address_list(b, 0);
            nonempty_list(j, n, l, |l| FieldV::ReplyTo(l))
        },
        FieldKind::To => {
            let (j, l) = spec_nullable_address_list(b, 0);
            nonempty_list(j, n, l, |l| FieldV::To(l))
        },
        FieldKind::Cc => {
            let (j, l) = spec_nullable_address_list(b, 0);
            nonempty_list(j, n, l, |l| FieldV::Cc(l))
        },
        FieldKind::Bcc => {
            let (j, l) = spec_nullable_address_list(b, 0);
            if j == n {
                Ok(FieldV::Bcc(l))
            } else {
                Err(InvalidField::Body)
            }
        },
        FieldKind::MessageID => ok_or_body(whole(spec_msg_id(b, 0), n), |m| FieldV::MessageID(m)),
        FieldKind::InReplyTo => {
            let (j, l) = spec_msg_list_items(b, 0);
            nonempty_list(j, n, l, |l| FieldV::InReplyTo(l))
        },
        FieldKind::References => {
            let (j, l) = spec_msg_list_items(b, 0);
            nonempty_list(j, n, l, |l| FieldV::References(l))
        },
        FieldKind::Subject => {
            let (j, u) = spec_unstructured(b, 0);
            if j == n {
                Ok(FieldV::Subject(u))
            } else {
                Err(InvalidField::Body)
            }
        },
        FieldKind::Comments => {
            let (j, u) = spec_unstructured(b, 0);
            if j == n {
                Ok(FieldV::Comments(u))
            } else {
                Err(InvalidField::Body)
            }
        },
        FieldKind::Keywords => {
            let (j, k) = spec_phrase_list(b, 0);
            if j != n {
                Err(InvalidField::Body)
            } else {
                match k {
                    Some(k) => Ok(FieldV::Keywords(k)),
                    None => Err(InvalidField::NeedsDiscard),
                }
            }
        },
        FieldKind::ReturnPath => ok_or_body(whole(spec_return_path(b, 0), n), |p| FieldV::ReturnPath(p)),
        FieldKind::Received => {
            let (j, u) = spec_unstructured(b, 0);
            if j == n {
                Ok(FieldV::Received(u))
            } else {
                Err(InvalidField::Body)
            }
        },
        FieldKind::MIMEVersion => match spec_version(b, 0) {
            Some((j, major, minor)) => if j == n {
                Ok(FieldV::MIMEVersion(Version { major: major as u64, minor: minor as u64 }))
            } else {
                Err(InvalidField::Body)
            },
            None => Err(InvalidField::Body),
        },
        FieldKind::Unknown => Err(InvalidField::Name),
    }
}

/// The IMF field of a header field name and body.
pub open spec fn spec_field(name: Seq<u8>, b: Seq<u8>) -> Result<FieldV, InvalidField> {
    spec_field_of_kind(field_kind(lower(name)), b)
}

pub open spec fn field_result_view(r: Result<Field, InvalidField>) -> Result<FieldV, InvalidField> {
    match r {
        Ok(f) => Ok(f@),
        Err(e) => Err(e),
    }
}

fn date_field(b: &[u8]) -> (r: Result<Field, InvalidField>)
    requires
        !date_time_panics(b@, 0),
    ensures
        field_result_view(r) == spec_field_of_kind(FieldKind::Date, b@),
{
    reveal(spec_field_of_kind);
    match date_time(b, 0) {
        Some((j, d)) => if j == b.len() {
            Ok(Field::Date(d))
        } else {
            Err(InvalidField::Body)
        },
        None => Err(InvalidField::Body),
    }
}

fn from_field(b: &[u8]) -> (r: Result<Field, InvalidField>)
    ensures
        field_result_view(r) == spec_field_of_kind(FieldKind::From, b@),
{
    reveal(spec_field_of_kind);
    match mailbox_list(b, 0) {
        Some((j, l)) => if j == b.len() {
            Ok(Field::From(l))
        } else {
            Err(InvalidField::Body)
        },
        None => Err(InvalidField::Body),
    }
}

fn sender_field(b: &[u8]) -> (r: Result<Field, InvalidField>)
    ensures
        field_result_view(r) == spec_field_of_kind(FieldKind::Sender, b@),
{
    reveal(spec_field_of_kind);
    match mailbox(b, 0) {
        Some((j, m)) => if j == b.len() {
            Ok(Field::Sender(m))
        } else {
            Err(InvalidField::Body)
        },
        None => Err(InvalidField::Body),
    }
}

fn address_field(k: FieldKind, b: &[u8]) -> (r: Result<Field, InvalidField>)
    requires
        k == FieldKind::ReplyTo || k == FieldKind::To || k == FieldKind::Cc || k == FieldKind::Bcc,
    ensures
        field_result_view(r) == spec_field_of_kind(k, b@),
{
    reveal(spec_field_of_kind);
    let (j, l) = nullable_address_list(b, 0);
    if j != b.len() {
        Err(InvalidField::Body)
    } else {
        match k {
            FieldKind::Bcc => Ok(Field::Bcc(l)),
            _ => if l.len() == 0 {
                Err(InvalidField::NeedsDiscard)
            } else {
                match k {
                    FieldKind::ReplyTo => Ok(Field::ReplyTo(l)),
                    FieldKind::To => Ok(Field::To(l)),
                    _ => Ok(Field::Cc(l)),
                }
            },
        }
    }
}

fn message_id_field(b: &[u8]) -> (r: Result<Field, InvalidField>)
    ensures
        field_result_view(r) == spec_field_of_kind(FieldKind::MessageID, b@),
{
    reveal(spec_field_of_kind);
    match msg_id(b, 0) {
        Some((j, m)) => if j == b.len() {
            Ok(Field::MessageID(m))
        } else {
            Err(InvalidField::Body)
        },
        None => Err(InvalidField::Body),
    }
}

fn msg_list_field(k: FieldKind, b: &[u8]) -> (r: Result<Field, InvalidField>)
    requires
        k == FieldKind::InReplyTo || k == FieldKind::References,
    ensures
        field_result_view(r) == spec_field_of_kind(k, b@),
{
    reveal(spec_field_of_kind);
    let (j, l) = nullable_msg_list(b, 0);
    if j != b.len() {
        Err(InvalidField::Body)
    } else if l.len() == 0 {
        Err(InvalidField::NeedsDiscard)
    } else {
        match k {
            FieldKind::InReplyTo => Ok(Field::InReplyTo(l)),
            _ => Ok(Field::References(l)),
        }
    }
}

fn unstructured_field(k: FieldKind, b: &[u8]) -> (r: Result<Field, InvalidField>)
    requires
        k == FieldKind::Subject || k == FieldKind::Comments || k == FieldKind::Received,
    ensures
        field_result_view(r) == spec_field_of_kind(k, b@),
{
    reveal(spec_field_of_kind);
    let (j, u) = unstructured(b, 0);
    if j != b.len() {
        Err(InvalidField::Body)
    } else {
        match k {
            FieldKind::Subject => Ok(Field::Subject(u)),
            FieldKind::Comments => Ok(Field::Comments(u)),
            _ => Ok(Field::Received(u)),
        }
    }
}

fn keywords_field(b: &[u8]) -> (r: Result<Field, InvalidField>)
    ensures
        field_result_view(r) == spec_field_of_kind(FieldKind::Keywords, b@),
{
    reveal(spec_field_of_kind);
    let (j, k) = phrase_list(b, 0);
    if j != b.len() {
        Err(InvalidField::Body)
    } else {
        match k {
            Some(k) => Ok(Field::Keywords(k)),
            None => Err(InvalidField::NeedsDiscard),
        }
    }
}

proof fn lemma_return_path_kind(b: Seq<u8>)
    ensures
        spec_field_of_kind(FieldKind::ReturnPath, b) == ok_or_body(
            whole(spec_return_path(b, 0), b.len() as int),
            |p| FieldV::ReturnPath(p),
        ),
{
    reveal(spec_field_of_kind);
}

fn return_path_field(b: &[u8]) -> (r: Result<Field, InvalidField>)
    ensures
        field_result_view(r) == spec_field_of_kind(FieldKind::ReturnPath, b@),
{
    proof {
        lemma_return_path_kind(b@);
    }
    match return_path(b, 0) {
        Some((j, p)) => if j == b.len() {
            Ok(Field::ReturnPath(p))
        } else {
            Err(InvalidField::Body)
        },
        None => Err(InvalidField::Body),
    }
}

fn version_field(b: &[u8]) -> (r: Result<Field, InvalidField>)
    requires
        spec_version_fits(b@, 0),
    ensures
        field_result_view(r) == spec_field_of_kind(FieldKind::MIMEVersion, b@),
{
    reveal(spec_field_of_kind);
    match version(b, 0) {
        Some((j, v)) => if j == b.len() {
            Ok(Field::MIMEVersion(v))
        } else {
            Err(InvalidField::Body)
        },
        None => Err(InvalidField::Body),
    }
}

impl Field {
    /// Parses the body of a header field as the IMF field that its name
    /// names.
    pub fn try_from(f: &FieldRaw) -> (r: Result<Field, InvalidField>)
        requires
            !field_panics(f.name@, f.body@),
        ensures
            field_result_view(r) == spec_field(f.name@, f.body@),
    {
        reveal(field_panics);
        let b = f.body;
        let k = kind_of_name(f.name.bytes());
        match k {
            FieldKind::Date => date_field(b),
            FieldKind::From => from_field(b),
            FieldKind::Sender => sender_field(b),
            FieldKind::ReplyTo | FieldKind::To | FieldKind::Cc | FieldKind::Bcc => address_field(
                k,
                b,
            ),
            FieldKind::MessageID => message_id_field(b),
            FieldKind::InReplyTo | FieldKind::References => msg_list_field(k, b),
            FieldKind::Subject | FieldKind::Comments | FieldKind::Received => unstructured_field(
                k,
                b,
            ),
            FieldKind::Keywords => keywords_field(b),
            FieldKind::ReturnPath => return_path_field(b),
            FieldKind::MIMEVersion => version_field(b),
            FieldKind::Unknown => {
                proof {
                    reveal(spec_field_of_kind);
                }
                Err(InvalidField::Name)
            },
        }
    }
}

/// The name of the header field of a parsed IMF field, as printed.
pub open spec fn imf_field_name(f: FieldV) -> Seq<u8> {
    match f {
        FieldV::Date(_) => seq![68u8, 97u8, 116u8, 101u8],
        FieldV::From(_) => seq![70u8, 114u8, 111u8, 109u8],
        FieldV::Sender(_) => seq![83u8, 101u8, 110u8, 100u8, 101u8, 114u8],
        FieldV::ReplyTo(_) => seq![82u8, 101u8, 112u8, 108u8, 121u8, 45u8, 84u8, 111u8],
        FieldV::To(_) => seq![84u8, 111u8],
        FieldV::Cc(_) => seq![67u8, 99u8],
        FieldV::Bcc(_) => seq![66u8, 99u8, 99u8],
        FieldV::MessageID(_) => seq![77u8, 101u8, 115u8, 115u8, 97u8, 103u8, 101u8, 45u8, 73u8, 68u8],
        FieldV::InReplyTo(_) => seq![73u8, 110u8, 45u8, 82u8, 101u8, 112u8, 108u8, 121u8, 45u8, 84u8, 111u8],
        FieldV::References(_) => seq![82u8, 101u8, 102u8, 101u8, 114u8, 101u8, 110u8, 99u8, 101u8, 115u8],
        FieldV::Subject(_) => seq![83u8, 117u8, 98u8, 106u8, 101u8, 99u8, 116u8],
        FieldV::Comments(_) => seq![67u8, 111u8, 109u8, 109u8, 101u8, 110u8, 116u8, 115u8],
        FieldV::Keywords(_) => seq![75u8, 101u8, 121u8, 119u8, 111u8, 114u8, 100u8, 115u8],
        FieldV::Received(_) => seq![82u8, 101u8, 99u8, 101u8, 105u8, 118u8, 101u8, 100u8],
        FieldV::ReturnPath(_) => seq![82u8, 101u8, 116u8, 117u8, 114u8, 110u8, 45u8, 80u8, 97u8, 116u8, 104u8],
        FieldV::MIMEVersion(_) => seq![77u8, 73u8, 77u8, 69u8, 45u8, 86u8, 101u8, 114u8, 115u8, 105u8, 111u8, 110u8],
    }
}

impl Field {
    /// The name of this field, as printed.
    pub fn raw_name(&self) -> (r: FieldName)
        ensures
            r@ == imf_field_name(self@),
    {
        let v: Vec<u8> = match self {
            Field::Date(_) => bytes_to_vec([68u8, 97u8, 116u8, 101u8].as_slice()),
            Field::From(_) => bytes_to_vec([70u8, 114u8, 111u8, 109u8].as_slice()),
            Field::Sender(_) => bytes_to_vec([83u8, 101u8, 110u8, 100u8, 101u8, 114u8].as_slice()),
            Field::ReplyTo(_) => bytes_to_vec([82u8, 101u8, 112u8, 108u8, 121u8, 45u8, 84u8, 111u8].as_slice()),
            Field::To(_) => bytes_to_vec([84u8, 111u8].as_slice()),
            Field::Cc(_) => bytes_to_vec([67u8, 99u8].as_slice()),
            Field::Bcc(_) => bytes_to_vec([66u8, 99u8, 99u8].as_slice()),
            Field::MessageID(_) => bytes_to_vec([77u8, 101u8, 115u8, 115u8, 97u8, 103u8, 101u8, 45u8, 73u8, 68u8].as_slice()),
            Field::InReplyTo(_) => bytes_to_vec([73u8, 110u8, 45u8, 82u8, 101u8, 112u8, 108u8, 121u8, 45u8, 84u8, 111u8].as_slice()),
            Field::References(_) => bytes_to_vec([82u8, 101u8, 102u8, 101u8, 114u8, 101u8, 110u8, 99u8, 101u8, 115u8].as_slice()),
            Field::Subject(_) => bytes_to_vec([83u8, 117u8, 98u8, 106u8, 101u8, 99u8, 116u8].as_slice()),
            Field::Comments(_) => bytes_to_vec([67u8, 111u8, 109u8, 109u8, 101u8, 110u8, 116u8, 115u8].as_slice()),
            Field::Keywords(_) => bytes_to_vec([75u8, 101u8, 121u8, 119u8, 111u8, 114u8, 100u8, 115u8].as_slice()),
            Field::Received(_) => bytes_to_vec([82u8, 101u8, 99u8, 101u8, 105u8, 118u8, 101u8, 100u8].as_slice()),
            Field::ReturnPath(_) => bytes_to_vec([82u8, 101u8, 116u8, 117u8, 114u8, 110u8, 45u8, 80u8, 97u8, 116u8, 104u8].as_slice()),
            Field::MIMEVersion(_) => bytes_to_vec([77u8, 73u8, 77u8, 69u8, 45u8, 86u8, 101u8, 114u8, 115u8, 105u8, 111u8, 110u8].as_slice()),
        };
        FieldName(v)
    }
}

proof fn lemma_nonempty_date(b: Seq<u8>)
    requires
        spec_field_of_kind(FieldKind::Date, b) is Ok,
    ensures
        crate::imf::nonempty_lists(spec_field_of_kind(FieldKind::Date, b)->Ok_0),
{
    reveal(spec_field_of_kind);
}

proof fn lemma_nonempty_from(b: Seq<u8>)
    requires
        spec_field_of_kind(FieldKind::From, b) is Ok,
    ensures
        crate::imf::nonempty_lists(spec_field_of_kind(FieldKind::From, b)->Ok_0),
{
    reveal(spec_field_of_kind);
}

proof fn lemma_nonempty_sender(b: Seq<u8>)
    requires
        spec_field_of_kind(FieldKind::Sender, b) is Ok,
    ensures
        crate::imf::nonempty_lists(spec_field_of_kind(FieldKind::Sender, b)->Ok_0),
{
    reveal(spec_field_of_kind);
}

proof fn lemma_nonempty_replyto(b: Seq<u8>)
    requires
        spec_field_of_kind(FieldKind::ReplyTo, b) is Ok,
    ensures
        crate::imf::nonempty_lists(spec_field_of_kind(FieldKind::ReplyTo, b)->Ok_0),
{
    reveal(spec_field_of_kind);
}

proof fn lemma_nonempty_to(b: Seq<u8>)
    requires
        spec_field_of_kind(FieldKind::To, b) is Ok,
    ensures
        crate::imf::nonempty_lists(spec_field_of_kind(FieldKind::To, b)->Ok_0),
{
    reveal(spec_field_of_kind);
}

proof fn lemma_nonempty_cc(b: Seq<u8>)
    requires
        spec_field_of_kind(FieldKind::Cc, b) is Ok,
    ensures
        crate::imf::nonempty_lists(spec_field_of_kind(FieldKind::Cc, b)->Ok_0),
{
    reveal(spec_field_of_kind);
}

proof fn lemma_nonempty_bcc(b: Seq<u8>)
    requires
        spec_field_of_kind(FieldKind::Bcc, b) is Ok,
    ensures
        crate::imf::nonempty_lists(spec_field_of_kind(FieldKind::Bcc, b)->Ok_0),
{
    reveal(spec_field_of_kind);
}

proof fn lemma_nonempty_messageid(b: Seq<u8>)
    requires
        spec_field_of_kind(FieldKind::MessageID, b) is Ok,
    ensures
        crate::imf::nonempty_lists(spec_field_of_kind(FieldKind::MessageID, b)->Ok_0),
{
    reveal(spec_field_of_kind);
}

proof fn lemma_nonempty_inreplyto(b: Seq<u8>)
    requires
        spec_field_of_kind(FieldKind::InReplyTo, b) is Ok,
    ensures
        crate::imf::nonempty_lists(spec_field_of_kind(FieldKind::InReplyTo, b)->Ok_0),
{
    reveal(spec_field_of_kind);
}

proof fn lemma_nonempty_references(b: Seq<u8>)
    requires
        spec_field_of_kind(FieldKind::References, b) is Ok,
    ensures
        crate::imf::nonempty_lists(spec_field_of_kind(FieldKind::References, b)->Ok_0),
{
    reveal(spec_field_of_kind);
}

proof fn lemma_nonempty_subject(b: Seq<u8>)
    requires
        spec_field_of_kind(FieldKind::Subject, b) is Ok,
    ensures
        crate::imf::nonempty_lists(spec_field_of_kind(FieldKind::Subject, b)->Ok_0),
{
    reveal(spec_field_of_kind);
}

proof fn lemma_nonempty_comments(b: Seq<u8>)
    requires
        spec_field_of_kind(FieldKind::Comments, b) is Ok,
    ensures
        crate::imf::nonempty_lists(spec_field_of_kind(FieldKind::Comments, b)->Ok_0),
{
    reveal(spec_field_of_kind);
}

proof fn lemma_nonempty_keywords(b: Seq<u8>)
    requires
        spec_field_of_kind(FieldKind::Keywords, b) is Ok,
    ensures
        crate::imf::nonempty_lists(spec_field_of_kind(FieldKind::Keywords, b)->Ok_0),
{
    reveal(spec_field_of_kind);
}

proof fn lemma_nonempty_returnpath(b: Seq<u8>)
    requires
        spec_field_of_kind(FieldKind::ReturnPath, b) is Ok,
    ensures
        crate::imf::nonempty_lists(spec_field_of_kind(FieldKind::ReturnPath, b)->Ok_0),
{
    reveal(spec_field_of_kind);
}

proof fn lemma_nonempty_received(b: Seq<u8>)
    requires
        spec_field_of_kind(FieldKind::Received, b) is Ok,
    ensures
        crate::imf::nonempty_lists(spec_field_of_kind(FieldKind::Received, b)->Ok_0),
{
    reveal(spec_field_of_kind);
}

proof fn lemma_nonempty_mimeversion(b: Seq<u8>)
    requires
        spec_field_of_kind(FieldKind::MIMEVersion, b) is Ok,
    ensures
        crate::imf::nonempty_lists(spec_field_of_kind(FieldKind::MIMEVersion, b)->Ok_0),
{
    reveal(spec_field_of_kind);
}

proof fn lemma_nonempty_unknown(b: Seq<u8>)
    requires
        spec_field_of_kind(FieldKind::Unknown, b) is Ok,
    ensures
        crate::imf::nonempty_lists(spec_field_of_kind(FieldKind::Unknown, b)->Ok_0),
{
    reveal(spec_field_of_kind);
}

/// Parsed IMF fields never hold an empty address or identifier list (such
/// fields are to be discarded).
pub proof fn lemma_parsed_lists_nonempty(name: Seq<u8>, body: Seq<u8>)
    requires
        spec_field(name, body) is Ok,
    ensures
        crate::imf::nonempty_lists(spec_field(name, body)->Ok_0),
{
    match field_kind(lower(name)) {
        FieldKind::Date => lemma_nonempty_date(body),
        FieldKind::From => lemma_nonempty_from(body),
        FieldKind::Sender => lemma_nonempty_sender(body),
        FieldKind::ReplyTo => lemma_nonempty_replyto(body),
        FieldKind::To => lemma_nonempty_to(body),
        FieldKind::Cc => lemma_nonempty_cc(body),
        FieldKind::Bcc => lemma_nonempty_bcc(body),
        FieldKind::MessageID => lemma_nonempty_messageid(body),
        FieldKind::InReplyTo => lemma_nonempty_inreplyto(body),
        FieldKind::References => lemma_nonempty_references(body),
        FieldKind::Subject => lemma_nonempty_subject(body),
        FieldKind::Comments => lemma_nonempty_comments(body),
        FieldKind::Keywords => lemma_nonempty_keywords(body),
        FieldKind::ReturnPath => lemma_nonempty_returnpath(body),
        FieldKind::Received => lemma_nonempty_received(body),
        FieldKind::MIMEVersion => lemma_nonempty_mimeversion(body),
        FieldKind::Unknown => lemma_nonempty_unknown(body),
    }
}

/// The name is that of an IMF field (ignoring ASCII case).
pub fn is_imf_header(name: &FieldName) -> (r: bool)
    ensures
        r == (field_kind(lower(name@)) != FieldKind::Unknown),
{
    match kind_of_name(name.bytes()) {
        FieldKind::Unknown => false,
        _ => true,
    }
}


// ---------------------------------------------------------------- printing

/// The name a field of a kind is printed with; none for an unknown kind.
pub open spec fn field_name_text(k: FieldKind) -> Seq<u8> {
    match k {
        FieldKind::Date => seq![68u8, 97u8, 116u8, 101u8],
        FieldKind::From => seq![70u8, 114u8, 111u8, 109u8],
        FieldKind::Sender => seq![83u8, 101u8, 110u8, 100u8, 101u8, 114u8],
        FieldKind::ReplyTo => seq![82u8, 101u8, 112u8, 108u8, 121u8, 45u8, 84u8, 111u8],
        FieldKind::To => seq![84u8, 111u8],
        FieldKind::Cc => seq![67u8, 99u8],
        FieldKind::Bcc => seq![66u8, 99u8, 99u8],
        FieldKind::MessageID => seq![77u8, 101u8, 115u8, 115u8, 97u8, 103u8, 101u8, 45u8, 73u8, 68u8],
        FieldKind::InReplyTo => seq![73u8, 110u8, 45u8, 82u8, 101u8, 112u8, 108u8, 121u8, 45u8, 84u8, 111u8],
        FieldKind::References => seq![82u8, 101u8, 102u8, 101u8, 114u8, 101u8, 110u8, 99u8, 101u8, 115u8],
        FieldKind::Subject => seq![83u8, 117u8, 98u8, 106u8, 101u8, 99u8, 116u8],
        FieldKind::Comments => seq![67u8, 111u8, 109u8, 109u8, 101u8, 110u8, 116u8, 115u8],
        FieldKind::Keywords => seq![75u8, 101u8, 121u8, 119u8, 111u8, 114u8, 100u8, 115u8],
        FieldKind::ReturnPath => seq![82u8, 101u8, 116u8, 117u8, 114u8, 110u8, 45u8, 80u8, 97u8, 116u8, 104u8],
        FieldKind::Received => seq![82u8, 101u8, 99u8, 101u8, 105u8, 118u8, 101u8, 100u8],
        FieldKind::MIMEVersion => seq![77u8, 73u8, 77u8, 69u8, 45u8, 86u8, 101u8, 114u8, 115u8, 105u8, 111u8, 110u8],
        FieldKind::Unknown => seq![],
    }
}

/// The name a field of a kind is printed with.
pub fn field_name(k: FieldKind) -> (r: Vec<u8>)
    ensures
        r@ == field_name_text(k),
{
    match k {
        FieldKind::Date => bytes_to_vec([68u8, 97u8, 116u8, 101u8].as_slice()),
        FieldKind::From => bytes_to_vec([70u8, 114u8, 111u8, 109u8].as_slice()),
        FieldKind::Sender => bytes_to_vec([83u8, 101u8, 110u8, 100u8, 101u8, 114u8].as_slice()),
        FieldKind::ReplyTo => bytes_to_vec([82u8, 101u8, 112u8, 108u8, 121u8, 45u8, 84u8, 111u8].as_slice()),
        FieldKind::To => bytes_to_vec([84u8, 111u8].as_slice()),
        FieldKind::Cc => bytes_to_vec([67u8, 99u8].as_slice()),
        FieldKind::Bcc => bytes_to_vec([66u8, 99u8, 99u8].as_slice()),
        FieldKind::MessageID => bytes_to_vec([77u8, 101u8, 115u8, 115u8, 97u8, 103u8, 101u8, 45u8, 73u8, 68u8].as_slice()),
        FieldKind::InReplyTo => bytes_to_vec([73u8, 110u8, 45u8, 82u8, 101u8, 112u8, 108u8, 121u8, 45u8, 84u8, 111u8].as_slice()),
        FieldKind::References => bytes_to_vec([82u8, 101u8, 102u8, 101u8, 114u8, 101u8, 110u8, 99u8, 101u8, 115u8].as_slice()),
        FieldKind::Subject => bytes_to_vec([83u8, 117u8, 98u8, 106u8, 101u8, 99u8, 116u8].as_slice()),
        FieldKind::Comments => bytes_to_vec([67u8, 111u8, 109u8, 109u8, 101u8, 110u8, 116u8, 115u8].as_slice()),
        FieldKind::Keywords => bytes_to_vec([75u8, 101u8, 121u8, 119u8, 111u8, 114u8, 100u8, 115u8].as_slice()),
        FieldKind::ReturnPath => bytes_to_vec([82u8, 101u8, 116u8, 117u8, 114u8, 110u8, 45u8, 80u8, 97u8, 116u8, 104u8].as_slice()),
        FieldKind::Received => bytes_to_vec([82u8, 101u8, 99u8, 101u8, 105u8, 118u8, 101u8, 100u8].as_slice()),
        FieldKind::MIMEVersion => bytes_to_vec([77u8, 73u8, 77u8, 69u8, 45u8, 86u8, 101u8, 114u8, 115u8, 105u8, 111u8, 110u8].as_slice()),
        FieldKind::Unknown => Vec::new(),
    }
}

/// Field names are printable text without whitespace.
pub proof fn lemma_field_name_graphic(k: FieldKind)
    ensures
        graphic(field_name_text(k)),
{
    let n = field_name_text(k);
    assert forall|i: int| 0 <= i < n.len() implies 0x21 <= #[trigger] n[i] <= 0x7e by {}
}

impl Field {
    /// The kind of this field.
    pub open spec fn kind(&self) -> FieldKind {
        match self {
            Field::Date(_) => FieldKind::Date,
            Field::From(_) => FieldKind::From,
            Field::Sender(_) => FieldKind::Sender,
            Field::ReplyTo(_) => FieldKind::ReplyTo,
            Field::To(_) => FieldKind::To,
            Field::Cc(_) => FieldKind::Cc,
            Field::Bcc(_) => FieldKind::Bcc,
            Field::MessageID(_) => FieldKind::MessageID,
            Field::InReplyTo(_) => FieldKind::InReplyTo,
            Field::References(_) => FieldKind::References,
            Field::Subject(_) => FieldKind::Subject,
            Field::Comments(_) => FieldKind::Comments,
            Field::Keywords(_) => FieldKind::Keywords,
            Field::Received(_) => FieldKind::Received,
            Field::ReturnPath(_) => FieldKind::ReturnPath,
            Field::MIMEVersion(_) => FieldKind::MIMEVersion,
        }
    }
}

/// A field is printed as a header field: its name, then its body, as
/// `header::print` or `header::print_unstructured` print them.
impl Print for Field {
    open spec fn print_text(&self) -> Seq<u8> {
        match self {
            Field::Date(d) => field_text(field_name_text(FieldKind::Date), d.print_text()),
            Field::From(l) => field_text(field_name_text(FieldKind::From), l.print_text()),
            Field::Sender(m) => field_text(field_name_text(FieldKind::Sender), m.print_text()),
            Field::ReplyTo(l) => field_text(field_name_text(FieldKind::ReplyTo), l.print_text()),
            Field::To(l) => field_text(field_name_text(FieldKind::To), l.print_text()),
            Field::Cc(l) => field_text(field_name_text(FieldKind::Cc), l.print_text()),
            Field::Bcc(l) => field_text(field_name_text(FieldKind::Bcc), l.print_text()),
            Field::MessageID(m) => field_text(field_name_text(FieldKind::MessageID), m.print_text()),
            Field::InReplyTo(l) => field_text(field_name_text(FieldKind::InReplyTo), l.print_text()),
            Field::References(l) => field_text(field_name_text(FieldKind::References), l.print_text()),
            Field::Subject(u) => unstructured_field_text(field_name_text(FieldKind::Subject), u.print_text()),
            Field::Comments(u) => unstructured_field_text(field_name_text(FieldKind::Comments), u.print_text()),
            Field::Keywords(k) => field_text(field_name_text(FieldKind::Keywords), k.print_text()),
            Field::Received(u) => unstructured_field_text(field_name_text(FieldKind::Received), u.print_text()),
            Field::ReturnPath(p) => field_text(field_name_text(FieldKind::ReturnPath), p.print_text()),
            Field::MIMEVersion(v) => field_text(field_name_text(FieldKind::MIMEVersion), v.print_text()),
        }
    }

    open spec fn print_marks(&self) -> Seq<bool> {
        match self {
            Field::Date(d) => field_marks(field_name_text(FieldKind::Date).len(), d.print_marks()),
            Field::From(l) => field_marks(field_name_text(FieldKind::From).len(), l.print_marks()),
            Field::Sender(m) => field_marks(field_name_text(FieldKind::Sender).len(), m.print_marks()),
            Field::ReplyTo(l) => field_marks(field_name_text(FieldKind::ReplyTo).len(), l.print_marks()),
            Field::To(l) => field_marks(field_name_text(FieldKind::To).len(), l.print_marks()),
            Field::Cc(l) => field_marks(field_name_text(FieldKind::Cc).len(), l.print_marks()),
            Field::Bcc(l) => field_marks(field_name_text(FieldKind::Bcc).len(), l.print_marks()),
            Field::MessageID(m) => field_marks(field_name_text(FieldKind::MessageID).len(), m.print_marks()),
            Field::InReplyTo(l) => field_marks(field_name_text(FieldKind::InReplyTo).len(), l.print_marks()),
            Field::References(l) => field_marks(field_name_text(FieldKind::References).len(), l.print_marks()),
            Field::Subject(u) => unstructured_field_marks(field_name_text(FieldKind::Subject).len(), u.print_marks()),
            Field::Comments(u) => unstructured_field_marks(field_name_text(FieldKind::Comments).len(), u.print_marks()),
            Field::Keywords(k) => field_marks(field_name_text(FieldKind::Keywords).len(), k.print_marks()),
            Field::Received(u) => unstructured_field_marks(field_name_text(FieldKind::Received).len(), u.print_marks()),
            Field::ReturnPath(p) => field_marks(field_name_text(FieldKind::ReturnPath).len(), p.print_marks()),
            Field::MIMEVersion(v) => field_marks(field_name_text(FieldKind::MIMEVersion).len(), v.print_marks()),
        }
    }

    open spec fn printable_after(&self, w: Seq<u8>) -> bool {
        match self {
            Field::Date(d) => d.printable_after(w + field_name_text(FieldKind::Date) + seq![ascii::COL, ascii::SP]),
            Field::From(l) => l.printable_after(w + field_name_text(FieldKind::From) + seq![ascii::COL, ascii::SP]),
            Field::Sender(m) => m.printable_after(w + field_name_text(FieldKind::Sender) + seq![ascii::COL, ascii::SP]),
            Field::ReplyTo(l) => l.printable_after(w + field_name_text(FieldKind::ReplyTo) + seq![ascii::COL, ascii::SP]),
            Field::To(l) => l.printable_after(w + field_name_text(FieldKind::To) + seq![ascii::COL, ascii::SP]),
            Field::Cc(l) => l.printable_after(w + field_name_text(FieldKind::Cc) + seq![ascii::COL, ascii::SP]),
            Field::Bcc(l) => l.printable_after(w + field_name_text(FieldKind::Bcc) + seq![ascii::COL, ascii::SP]),
            Field::MessageID(m) => m.printable_after(w + field_name_text(FieldKind::MessageID) + seq![ascii::COL, ascii::SP]),
            Field::InReplyTo(l) => l.printable_after(w + field_name_text(FieldKind::InReplyTo) + seq![ascii::COL, ascii::SP]),
            Field::References(l) => l.printable_after(w + field_name_text(FieldKind::References) + seq![ascii::COL, ascii::SP]),
            Field::Subject(u) => u.printable_after(w + field_name_text(FieldKind::Subject) + seq![ascii::COL]),
            Field::Comments(u) => u.printable_after(w + field_name_text(FieldKind::Comments) + seq![ascii::COL]),
            Field::Keywords(k) => k.printable_after(w + field_name_text(FieldKind::Keywords) + seq![ascii::COL, ascii::SP]),
            Field::Received(u) => u.printable_after(w + field_name_text(FieldKind::Received) + seq![ascii::COL]),
            Field::ReturnPath(p) => p.printable_after(w + field_name_text(FieldKind::ReturnPath) + seq![ascii::COL, ascii::SP]),
            Field::MIMEVersion(v) => v.printable_after(w + field_name_text(FieldKind::MIMEVersion) + seq![ascii::COL, ascii::SP]),
        }
    }

    #[verifier::spinoff_prover]
    fn print<F: Formatter>(&self, fmt: &mut F) {
        let name = field_name(match self {
            Field::Date(_) => FieldKind::Date,
            Field::From(_) => FieldKind::From,
            Field::Sender(_) => FieldKind::Sender,
            Field::ReplyTo(_) => FieldKind::ReplyTo,
            Field::To(_) => FieldKind::To,
            Field::Cc(_) => FieldKind::Cc,
            Field::Bcc(_) => FieldKind::Bcc,
            Field::MessageID(_) => FieldKind::MessageID,
            Field::InReplyTo(_) => FieldKind::InReplyTo,
            Field::References(_) => FieldKind::References,
            Field::Subject(_) => FieldKind::Subject,
            Field::Comments(_) => FieldKind::Comments,
            Field::Keywords(_) => FieldKind::Keywords,
            Field::Received(_) => FieldKind::Received,
            Field::ReturnPath(_) => FieldKind::ReturnPath,
            Field::MIMEVersion(_) => FieldKind::MIMEVersion,
        });
        proof {
            lemma_field_name_graphic(self.kind());
            lemma_graphic_allowed(fmt.written(), name@);
        }
        match self {
            Field::Date(d) => print(fmt, name.as_slice(), d),
            Field::From(l) => print(fmt, name.as_slice(), l),
            Field::Sender(m) => print(fmt, name.as_slice(), m),
            Field::ReplyTo(l) => print(fmt, name.as_slice(), l),
            Field::To(l) => print(fmt, name.as_slice(), l),
            Field::Cc(l) => print(fmt, name.as_slice(), l),
            Field::Bcc(l) => print(fmt, name.as_slice(), l),
            Field::MessageID(m) => print(fmt, name.as_slice(), m),
            Field::InReplyTo(l) => print(fmt, name.as_slice(), l),
            Field::References(l) => print(fmt, name.as_slice(), l),
            Field::Subject(u) => print_unstructured(fmt, name.as_slice(), u),
            Field::Comments(u) => print_unstructured(fmt, name.as_slice(), u),
            Field::Keywords(k) => print(fmt, name.as_slice(), k),
            Field::Received(u) => print_unstructured(fmt, name.as_slice(), u),
            Field::ReturnPath(p) => print(fmt, name.as_slice(), p),
            Field::MIMEVersion(v) => print(fmt, name.as_slice(), v),
        }
    }
}


/// A field name is read as the kind it names, in any case: the name a kind
/// is printed with, and any name equal to it but for case, reads back as
/// that kind (`Cc` is Cc, `BCC` is Bcc, `message-id` is MessageID, ...).
pub proof fn law_field_name_kind(name: Seq<u8>, k: FieldKind)
    requires
        k != FieldKind::Unknown,
        lower(name) == lower(field_name_text(k)),
    ensures
        field_kind(lower(name)) == k,
{
    let n = field_name_text(k);
    let l = lower(n);
    assert(l.len() == n.len());
    match k {
        FieldKind::Date => assert(l =~= seq![100u8, 97u8, 116u8, 101u8]),
        FieldKind::From => assert(l =~= seq![102u8, 114u8, 111u8, 109u8]),
        FieldKind::Sender => assert(l =~= seq![115u8, 101u8, 110u8, 100u8, 101u8, 114u8]),
        FieldKind::ReplyTo => assert(l =~= seq![114u8, 101u8, 112u8, 108u8, 121u8, 45u8, 116u8, 111u8]),
        FieldKind::To => assert(l =~= seq![116u8, 111u8]),
        FieldKind::Cc => assert(l =~= seq![99u8, 99u8]),
        FieldKind::Bcc => assert(l =~= seq![98u8, 99u8, 99u8]),
        FieldKind::MessageID => assert(l =~= seq![109u8, 101u8, 115u8, 115u8, 97u8, 103u8, 101u8, 45u8, 105u8, 100u8]),
        FieldKind::InReplyTo => assert(l =~= seq![105u8, 110u8, 45u8, 114u8, 101u8, 112u8, 108u8, 121u8, 45u8, 116u8, 111u8]),
        FieldKind::References => assert(l =~= seq![114u8, 101u8, 102u8, 101u8, 114u8, 101u8, 110u8, 99u8, 101u8, 115u8]),
        FieldKind::Subject => assert(l =~= seq![115u8, 117u8, 98u8, 106u8, 101u8, 99u8, 116u8]),
        FieldKind::Comments => assert(l =~= seq![99u8, 111u8, 109u8, 109u8, 101u8, 110u8, 116u8, 115u8]),
        FieldKind::Keywords => assert(l =~= seq![107u8, 101u8, 121u8, 119u8, 111u8, 114u8, 100u8, 115u8]),
        FieldKind::ReturnPath => assert(l =~= seq![114u8, 101u8, 116u8, 117u8, 114u8, 110u8, 45u8, 112u8, 97u8, 116u8, 104u8]),
        FieldKind::Received => assert(l =~= seq![114u8, 101u8, 99u8, 101u8, 105u8, 118u8, 101u8, 100u8]),
        FieldKind::MIMEVersion => assert(l =~= seq![109u8, 105u8, 109u8, 101u8, 45u8, 118u8, 101u8, 114u8, 115u8, 105u8, 111u8, 110u8]),
        FieldKind::Unknown => {},
    }
}


/// Only the field names are read as known kinds: a name read as a kind other
/// than Unknown is, up to case, the name that kind is printed with.
pub proof fn law_field_kind_named(name: Seq<u8>)
    ensures
        field_kind(lower(name)) != FieldKind::Unknown ==> lower(name) == lower(
            field_name_text(field_kind(lower(name))),
        ),
{
    let k = field_kind(lower(name));
    if k != FieldKind::Unknown {
        let n = field_name_text(k);
        assert(lower(n).len() == n.len());
        assert(lower(name) =~= lower(n));
    }
}

} // verus!
