//! Parsing of e-mail messages (RFC 5322 header fields, RFC 2045 MIME header
//! fields), with every parser stated and proved against a model of its input.
pub mod text;
pub mod mime;
pub mod print;
pub mod dup;
pub mod imf;
pub mod header;
pub mod message;
pub mod fragments;
pub mod email;
pub mod i18n;

use vstd::prelude::*;
use crate::header::spec_header_kv;
use crate::imf::{Imf, spec_to_imf};
use crate::message::{Message, message_parses, spec_message_fields};
use crate::mime::{DefaultType, spec_to_interpreted};
use crate::dup::seq_view;

verus! {

/// Parses a whole message: its header fields, then its body.
///
/// The header is everything up to the first empty line; each of its fields
/// is parsed by the parser of its kind, and the body is kept as raw bytes.
pub fn parse_message(input: &[u8]) -> (r: Message)
    requires
        message_parses(input@),
    ensures
        r.imf@ == spec_to_imf(spec_message_fields(input@).imf),
        r.mime@ == spec_to_interpreted(spec_message_fields(input@).mime, DefaultType::Generic),
        seq_view(r.entries@) == spec_message_fields(input@).entries,
        r.body@ == input@.subrange(spec_header_kv(input@).0, input@.len() as int),
        r.raw@ == input@,
        r.raw_headers@ == input@.subrange(0, spec_header_kv(input@).0),
        r.wf(),
{
    message::message(input)
}

/// Parses only the fields of the header that the Internet Message Format
/// defines, and hands back the rest of the input, the body, unread.
pub fn parse_imf(input: &[u8]) -> (r: (&[u8], Imf))
    requires
        message_parses(input@),
    ensures
        r.0@ == input@.subrange(spec_header_kv(input@).0, input@.len() as int),
        r.1@ == spec_to_imf(spec_message_fields(input@).imf),
{
    message::imf(input)
}

} // verus!
