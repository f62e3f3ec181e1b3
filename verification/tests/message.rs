use eml_codec::header::{header_kv, FieldName, FieldRaw};
use eml_codec::imf::datetime::DateTime;
use eml_codec::imf::field::{is_imf_header, Entry, Field, InvalidField};
use eml_codec::imf::mime::Version;
use eml_codec::imf::{AddFieldErr, DateTimeOpt, PartialImf};
use eml_codec::message::{checked_message, message};
use eml_codec::mime::field::{is_mime_header, Entry as MEntry, Field as MField, NaiveField};
use eml_codec::mime::mechanism::Mechanism;
use eml_codec::mime::types::{NaiveType, Parameter};
use eml_codec::mime::{AnyMIME, DefaultType, NaiveMIME};
use eml_codec::text::misc_token::{MIMEWord, UnstrToken, UnstrTxtKind, Unstructured};
use eml_codec::text::quoted::QuotedString;
use eml_codec::text::words::MIMEAtom;

fn raw<'a>(name: &str, body: &'a [u8]) -> FieldRaw<'a> {
    FieldRaw { name: FieldName(name.as_bytes().to_vec()), body }
}

#[test]
fn test_header() {
    let fullmail: &[u8] = r#"Date: Sat, 8 Jul 2023 07:14:29 +0200
From: Grrrnd Zero <grrrndzero@example.org>
To: John Doe <jdoe@machine.example>
Subject: Re: Saying Hello
Message-ID: <NTAxNzA2AC47634Y366BAMTY4ODc5MzQyODY0ODY5@www.grrrndzero.org>
MIME-Version: 1.0
Content-Type: multipart/alternative;
 boundary="b1_e376dc71bafc953c0b0fdeb9983a9956"
Content-Transfer-Encoding: 7bit

This is a multipart message.

"#
    .as_bytes();

    let (input, hdrs) = header_kv(fullmail);
    let fields: Vec<NaiveField> = hdrs.iter().flat_map(NaiveField::try_from).collect();
    assert_eq!(input, &b"This is a multipart message.\n\n"[..]);
    assert_eq!(
        fields,
        vec![
            NaiveField::Type(NaiveType {
                main: MIMEAtom(b"multipart".to_vec()),
                sub: MIMEAtom(b"alternative".to_vec()),
                params: vec![Parameter {
                    name: MIMEAtom(b"boundary".to_vec()),
                    value: MIMEWord::Quoted(QuotedString(vec![
                        b"b1_e376dc71bafc953c0b0fdeb9983a9956".to_vec()
                    ])),
                }]
            }),
            NaiveField::TransferEncoding(Mechanism::_7Bit),
        ],
    );
}

#[test]
fn test_unstructured() {
    let u = eml_codec::header::Unstructured::from_raw(&raw("X-Unknown", b" something something"))
        .unwrap();
    assert_eq!(
        u,
        eml_codec::header::Unstructured(
            FieldName(b"X-Unknown".to_vec()),
            Unstructured(vec![
                UnstrToken::from_plain(b" ", UnstrTxtKind::Fws),
                UnstrToken::from_plain(b"something", UnstrTxtKind::Txt),
                UnstrToken::from_plain(b" ", UnstrTxtKind::Fws),
                UnstrToken::from_plain(b"something", UnstrTxtKind::Txt),
            ])
        )
    )
}

// ---- own tests

#[test]
fn imf_field_kinds() {
    assert!(is_imf_header(&FieldName(b"sUbJeCt".to_vec())));
    assert!(!is_imf_header(&FieldName(b"Content-Type".to_vec())));
    assert!(is_mime_header(&FieldName(b"content-TYPE".to_vec())));
    assert!(!is_mime_header(&FieldName(b"X-Mailer".to_vec())));
}

#[test]
fn imf_field_errors() {
    assert_eq!(Field::try_from(&raw("X-Foo", b" bar")), Err(InvalidField::Name));
    assert_eq!(Field::try_from(&raw("Date", b" not a date")), Err(InvalidField::Body));
    // an empty list of recipients is to be discarded
    assert_eq!(Field::try_from(&raw("To", b" ")), Err(InvalidField::NeedsDiscard));
    assert_eq!(Field::try_from(&raw("Keywords", b" ")), Err(InvalidField::NeedsDiscard));
    // the body must be consumed whole
    assert_eq!(Field::try_from(&raw("MIME-Version", b" 1.0 x")), Err(InvalidField::Body));
}

#[test]
fn imf_field_version() {
    assert_eq!(
        Field::try_from(&raw("mime-version", b" 1.0")),
        Ok(Field::MIMEVersion(Version { major: 1, minor: 0 }))
    );
}

fn date_field(day: u32) -> Field {
    Field::Date(DateTime { year: 2023, month: 1, day, hour: 0, minute: 0, second: 0, offset: 0 })
}

#[test]
fn partial_imf_first_value_wins() {
    let mut p = PartialImf::new();
    assert_eq!(p.add_field(date_field(1)), Ok(Entry::Date));
    assert_eq!(p.add_field(date_field(2)), Err(AddFieldErr::Conflict));
    let imf = p.to_imf();
    assert_eq!(
        imf.date,
        DateTimeOpt::Present(DateTime { year: 2023, month: 1, day: 1, hour: 0, minute: 0, second: 0, offset: 0 })
    );
    assert_eq!(imf.get_field(Entry::Date), Some(date_field(1)));
}

#[test]
fn partial_imf_trace_fields_first() {
    let mut p = PartialImf::new();
    let received = || Field::Received(Unstructured(vec![UnstrToken::from_plain(b"x", UnstrTxtKind::Txt)]));
    assert_eq!(p.add_field(received()), Ok(Entry::Trace(0)));
    assert_eq!(p.add_field(received()), Ok(Entry::Trace(1)));
    assert_eq!(p.add_field(date_field(1)), Ok(Entry::Date));
    assert_eq!(p.add_field(received()), Err(AddFieldErr::Conflict));
    let imf = p.to_imf();
    assert_eq!(imf.trace.len(), 2);
    let (trace, others) = imf.field_entries();
    assert_eq!(trace, vec![Entry::Trace(0), Entry::Trace(1)]);
    // the MIME version is only listed when the header holds one
    assert_eq!(others, vec![Entry::Date]);
    assert_eq!(imf.get_field(Entry::Trace(1)), Some(received()));
    assert_eq!(imf.get_field(Entry::MIMEVersion), None);
}

const SAMPLE: &[u8] = b"Date: 7 Mar 2023 08:00:00 +0200\r
From: deuxfleurs@example.com\r
To: someone_else@example.com\r
Subject: An RFC 822 formatted message\r
MIME-Version: 1.0\r
Content-Type: text/plain; charset=us-ascii\r
X-Mailer: hand\r
\r
This is the plain text body of the message. Note the blank line\r
between the header information and the body of the message.";

#[test]
fn message_sample() {
    let m = message(SAMPLE);
    assert_eq!(m.body, b"This is the plain text body of the message. Note the blank line\r\nbetween the header information and the body of the message.".to_vec());
    assert_eq!(m.entries.len(), 7);
    assert_eq!(m.imf.mime_version, Some(Version { major: 1, minor: 0 }));
    assert!(matches!(m.mime, AnyMIME::Txt(_)));
    let fields = m.field_list();
    assert_eq!(fields.len(), 7);
    assert_eq!(fields[6].raw_name(), FieldName(b"X-Mailer".to_vec()));
    assert_eq!(fields[0].raw_name(), FieldName(b"Date".to_vec()));
    assert_eq!(fields[0].raw_body(), b" 7 Mar 2023 08:00:00 +0200".to_vec());
    let from = m.imf.from_or_sender().unwrap();
    assert_eq!(from.name, None);
}

#[test]
fn message_with_unanswerable_date() {
    assert!(checked_message(b"Date: 1 Jan 2023 10:00:00 ++0100\r\n\r\n").is_none());
    assert!(checked_message(SAMPLE).is_some());
}

#[test]
fn naive_mime_first_value_wins() {
    let mut m = NaiveMIME::default();
    assert!(m.add_field(NaiveField::TransferEncoding(Mechanism::Base64)).is_some());
    assert!(m.add_field(NaiveField::TransferEncoding(Mechanism::_8Bit)).is_none());
    let ty = NaiveType { main: MIMEAtom(b"multipart".to_vec()), sub: MIMEAtom(b"mixed".to_vec()), params: vec![Parameter { name: MIMEAtom(b"boundary".to_vec()), value: MIMEWord::Atom(MIMEAtom(b"b".to_vec())) }] };
    assert!(m.add_field(NaiveField::Type(ty)).is_some());
    // multipart entities only have an identity transfer encoding
    match m.to_interpreted(DefaultType::Generic) {
        AnyMIME::Mult(x) => assert_eq!(x.fields.transfer_encoding, Mechanism::_7Bit),
        other => panic!("{:?}", other),
    }
}

#[test]
fn naive_mime_default_type() {
    match NaiveMIME::default().to_interpreted(DefaultType::Digest) {
        AnyMIME::Msg(_) => {},
        other => panic!("{:?}", other),
    }
}

#[test]
fn entries_follow_the_header() {
    let input = b"Received: from a\r\nReceived: from b\r\nFrom: x@y.test\r\nComments: one\r\nContent-Type: text/plain\r\nComments: two\r\nReceived: from late\r\n\r\nbody";
    let msg = message(input);
    let kinds: Vec<String> = msg
        .entries
        .iter()
        .map(|e| match e {
            eml_codec::message::field::MessageEntry::Imf { e, .. } => format!("{:?}", e),
            eml_codec::message::field::MessageEntry::MIME { e, .. } => format!("MIME {:?}", e),
            eml_codec::message::field::MessageEntry::Unstructured(_) => "Unstructured".to_string(),
        })
        .collect();
    assert_eq!(kinds, vec!["Trace(0)", "Trace(1)", "From", "Comments(0)", "MIME Type", "Comments(1)"]);
    assert_eq!(msg.imf.trace.len(), 2);
    assert_eq!(msg.imf.comments.len(), 2);
}

#[test]
fn accepted_fields_stay_and_destinations_gather() {
    let field = |name: &str, body: &[u8]| Field::try_from(&raw(name, body)).unwrap();
    let mut p = PartialImf::new();
    assert_eq!(p.add_field(date_field(1)), Ok(Entry::Date));
    assert_eq!(p.add_field(field("To", b" a@x.test")), Ok(Entry::To));
    assert_eq!(p.add_field(field("Subject", b" hello")), Ok(Entry::Subject));
    assert_eq!(p.add_field(field("Comments", b" one")), Ok(Entry::Comments(0)));
    assert_eq!(p.add_field(date_field(2)), Err(AddFieldErr::Conflict));
    assert_eq!(p.add_field(field("To", b" b@y.test, c@z.test")), Err(AddFieldErr::NoEntry));
    assert_eq!(p.add_field(field("Subject", b" other")), Err(AddFieldErr::Conflict));
    assert_eq!(p.add_field(field("Comments", b" two")), Ok(Entry::Comments(1)));
    let imf = p.to_imf();
    assert_eq!(imf.get_field(Entry::Date), Some(date_field(1)));
    assert_eq!(imf.get_field(Entry::Subject), Some(field("Subject", b" hello")));
    assert_eq!(imf.get_field(Entry::Comments(0)), Some(field("Comments", b" one")));
    assert_eq!(imf.get_field(Entry::To), Some(field("To", b" a@x.test, b@y.test, c@z.test")));
}

#[test]
fn mime_fields_read_back() {
    let descr = || {
        Unstructured(vec![
            UnstrToken::from_plain(b" ", UnstrTxtKind::Fws),
            UnstrToken::from_plain(b"hello", UnstrTxtKind::Txt),
        ])
    };
    let mut m = NaiveMIME::default();
    assert_eq!(m.add_field(NaiveField::Description(descr())), Some(MEntry::Description));
    assert_eq!(m.add_field(NaiveField::TransferEncoding(Mechanism::Base64)), Some(MEntry::TransferEncoding));
    assert_eq!(m.add_field(NaiveField::Description(Unstructured(vec![]))), None);
    let a = m.to_interpreted(DefaultType::Generic);
    assert_eq!(a.get_field(MEntry::Description), Some(MField::Description(descr())));
    assert_eq!(a.get_field(MEntry::TransferEncoding), Some(MField::TransferEncoding(Mechanism::Base64)));
}
