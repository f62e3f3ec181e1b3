use eml_codec::header::FieldName;
use eml_codec::imf::address::AddressRef;
use eml_codec::imf::datetime::DateTime;
use eml_codec::imf::field::Entry;
use eml_codec::imf::mailbox::{AddrSpec, Domain, LocalPart, LocalPartToken, MailboxRef};
use eml_codec::imf::mime::Version;
use eml_codec::imf::{DateTimeOpt, From, Imf};
use eml_codec::message::field::MessageEntry;
use eml_codec::message::message;
use eml_codec::text::misc_token::{UnstrToken, UnstrTxtKind, Unstructured, Word};
use eml_codec::text::words::Atom;

fn addr(local: &str) -> MailboxRef {
    MailboxRef {
        name: None,
        addrspec: AddrSpec {
            local_part: LocalPart(vec![LocalPartToken::Word(Word::Atom(Atom(local.as_bytes().to_vec())))]),
            domain: Domain::Atoms(vec![Atom(b"example".to_vec()), Atom(b"com".to_vec())]),
        },
    }
}

fn imf_entry(e: Entry, raw_body: &[u8]) -> MessageEntry {
    MessageEntry::Imf { e, raw_body: raw_body.to_vec() }
}

// What parsing gives; what printing gives back is not
// checked here.
#[test]
fn test_simple() {
    let fullmail = b"Date: Tue, 7 Mar 2023 08:00:00 +0200\r
From: someone@example.com\r
To: someone_else@example.com\r
Subject: An  RFC 822  formatted message\r
MIME-Version: 1.0\r
\r
This is the plain text body of the message. Note the blank line
between the header information and the body of the message.";

    let m = message(fullmail);

    let mut imf = Imf::new();
    imf.from = From::Single { from: addr("someone"), sender: None };
    imf.date = DateTimeOpt::Present(DateTime {
        year: 2023,
        month: 3,
        day: 7,
        hour: 8,
        minute: 0,
        second: 0,
        offset: 2 * 3600,
    });
    imf.to = vec![AddressRef::Single(addr("someone_else"))];
    imf.subject = Some(Unstructured(vec![
        UnstrToken::from_plain(b" ", UnstrTxtKind::Fws),
        UnstrToken::from_plain(b"An", UnstrTxtKind::Txt),
        UnstrToken::from_plain(b"  ", UnstrTxtKind::Fws),
        UnstrToken::from_plain(b"RFC", UnstrTxtKind::Txt),
        UnstrToken::from_plain(b" ", UnstrTxtKind::Fws),
        UnstrToken::from_plain(b"822", UnstrTxtKind::Txt),
        UnstrToken::from_plain(b"  ", UnstrTxtKind::Fws),
        UnstrToken::from_plain(b"formatted", UnstrTxtKind::Txt),
        UnstrToken::from_plain(b" ", UnstrTxtKind::Fws),
        UnstrToken::from_plain(b"message", UnstrTxtKind::Txt),
    ]));
    imf.mime_version = Some(Version { major: 1, minor: 0 });
    assert_eq!(m.imf, imf);

    assert_eq!(
        m.entries,
        vec![
            imf_entry(Entry::Date, b" Tue, 7 Mar 2023 08:00:00 +0200"),
            imf_entry(Entry::From, b" someone@example.com"),
            imf_entry(Entry::To, b" someone_else@example.com"),
            imf_entry(Entry::Subject, b" An  RFC 822  formatted message"),
            imf_entry(Entry::MIMEVersion, b" 1.0"),
        ]
    );
    assert_eq!(
        m.body,
        b"This is the plain text body of the message. Note the blank line\nbetween the header information and the body of the message.".to_vec()
    );
    assert_eq!(m.raw, fullmail.to_vec());
    let h = fullmail.windows(4).position(|w| w == b"\r\n\r\n").unwrap() + 4;
    assert_eq!(m.raw_headers, fullmail[..h].to_vec());
}

// An invalid date is dropped, and
// an unknown field is kept as unstructured text.
#[test]
fn test_best_effort() {
    let input = b"date: uhh
hello: yolo

hello??";
    let m = message(input);
    assert_eq!(m.imf, Imf::new());
    assert_eq!(
        m.entries,
        vec![MessageEntry::Unstructured(eml_codec::header::Unstructured(
            FieldName(b"hello".to_vec()),
            Unstructured(vec![
                UnstrToken::from_plain(b" ", UnstrTxtKind::Fws),
                UnstrToken::from_plain(b"yolo", UnstrTxtKind::Txt),
            ]),
        ))]
    );
    assert_eq!(m.body, b"hello??".to_vec());
    assert_eq!(m.raw_headers, b"date: uhh\nhello: yolo\n\n".to_vec());
}
