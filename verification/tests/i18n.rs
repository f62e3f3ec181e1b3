use eml_codec::i18n::ContainsUtf8;
use eml_codec::imf::datetime::DateTime;
use eml_codec::mime::mechanism::Mechanism;
use eml_codec::text::misc_token::unstructured;
use eml_codec::text::words::{Atom, MIMEAtom};
use eml_codec::parse_imf;

#[test]
fn utf8_in_text() {
    assert!(!Atom(b"hello".to_vec()).contains_utf8());
    assert!(Atom("h\u{e9}llo".as_bytes().to_vec()).contains_utf8());
    let (_, ascii_body) = unstructured(b" plain text", 0);
    assert!(!ascii_body.contains_utf8());
    let (_, utf8_body) = unstructured(" caf\u{e9} au lait".as_bytes(), 0);
    assert!(utf8_body.contains_utf8());
    assert!(Some(utf8_body).contains_utf8());
    assert!(!None::<Atom>.contains_utf8());
}

#[test]
fn utf8_in_headers() {
    let input = "From: a@example.com\r\nSubject: \u{e7}a va\r\n\r\nbody".as_bytes();
    let (_, imf) = parse_imf(input);
    assert!(imf.contains_utf8());
    let input = b"From: a@example.com\r\nSubject: hello\r\n\r\nbody";
    let (_, imf) = parse_imf(input);
    assert!(!imf.contains_utf8());
    let input = "From: J\u{f6}rg <j@example.com>\r\n\r\n".as_bytes();
    let (_, imf) = parse_imf(input);
    assert!(imf.contains_utf8());
}

#[test]
fn utf8_never_in_ascii_only_values() {
    let dt = DateTime { year: 2023, month: 3, day: 7, hour: 8, minute: 0, second: 0, offset: 0 };
    assert!(!dt.contains_utf8());
    // a transfer encoding is never counted, whatever its name
    assert!(!Mechanism::Other(MIMEAtom("\u{e9}".as_bytes().to_vec())).contains_utf8());
}
