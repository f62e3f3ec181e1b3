use eml_codec::mime::charset::EmailCharset;
use eml_codec::mime::mechanism::{mechanism, Mechanism};
use eml_codec::mime::{AnyMIME, CommonMIME};
use eml_codec::mime::types::{
    naive_type, parameter, parameter_list, AnyType, Binary, Message, MessageSubtype, Multipart,
    MultipartSubtype, NaiveType, Parameter, Text, TextSubtype,
};
use eml_codec::text::misc_token::MIMEWord;
use eml_codec::text::quoted::QuotedString;
use eml_codec::text::words::MIMEAtom;

fn atom(s: &[u8]) -> MIMEAtom {
    MIMEAtom(s.to_vec())
}

fn param(name: &[u8], value: MIMEWord) -> Parameter {
    Parameter { name: atom(name), value }
}

fn parse_type(s: &[u8]) -> NaiveType {
    let (end, nt) = naive_type(s, 0).unwrap();
    assert_eq!(end, s.len());
    nt
}

#[test]
fn type_test_parameter() {
    let s = b"charset=utf-8";
    assert_eq!(
        parameter(s, 0),
        Some((s.len(), param(b"charset", MIMEWord::Atom(atom(b"utf-8"))))),
    );
    let s = b"charset=\"utf-8\"";
    assert_eq!(
        parameter(s, 0),
        Some((
            s.len(),
            param(b"charset", MIMEWord::Quoted(QuotedString(vec![b"utf-8".to_vec()])))
        )),
    );
}

#[test]
fn type_test_content_type_plaintext() {
    let nt = parse_type(b"text/plain;\r\n charset=utf-8 ; hello=yolo");
    assert_eq!(
        nt.to_type(),
        AnyType::Text(Text {
            charset: EmailCharset::utf8(),
            subtype: TextSubtype::Plain,
            other_params: vec![param(b"hello", MIMEWord::Atom(atom(b"yolo")))],
        })
    );
}

#[test]
fn test_content_type_plaintext_old() {
    let nt = parse_type(b"  text ");
    assert_eq!(
        nt.to_type(),
        AnyType::Text(Text {
            charset: EmailCharset::US_ASCII,
            subtype: TextSubtype::Plain,
            other_params: vec![],
        })
    );

    let nt = parse_type(b"text;\r\n charset=utf-8 ; hello=yolo");
    assert_eq!(
        nt.to_type(),
        AnyType::Text(Text {
            charset: EmailCharset::utf8(),
            subtype: TextSubtype::Plain,
            other_params: vec![param(b"hello", MIMEWord::Atom(atom(b"yolo")))],
        })
    );
}

#[test]
fn type_test_content_type_multipart() {
    let nt = parse_type(
        b"multipart/mixed;\r\n\tboundary=\"--==_mimepart_64a3f2c69114f_2a13d020975fe\";\r\n\tcharset=UTF-8",
    );
    assert_eq!(
        nt.to_type(),
        AnyType::Multipart(Multipart {
            subtype: MultipartSubtype::Mixed,
            boundary: Some("--==_mimepart_64a3f2c69114f_2a13d020975fe".into()),
            other_params: vec![param(b"charset", MIMEWord::Atom(atom(b"UTF-8")))],
        })
    );
}

#[test]
fn type_test_content_type_message() {
    let nt = parse_type(b"message/rfc822");
    assert_eq!(
        nt.to_type(),
        AnyType::Message(Message { subtype: MessageSubtype::RFC822, params: vec![] })
    );

    // unknown message subtype: treat it as "application/octet-stream"
    // (i.e. opaque Binary part)
    let nt = parse_type(b"message/delivery-status");
    assert_eq!(
        nt.to_type(),
        AnyType::Binary(Binary {
            ctype: NaiveType { main: atom(b"message"), sub: atom(b"delivery-status"), params: vec![] }
        })
    );
}

#[test]
fn test_content_type_comment() {
    let nt = parse_type(b"text/plain; charset=\"us-ascii\" (Plain text)");
    assert_eq!(
        nt.to_type(),
        AnyType::Text(Text {
            subtype: TextSubtype::Plain,
            charset: EmailCharset::from_bytes(b"us-ascii"),
            other_params: vec![],
        })
    );
}

#[test]
fn test_broken_content_type() {
    let nt = parse_type(b"abc/def/ghi; charset=us-ascii");
    assert_eq!(
        nt,
        NaiveType {
            main: atom(b"abc"),
            sub: atom(b"def"),
            params: vec![param(b"charset", MIMEWord::Atom(atom(b"us-ascii")))],
        }
    );
}

#[test]
fn type_test_parameter_ascii() {
    let s = b"charset = (simple) us-ascii (Plain text)";
    assert_eq!(
        parameter(s, 0),
        Some((s.len(), param(b"charset", MIMEWord::Atom(atom(b"us-ascii"))))),
    );
}

#[test]
fn test_parameter_list_semicolons() {
    // we allow final semicolons
    let s = b";boundary=\"festivus\";";
    assert_eq!(
        parameter_list(s, 0),
        (
            s.len(),
            vec![param(b"boundary", MIMEWord::Quoted(QuotedString(vec![b"festivus".to_vec()])))],
        )
    );

    let s = b"; charset=UTF-8; format=flowed; ";
    assert_eq!(
        parameter_list(s, 0),
        (
            s.len(),
            vec![
                param(b"charset", MIMEWord::Atom(atom(b"UTF-8"))),
                param(b"format", MIMEWord::Atom(atom(b"flowed"))),
            ],
        )
    );

    // semicolons can appear between quotes, this is part of the normal
    // quote syntax
    let s = b"; boundary=\"abc;def\"; foo=bar";
    assert_eq!(
        parameter_list(s, 0),
        (
            s.len(),
            vec![
                param(b"boundary", MIMEWord::Quoted(QuotedString(vec![b"abc;def".to_vec()]))),
                param(b"foo", MIMEWord::Atom(atom(b"bar"))),
            ],
        )
    );
}

#[test]
fn test_parameter_list_broken() {
    let s = b"; name=threadTest.ml; charset=";
    assert_eq!(
        parameter_list(s, 0),
        (s.len(), vec![param(b"name", MIMEWord::Atom(atom(b"threadTest.ml")))])
    );

    // 'charset: UTF-8' is read as 'charset=UTF-8'
    let s = b"; charset: UTF-8; foo=bar";
    assert_eq!(
        parameter_list(s, 0),
        (
            s.len(),
            vec![
                param(b"charset", MIMEWord::Atom(atom(b"UTF-8"))),
                param(b"foo", MIMEWord::Atom(atom(b"bar"))),
            ]
        )
    );

    let s = b"; name=\"calendar.ics\";method=REQUEST;\n Content-Transfer-Encoding: 8bit;";
    assert_eq!(
        parameter_list(s, 0),
        (
            s.len(),
            vec![
                param(b"name", MIMEWord::Quoted(QuotedString(vec![b"calendar.ics".to_vec()]))),
                param(b"method", MIMEWord::Atom(atom(b"REQUEST"))),
                param(b"Content-Transfer-Encoding", MIMEWord::Atom(atom(b"8bit"))),
            ]
        )
    );

    let s = b"; name=threadTest.ml foo=bar; baz=qux";
    assert_eq!(
        parameter_list(s, 0),
        (
            s.len(),
            vec![
                param(b"name", MIMEWord::Atom(atom(b"threadTest.ml"))),
                param(b"baz", MIMEWord::Atom(atom(b"qux"))),
            ]
        )
    );
}

#[test]
fn any_mime_from_pair() {
    let nt = NaiveType { main: MIMEAtom(b"text".to_vec()), sub: MIMEAtom(b"plain".to_vec()), params: vec![] };
    let common = CommonMIME { transfer_encoding: Mechanism::Base64, id: None, description: None };
    let m = AnyMIME::from_pair(nt.to_type(), common);
    assert!(matches!(m, AnyMIME::Txt(_)));
    assert_eq!(m.ctype(), nt.to_type());
    assert_eq!(m.common().transfer_encoding, Mechanism::Base64);

    let nt = NaiveType { main: MIMEAtom(b"image".to_vec()), sub: MIMEAtom(b"png".to_vec()), params: vec![] };
    let common = CommonMIME { transfer_encoding: Mechanism::_7Bit, id: None, description: None };
    let m = AnyMIME::from_pair(nt.to_type(), common);
    assert!(matches!(m, AnyMIME::Bin(_)));
}

#[test]
fn mechanism_test_mechanism() {
    assert_eq!(mechanism(b"7bit", 0), Some((4, Mechanism::_7Bit)));

    assert_eq!(mechanism(b"(youhou) 8bit", 0), Some((13, Mechanism::_8Bit)));

    assert_eq!(mechanism(b"8Bit;", 0), Some((5, Mechanism::_8Bit)));

    assert_eq!(mechanism(b"(blip) bInArY (blip blip)", 0), Some((25, Mechanism::Binary)));

    assert_eq!(mechanism(b" base64 ", 0), Some((8, Mechanism::Base64)));

    assert_eq!(mechanism(b" Quoted-Printable ", 0), Some((18, Mechanism::QuotedPrintable)));
}
