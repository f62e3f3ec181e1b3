use eml_codec::email::Raw;
use eml_codec::fragments::lazy;
use eml_codec::fragments::mime::{
    EmailCharset, MessageDesc, MessageSubtype, Mechanism, TextDesc, TextSubtype, Type,
};
use eml_codec::print::{with_line_folder, FoldStep};
use eml_codec::text::chars::is_atext;

#[test]
fn test_folding() {
    // 72 chars
    let folded = with_line_folder(&[
        FoldStep::Bytes(b"xxxxxxxxxxxxxxxxxxxxxxxxxxxxxxxxxxxxxxxxxxxxxxxxxxxxxxxxxxxxxxxxxxxxxxxx".to_vec()),
        FoldStep::Fws,
        FoldStep::Bytes(b"yyyyyyyyy".to_vec()),
    ]);
    assert_eq!(
        folded,
        b"xxxxxxxxxxxxxxxxxxxxxxxxxxxxxxxxxxxxxxxxxxxxxxxxxxxxxxxxxxxxxxxxxxxxxxxx\r\n yyyyyyyyy"
    );

    // 80 chars
    let folded = with_line_folder(&[
        FoldStep::Bytes(
            b"xxxxxxxxxxxxxxxxxxxxxxxxxxxxxxxxxxxxxxxxxxxxxxxxxxxxxxxxxxxxxxxxxxxxxxxxxxxxxxxx".to_vec(),
        ),
        FoldStep::Fws,
        FoldStep::Bytes(b"yyyyyyyyy".to_vec()),
    ]);
    assert_eq!(
        folded,
        b"xxxxxxxxxxxxxxxxxxxxxxxxxxxxxxxxxxxxxxxxxxxxxxxxxxxxxxxxxxxxxxxxxxxxxxxxxxxxxxxx\r\n yyyyyyyyy"
    );

    let folded = with_line_folder(&[
        FoldStep::Bytes(b"xxxxxxxxxxxxxxxxx".to_vec()),
        FoldStep::FwsBytes(b"   ".to_vec()),
        FoldStep::Bytes(b"xxxxxxxxxxxxxxxx".to_vec()),
        FoldStep::Fws,
        FoldStep::Bytes(b"xxxxxxxxxxxxxxxxxxxxxxxxxxxxxxxx".to_vec()),
        FoldStep::Fws,
        FoldStep::Bytes(b"yyyyyyyyy".to_vec()),
    ]);
    assert_eq!(
        folded,
        b"xxxxxxxxxxxxxxxxx   xxxxxxxxxxxxxxxx xxxxxxxxxxxxxxxxxxxxxxxxxxxxxxxx\r\n yyyyyyyyy"
    );
}

#[test]
fn test_create_parser() {
    assert_eq!(
        Raw(b"From: a@a.com\r\n\r\n"),
        Raw(&[
            0x46, 0x72, 0x6F, 0x6D, 0x3A, 0x20, 0x61, 0x40, 0x61, 0x2E, 0x63, 0x6F, 0x6D, 0x0D, 0x0A,
            0x0D, 0x0A
        ]),
    );
}

#[test]
fn mime_test_content_type_plaintext() {
    assert_eq!(
        Type::try_from(&lazy::Type("text/plain; charset=utf-8")),
        Ok(Type::Text(TextDesc {
            charset: Some(EmailCharset::UTF_8),
            subtype: TextSubtype::Plain,
            unknown_parameters: vec![],
        }))
    );
}

#[test]
fn mime_test_content_type_message() {
    assert_eq!(
        Type::try_from(&lazy::Type("message/rfc822")),
        Ok(Type::Message(MessageDesc {
            subtype: MessageSubtype::RFC822,
            unknown_parameters: vec![],
        }))
    );
}

#[test]
fn mime_test_mechanism() {
    assert_eq!(Mechanism::try_from(&lazy::Mechanism("7bit")), Ok(Mechanism::_7Bit),);

    assert_eq!(
        Mechanism::try_from(&lazy::Mechanism("(youhou) 8bit")),
        Ok(Mechanism::_8Bit),
    );

    assert_eq!(
        Mechanism::try_from(&lazy::Mechanism("(blip) bInArY (blip blip)")),
        Ok(Mechanism::Binary),
    );

    assert_eq!(Mechanism::try_from(&lazy::Mechanism(" base64 ")), Ok(Mechanism::Base64),);

    assert_eq!(
        Mechanism::try_from(&lazy::Mechanism(" Quoted-Printable ")),
        Ok(Mechanism::QuotedPrintable),
    );
}

#[test]
fn test_atext() {
    assert!(is_atext('='));
    assert!(is_atext('5'));
    assert!(is_atext('Q'));
    assert!(!is_atext(' '));
    assert!(is_atext('É')); // support utf8
}

#[test]
fn content_fields_test_content_type_plaintext() {
    assert_eq!(
        Type::try_from(&lazy::Type("text/plain; charset=utf-8")),
        Ok(Type::Text(TextDesc {
            charset: Some(EmailCharset::UTF_8),
            subtype: TextSubtype::Plain,
            unknown_parameters: vec![],
        }))
    );
}

#[test]
fn content_fields_test_content_type_message() {
    assert_eq!(
        Type::try_from(&lazy::Type("message/rfc822")),
        Ok(Type::Message(MessageDesc {
            subtype: MessageSubtype::RFC822,
            unknown_parameters: vec![],
        }))
    );
}
