use eml_codec::fragments::lazy;
use eml_codec::fragments::mime::{
    parameter, version, EmailCharset, MultipartDesc, MultipartSubtype, Parameter, Type, Version,
};

fn check_parameter(input: &str, expected: Parameter) {
    let s = input.as_bytes();
    assert_eq!(parameter(s, 0), Some((s.len(), expected)));
}

fn check_version(input: &str) {
    let s = input.as_bytes();
    assert_eq!(version(s, 0), Some((s.len(), Version { major: 1, minor: 0 })));
}

#[test]
fn mime_test_parameter() {
    check_parameter("charset=utf-8", Parameter::Charset(EmailCharset::UTF_8));
    check_parameter("charset=\"utf-8\"", Parameter::Charset(EmailCharset::UTF_8));
}

#[test]
fn mime_test_parameter_ascii() {
    check_parameter(
        "charset=us-ascii (Plain text)",
        Parameter::Charset(EmailCharset::US_ASCII),
    );
}

#[test]
fn mime_test_content_type_multipart() {
    assert_eq!(
        Type::try_from(&lazy::Type(
            "multipart/mixed;\r\n\tboundary=\"--==_mimepart_64a3f2c69114f_2a13d020975fe\";\r\n\tcharset=UTF-8"
        )),
        Ok(Type::Multipart(MultipartDesc {
            subtype: MultipartSubtype::Mixed,
            boundary: b"--==_mimepart_64a3f2c69114f_2a13d020975fe".to_vec(),
            unknown_parameters: vec![Parameter::Charset(EmailCharset::UTF_8)],
        }))
    );
}

#[test]
fn content_fields_test_version() {
    check_version("1.0");
    check_version(" 1.0 (produced by MetaSend Vx.x)");
    check_version("(produced by MetaSend Vx.x) 1.0");
    check_version("1.(produced by MetaSend Vx.x)0");
}

#[test]
fn content_fields_test_parameter() {
    check_parameter("charset=utf-8", Parameter::Charset(EmailCharset::UTF_8));
    check_parameter("charset=\"utf-8\"", Parameter::Charset(EmailCharset::UTF_8));
}

#[test]
fn content_fields_test_content_type_multipart() {
    assert_eq!(
        Type::try_from(&lazy::Type(
            "multipart/mixed;\r\n\tboundary=\"--==_mimepart_64a3f2c69114f_2a13d020975fe\";\r\n\tcharset=UTF-8"
        )),
        Ok(Type::Multipart(MultipartDesc {
            subtype: MultipartSubtype::Mixed,
            boundary: b"--==_mimepart_64a3f2c69114f_2a13d020975fe".to_vec(),
            unknown_parameters: vec![Parameter::Charset(EmailCharset::UTF_8)],
        }))
    );
}

#[test]
fn content_fields_test_parameter_ascii() {
    check_parameter(
        "charset=us-ascii (Plain text)",
        Parameter::Charset(EmailCharset::US_ASCII),
    );
}
