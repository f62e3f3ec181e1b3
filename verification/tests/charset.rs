use eml_codec::fragments::mime::EmailCharset as OldCharset;
use eml_codec::mime::charset::EmailCharset;
use encoding_rs::Encoding;

fn encoding_of(label: &[u8]) -> &'static Encoding {
    Encoding::for_label(label).unwrap()
}

#[test]
fn charset_test_charset() {
    assert_eq!(EmailCharset::from_bytes(&b"Us-Ascii"[..]).as_str(), "US-ASCII");

    assert_eq!(
        encoding_of(EmailCharset::from_bytes(&b"Us-Ascii"[..]).as_encoding()),
        encoding_rs::WINDOWS_1252,
    );

    assert_eq!(
        encoding_of(EmailCharset::from_bytes(&b"ISO-8859-1"[..]).as_encoding()),
        encoding_rs::WINDOWS_1252,
    );

    assert_eq!(
        encoding_of(EmailCharset::from_bytes(&b"utf-8"[..]).as_encoding()),
        encoding_rs::UTF_8,
    );

    assert_eq!(
        encoding_of(EmailCharset::from_bytes(&b"utf8"[..]).as_encoding()),
        encoding_rs::UTF_8,
    );
}

#[test]
fn mime_test_charset() {
    assert_eq!(OldCharset::from("Us-Ascii").as_str(), b"US-ASCII");

    assert_eq!(
        encoding_of(OldCharset::from("Us-Ascii").as_encoding()),
        encoding_rs::WINDOWS_1252,
    );

    assert_eq!(
        encoding_of(OldCharset::from("ISO-8859-1").as_encoding()),
        encoding_rs::WINDOWS_1252,
    );

    assert_eq!(encoding_of(OldCharset::from("utf-8").as_encoding()), encoding_rs::UTF_8);

    assert_eq!(encoding_of(OldCharset::from("utf8").as_encoding()), encoding_rs::UTF_8);
}

#[test]
fn unknown_charsets_decode_as_windows_1252() {
    assert_eq!(OldCharset::from("x-unheard-of").as_str(), b"x-unheard-of");
    assert_eq!(OldCharset::from("x-unheard-of").as_encoding(), b"windows-1252");
    assert_eq!(OldCharset::from("koi8-r").as_encoding(), b"KOI8-R");
    assert_eq!(EmailCharset::from_bytes(b"x-unheard-of").as_str(), "UTF-8");
    assert_eq!(EmailCharset::from_bytes(b"x-unheard-of").as_encoding(), b"UTF-8");
}

#[test]
fn charset_labels_read_back_as_their_names() {
    for label in ["shift_jis", "ISO-8859-6-E", "koi8-r", "Us-Ascii", "big5", "UTF-8"] {
        assert_eq!(
            EmailCharset::from_bytes(label.as_bytes()).as_str().to_ascii_lowercase(),
            label.to_ascii_lowercase()
        );
    }
    assert_eq!(EmailCharset::from_bytes(b"x-unknown").as_str(), "UTF-8");
}

#[test]
fn charset_labels_fold_as_unicode_lower_case() {
    // the Kelvin sign lower-cases to `k`
    assert_eq!(OldCharset::from("\u{212A}OI8-R"), OldCharset::KOI8_R);
    assert_eq!(OldCharset::from("\u{212A}OI8-R").as_str(), b"KOI8-R");
    // any other non-ASCII character spells no label, and is kept
    assert_eq!(OldCharset::from("Ütf-8").as_str(), "Ütf-8".as_bytes());
}
