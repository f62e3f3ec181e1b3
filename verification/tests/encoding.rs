use eml_codec::fragments::encoding::{
    btext, encoded_word, encoded_word_base64, encoded_word_quoted, hex_octet, ptext, QuotedChunk,
};

// =?iso8859-1?Q?Accus=E9_de_r=E9ception_(affich=E9)?=
#[test]
fn test_ptext() {
    let s = b"Accus=E9_de_r=E9ception_(affich=E9)";
    assert_eq!(
        ptext(s, 0),
        (
            s.len(),
            vec![
                QuotedChunk::Safe(b"Accus".to_vec()),
                QuotedChunk::Encoded(0xe9),
                QuotedChunk::Space,
                QuotedChunk::Safe(b"de".to_vec()),
                QuotedChunk::Space,
                QuotedChunk::Safe(b"r".to_vec()),
                QuotedChunk::Encoded(0xe9),
                QuotedChunk::Safe(b"ception".to_vec()),
                QuotedChunk::Space,
                QuotedChunk::Safe(b"(affich".to_vec()),
                QuotedChunk::Encoded(0xe9),
                QuotedChunk::Safe(b")".to_vec()),
            ]
        )
    );
}

#[test]
fn test_decode_word() {
    let s = "=?iso8859-1?Q?Accus=E9_de_r=E9ception_(affich=E9)?=".as_bytes();
    let (end, text) = encoded_word(s, 0).unwrap();
    assert_eq!(end, s.len());
    assert_eq!(String::from_utf8(text).unwrap(), "Accusé de réception (affiché)");
}

// =?ISO-8859-1?B?SWYgeW91IGNhbiByZWFkIHRoaXMgeW8=?=
#[test]
fn test_decode_word_b64() {
    let s = "=?ISO-8859-1?B?SWYgeW91IGNhbiByZWFkIHRoaXMgeW8=?=".as_bytes();
    let (end, text) = encoded_word(s, 0).unwrap();
    assert_eq!(end, s.len());
    assert_eq!(String::from_utf8(text).unwrap(), "If you can read this yo");
}

#[test]
fn hex_octet_reads_two_digits_or_a_plus_sign_and_one() {
    assert_eq!(hex_octet(b"=3d", 0), Some((3, QuotedChunk::Encoded(0x3d))));
    assert_eq!(hex_octet(b"=+f", 0), Some((3, QuotedChunk::Encoded(0x0f))));
    assert_eq!(hex_octet(b"=g0", 0), None);
    assert_eq!(hex_octet(b"=4", 0), None);
    assert_eq!(hex_octet(b"x41", 0), None);
}

#[test]
fn ptext_stops_at_the_end_marker() {
    let s = b"a_b?=";
    assert_eq!(
        ptext(s, 0),
        (
            3,
            vec![
                QuotedChunk::Safe(b"a".to_vec()),
                QuotedChunk::Space,
                QuotedChunk::Safe(b"b".to_vec())
            ]
        )
    );
}

#[test]
fn btext_drops_the_padding() {
    assert_eq!(btext(b"QUJD==?=", 0), (6, b"QUJD".to_vec()));
}

#[test]
fn unknown_charset_decodes_as_windows_1252() {
    let s = b"=?x-nothing?q?caf=E9?=";
    let (end, text) = encoded_word_quoted(s, 0).unwrap();
    assert_eq!(end, s.len());
    assert_eq!(String::from_utf8(text).unwrap(), "café");
}

#[test]
fn utf8_charset_and_lowercase_b() {
    let s = b"=?utf-8?b?w6l0w6k=?=";
    let (end, text) = encoded_word(s, 0).unwrap();
    assert_eq!(end, s.len());
    assert_eq!(String::from_utf8(text).unwrap(), "été");
}

#[test]
fn invalid_base64_gives_no_text() {
    let s = b"=?utf-8?B?QUJDR?=";
    assert_eq!(encoded_word_base64(s, 0), Some((s.len(), Vec::new())));
}

#[test]
fn not_an_encoded_word() {
    assert_eq!(encoded_word(b"=?utf-8?X?abc?=", 0), None);
    assert_eq!(encoded_word(b"=?utf-8?Q?a=?=", 0), None);
    assert_eq!(encoded_word(b"plain", 0), None);
}
