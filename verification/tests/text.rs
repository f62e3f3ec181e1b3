use eml_codec::text::quoted::quoted_string;
use eml_codec::text::whitespace::{cfws, fws, perm_crlf};
use eml_codec::text::words::{atom, dot_atom, dot_atom_text, vchar_seq};

#[test]
fn test_perm_crlf() {
    assert_eq!(perm_crlf(b"\rworld", 0), Some(1));
    assert_eq!(perm_crlf(b"\r\nworld", 0), Some(2));
    assert_eq!(perm_crlf(b"\nworld", 0), Some(1));
}

#[test]
fn test_fws() {
    let s = b"\r\n world";
    assert_eq!(&s[fws(s, 0).unwrap()..], b"world");
    let s = b" \r\n \r\n world";
    assert_eq!(&s[fws(s, 0).unwrap()..], b"world");
    let s = b" world";
    assert_eq!(&s[fws(s, 0).unwrap()..], b"world");
    assert!(fws(b"\r\nFrom: test", 0).is_none());
}

#[test]
fn test_cfws() {
    let s = b"(A nice \\) chap) <pete(his account)@silly.test(his host)>";
    let e = cfws(s, 0).unwrap();
    assert_eq!(&s[..e], b"(A nice \\) chap) ");
    assert_eq!(&s[e..], b"<pete(his account)@silly.test(his host)>");
    let s = b"(Chris's host.)public.example>,";
    let e = cfws(s, 0).unwrap();
    assert_eq!(&s[..e], b"(Chris's host.)");
    assert_eq!(&s[e..], b"public.example>,");
    let s = b"(double (comment) is fun) wouch";
    let e = cfws(s, 0).unwrap();
    assert_eq!(&s[..e], b"(double (comment) is fun) ");
    assert_eq!(&s[e..], b"wouch");
}

#[test]
fn test_vchar_seq() {
    let s = "hello world".as_bytes();
    let e = vchar_seq(s, 0).unwrap();
    assert_eq!((&s[e..], &s[..e]), (&b" world"[..], &b"hello"[..]));
    let s = "hello👋 world".as_bytes();
    let e = vchar_seq(s, 0).unwrap();
    assert_eq!((&s[e..], &s[..e]), (" world".as_bytes(), "hello👋".as_bytes()));
}

#[test]
fn test_atom() {
    let s = b"(skip)  imf_codec (hidden) aerogramme";
    let (e, a) = atom(s, 0).unwrap();
    assert_eq!(&s[e..], b"aerogramme");
    assert_eq!(a.0, b"imf_codec".to_vec());
}

#[test]
fn test_dot_atom_text() {
    let s = b"quentin.dufour.io abcdef";
    let e = dot_atom_text(s, 0).unwrap();
    assert_eq!((&s[e..], &s[..e]), (&b" abcdef"[..], &b"quentin.dufour.io"[..]));
}

#[test]
fn test_dot_atom() {
    let s = b"   (skip) quentin.dufour.io abcdef";
    let (e, v) = dot_atom(s, 0).unwrap();
    assert_eq!(&s[e..], b"abcdef");
    assert_eq!(v, b"quentin.dufour.io".to_vec());
}

#[test]
fn test_quoted_string() {
    let s = b" \"hello\\\"world\" ";
    let (e, q) = quoted_string(s, 0).unwrap();
    assert_eq!(e, s.len());
    assert_eq!(q.chars(), b"hello\"world".to_vec());
    let s = b"\"hello\r\n world\"";
    let (e, q) = quoted_string(s, 0).unwrap();
    assert_eq!(e, s.len());
    assert_eq!(q.chars(), b"hello world".to_vec());
}
