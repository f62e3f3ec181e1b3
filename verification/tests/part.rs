use eml_codec::fragments::model::AddrSpec;
use eml_codec::fragments::part::{boundary, preamble, Delimiter};

#[test]
fn test_boundary_next() {
    let s = b"\r\n--hello\r\n";
    assert_eq!(boundary(b"hello", s, 0), Some((s.len(), Delimiter::Next)));
}

#[test]
fn test_boundary_last() {
    let s = b"\r\n--hello--\r\n";
    assert_eq!(boundary(b"hello", s, 0), Some((s.len(), Delimiter::Last)));
}

#[test]
fn test_preamble() {
    let s = b"blip
bloup

blip
bloup--
--bim
--bim--

--hello
Field: Body
";
    let e = preamble(b"hello", s, 0);
    assert_eq!(&s[e..], &b"\n--hello\nField: Body\n"[..]);
    assert_eq!(&s[..e], &b"blip\nbloup\n\nblip\nbloup--\n--bim\n--bim--\n"[..]);
}

#[test]
fn boundary_needs_the_whole_line() {
    assert_eq!(boundary(b"hello", b"\r\n--hello--x\r\n", 0), None);
    assert_eq!(boundary(b"hel", b"\r\n--hello\r\n", 0), None);
    assert_eq!(boundary(b"hello", b"--hello\r\n", 0), None);
    assert_eq!(boundary(b"hello", b"\n--hello\n", 0), Some((9, Delimiter::Next)));
}

#[test]
fn preamble_of_nothing_or_of_a_line_break() {
    assert_eq!(preamble(b"b", b"", 0), 0);
    assert_eq!(preamble(b"b", b"\r\n--b\r\n", 0), 0);
    assert_eq!(preamble(b"b", b"text", 0), 4);
}

#[test]
fn preamble_ends_at_the_first_boundary_line() {
    let s = b"x\r\ny\r\n--b\r\nz\r\n--b--\r\n";
    let e = preamble(b"b", s, 0);
    assert_eq!(e, 4);
    assert_eq!(boundary(b"b", s, e), Some((11, Delimiter::Next)));
    for k in 0..e {
        assert_eq!(boundary(b"b", s, k), None);
    }
}

#[test]
fn fully_qualified_address() {
    let a = AddrSpec { local_part: b"quentin".to_vec(), domain: b"dufour.io".to_vec() };
    assert_eq!(a.fully_qualified(), b"quentin@dufour.io".to_vec());
}
