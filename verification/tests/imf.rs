use eml_codec::header::{header_kv, FieldName, FieldRaw};
use eml_codec::imf::identification::{msg_id, nullable_msg_list, MessageID};
use eml_codec::imf::mailbox::{domain_list, AddrSpec, Domain, Dtext, LocalPart, LocalPartToken};
use eml_codec::imf::mime::{checked_version, version, Version};
use eml_codec::imf::trace::{return_path, ReturnPath};
use eml_codec::text::misc_token::Word;
use eml_codec::text::quoted::QuotedString;
use eml_codec::text::words::Atom;

fn atom(s: &str) -> Atom {
    Atom(s.as_bytes().to_vec())
}

fn word(s: &str) -> LocalPartToken {
    LocalPartToken::Word(Word::Atom(atom(s)))
}

fn full<T>(s: &[u8], r: Option<(usize, T)>) -> T {
    let (end, v) = r.unwrap();
    assert_eq!(end, s.len());
    v
}

#[test]
fn identification_test_msg_id() {
    let s = b"<5678.21-Nov-1997@example.com>";
    assert_eq!(
        full(s, msg_id(s, 0)),
        MessageID::ObsLeftRight {
            left: LocalPart(vec![word("5678"), LocalPartToken::Dot, word("21-Nov-1997")]),
            right: Domain::Atoms(vec![atom("example"), atom("com")]),
        }
    );
}

#[test]
fn test_obsolete_msg_id() {
    let s = b" < foo . bar@univ-valenciennes  .fr >";
    assert_eq!(
        full(s, msg_id(s, 0)),
        MessageID::ObsLeftRight {
            left: LocalPart(vec![word("foo"), LocalPartToken::Dot, word("bar")]),
            right: Domain::Atoms(vec![atom("univ-valenciennes"), atom("fr")]),
        }
    );

    let s = b"<\"24806 Tue Sep 19 11:05:34 1995\"@bnr.ca>";
    let chunks: Vec<Vec<u8>> = ["24806", " ", "Tue", " ", "Sep", " ", "19", " ", "11:05:34", " ", "1995"]
        .iter()
        .map(|c| c.as_bytes().to_vec())
        .collect();
    assert_eq!(
        full(s, msg_id(s, 0)),
        MessageID::ObsLeftRight {
            left: LocalPart(vec![LocalPartToken::Word(Word::Quoted(QuotedString(chunks)))]),
            right: Domain::Atoms(vec![atom("bnr"), atom("ca")]),
        }
    );
}

#[test]
fn test_noncompliant_msg_id() {
    let s = b" <523C50DA-160C-4550-A44E-7E192513CF91> ";
    assert_eq!(
        full(s, msg_id(s, 0)),
        MessageID::Invalid(b"523C50DA-160C-4550-A44E-7E192513CF91".to_vec())
    );

    let s = b" foo ";
    assert_eq!(full(s, msg_id(s, 0)), MessageID::Invalid(b"foo".to_vec()));

    let s = b"text/plain.RKLqBQUAAZl1yPGCYOHKDjrj_nwwBg.1758617731@alan.eu";
    assert_eq!(
        full(s, msg_id(s, 0)),
        MessageID::ObsLeftRight {
            left: LocalPart(vec![
                word("text/plain"),
                LocalPartToken::Dot,
                word("RKLqBQUAAZl1yPGCYOHKDjrj_nwwBg"),
                LocalPartToken::Dot,
                word("1758617731"),
            ]),
            right: Domain::Atoms(vec![atom("alan"), atom("eu")]),
        }
    );

    let s = b" <aAdGYiJBX0VZF2TI@millmess@rouba.net> ";
    assert_eq!(
        full(s, msg_id(s, 0)),
        MessageID::Invalid(b"aAdGYiJBX0VZF2TI@millmess@rouba.net".to_vec())
    );

    let s = b"<md5:xqmIG/sV8WoSG9UzafBCGw==>";
    assert_eq!(full(s, msg_id(s, 0)), MessageID::Invalid(b"md5:xqmIG/sV8WoSG9UzafBCGw==".to_vec()));
}

#[test]
fn test_comma_separated_msg_list() {
    // This is not RFC-valid syntax but was encountered in real-world emails
    let s = b" <8d9bb189354d4804bcc2fd1d1a5398b5@cnrs.fr>,<ef8fac8b36834864bae895571064565c@cnrs.fr>";
    assert_eq!(
        nullable_msg_list(s, 0),
        (
            s.len(),
            vec![
                MessageID::ObsLeftRight {
                    left: LocalPart(vec![word("8d9bb189354d4804bcc2fd1d1a5398b5")]),
                    right: Domain::Atoms(vec![atom("cnrs"), atom("fr")]),
                },
                MessageID::ObsLeftRight {
                    left: LocalPart(vec![word("ef8fac8b36834864bae895571064565c")]),
                    right: Domain::Atoms(vec![atom("cnrs"), atom("fr")]),
                },
            ]
        )
    );
}

fn foo_example_com() -> AddrSpec {
    AddrSpec {
        local_part: LocalPart(vec![word("foo")]),
        domain: Domain::Atoms(vec![atom("example"), atom("com")]),
    }
}

#[test]
fn test_return_path() {
    let s = b" <foo@example.com>";
    assert_eq!(full(s, return_path(s, 0)), ReturnPath(Some(foo_example_com())));
}

#[test]
fn test_return_path_bare() {
    let s = b" foo@example.com ";
    assert_eq!(full(s, return_path(s, 0)), ReturnPath(Some(foo_example_com())));
}

#[test]
fn test_return_path_mailbox() {
    let s = b"abcdef <foo@example.com> ";
    assert_eq!(full(s, return_path(s, 0)), ReturnPath(Some(foo_example_com())));
}

#[test]
fn mime_test_version() {
    let s = b"1.0";
    assert_eq!(full(s, version(s, 0)), Version { major: 1, minor: 0 });
    let s = b" 1.0 (produced by MetaSend Vx.x)";
    assert_eq!(full(s, version(s, 0)), Version { major: 1, minor: 0 });
    let s = b"(produced by MetaSend Vx.x) 1.0";
    assert_eq!(full(s, version(s, 0)), Version { major: 1, minor: 0 });
    let s = b"1.(produced by MetaSend Vx.x)0";
    assert_eq!(full(s, version(s, 0)), Version { major: 1, minor: 0 });
}

fn raw<'a>(name: &str, body: &'a [u8]) -> FieldRaw<'a> {
    FieldRaw { name: FieldName(name.as_bytes().to_vec()), body }
}

#[test]
fn test_no_body() {
    let (rest, fields) = header_kv(b"X-Foo: something something\r\nX-Bar: something else\r\n");
    assert!(rest.is_empty());
    assert_eq!(
        fields,
        vec![raw("X-Foo", b" something something"), raw("X-Bar", b" something else")]
    );
}

#[test]
fn test_best_effort_good_before_eof() {
    let (rest, fields) = header_kv(b"X-Foo: something something\r\nX-Bar: something else");
    assert!(rest.is_empty());
    assert_eq!(
        fields,
        vec![raw("X-Foo", b" something something"), raw("X-Bar", b" something else")]
    );
}

#[test]
fn test_best_effort_bad_before_eof() {
    let (rest, fields) = header_kv(b"X-Foo: something something\r\nrandom junk");
    assert!(rest.is_empty());
    assert_eq!(fields, vec![raw("X-Foo", b" something something")]);
}

#[test]
fn test_field_raw_good() {
    let (rest, fields) = header_kv(b"X-Unknown: something something\r\n");
    assert!(rest.is_empty());
    assert_eq!(fields, vec![raw("X-Unknown", b" something something")]);
}

// ---- own tests

#[test]
fn header_kv_stops_at_empty_line() {
    let (rest, fields) = header_kv(b"A: b\r\n folded\r\n\r\nbody");
    assert_eq!(rest, b"body");
    assert_eq!(fields, vec![raw("A", b" b\r\n folded")]);
}

#[test]
fn version_checked_overflow() {
    assert!(checked_version(b"99999999999999999999.0", 0).is_none());
    assert_eq!(checked_version(b"2.1", 0), Some(Some((3, Version { major: 2, minor: 1 }))));
}

#[test]
fn version_text() {
    assert_eq!(Version { major: 1, minor: 0 }.to_bytes(), b"1.0".to_vec());
    assert_eq!(Version::default(), Version { major: 1, minor: 0 });
}

#[test]
fn msg_list_skips_junk() {
    let s = b"<abc@def>,<foo\n\tbar@outlook.com>,<baz@outlook.com>";
    let (end, l) = nullable_msg_list(s, 0);
    assert_eq!(end, s.len());
    assert_eq!(l.len(), 2);
}

#[test]
fn test_domain_list() {
    let input = r#"(shhh it's coming)
 ,
 (not yet)
 @33+4.com,,,,
 ,,,,
 (again)
 @example.com,@yep.com,@a,@b,,,@c"#
        .as_bytes();
    assert_eq!(
        domain_list(input, 0),
        (
            input.len(),
            vec![
                None,
                Some(Domain::Atoms(vec![atom("33+4"), atom("com")])),
                None,
                None,
                None,
                None,
                None,
                None,
                None,
                Some(Domain::Atoms(vec![atom("example"), atom("com")])),
                Some(Domain::Atoms(vec![atom("yep"), atom("com")])),
                Some(Domain::Atoms(vec![atom("a")])),
                Some(Domain::Atoms(vec![atom("b")])),
                None,
                None,
                Some(Domain::Atoms(vec![atom("c")])),
            ]
        )
    );

    let input = b",, ,@foo,";
    assert_eq!(
        domain_list(input, 0),
        (input.len(), vec![None, None, None, Some(Domain::Atoms(vec![atom("foo")])), None])
    );
}

#[test]
fn test_dtext_strictify() {
    let s = Dtext(b"\x03".to_vec()).to_strict_best_effort().0;
    assert_eq!(s, b"?".to_vec())
}
