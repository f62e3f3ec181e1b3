use eml_codec::header::{header_kv, print, print_unstructured, FieldName, Unstructured};
use eml_codec::imf::datetime::{date_time, DateTime};
use eml_codec::imf::field::Field;
use eml_codec::imf::mime::{version, Version};
use eml_codec::mime::mechanism::Mechanism;
use eml_codec::mime::types::{MessageSubtype, MultipartSubtype, TextSubtype};
use eml_codec::print::{print_seq, with_line_folder, FoldStep, LineFolder, Print, Unfolded};
use eml_codec::text::misc_token::{unstructured, UnstrToken, UnstrTxtKind};
use eml_codec::text::words::MIMEAtom;
use eml_codec::{parse_imf, parse_message};

fn printed<T: Print>(x: &T) -> Vec<u8> {
    let mut out = Unfolded::new();
    x.print(&mut out);
    out.into_bytes()
}

#[test]
fn print_date_time() {
    let dt = DateTime { year: 2003, month: 7, day: 1, hour: 10, minute: 52, second: 37, offset: 2 * 3600 };
    assert_eq!(printed(&dt), b"Tue, 1 Jul 2003 10:52:37 +0200".to_vec());
    let dt = DateTime { year: 1997, month: 11, day: 21, hour: 9, minute: 55, second: 6, offset: -6 * 3600 };
    assert_eq!(printed(&dt), b"Fri, 21 Nov 1997 09:55:06 -0600".to_vec());
    // the printed text is the text `to_bytes` gives
    assert_eq!(printed(&dt), dt.to_bytes());
}

#[test]
fn print_version_and_names() {
    assert_eq!(printed(&Version { major: 1, minor: 0 }), b"1.0".to_vec());
    assert_eq!(printed(&Version { major: 12, minor: 345 }), b"12.345".to_vec());
    assert_eq!(printed(&MultipartSubtype::Alternative), b"alternative".to_vec());
    assert_eq!(printed(&MultipartSubtype::Unknown(MIMEAtom(b"x-foo".to_vec()))), b"x-foo".to_vec());
    assert_eq!(printed(&MessageSubtype::Global), b"global".to_vec());
    assert_eq!(printed(&TextSubtype::Html), b"html".to_vec());
    assert_eq!(printed(&Mechanism::QuotedPrintable), b"quoted-printable".to_vec());
    assert_eq!(printed(&Mechanism::Other(MIMEAtom(b"x-uuencode".to_vec()))), b"x-uuencode".to_vec());
    assert_eq!(printed(&FieldName(b"X-Custom".to_vec())), b"X-Custom".to_vec());
}

#[test]
fn print_structured_field() {
    let mut out = Unfolded::new();
    print(&mut out, b"MIME-Version", &Version { major: 1, minor: 0 });
    assert_eq!(out.as_bytes(), b"MIME-Version: 1.0\r\n".to_vec());
}

#[test]
fn print_unstructured_field() {
    let (end, body) = unstructured(b" hello  world", 0);
    assert_eq!(end, 13);
    let mut out = Unfolded::new();
    print_unstructured(&mut out, b"Subject", &body);
    assert_eq!(out.as_bytes(), b"Subject: hello  world\r\n".to_vec());

    let field = Unstructured(
        FieldName(b"Comments".to_vec()),
        eml_codec::text::misc_token::Unstructured(vec![
            UnstrToken::from_plain(b" ", UnstrTxtKind::Fws),
            UnstrToken::from_plain(b"so", UnstrTxtKind::Txt),
            UnstrToken::from_plain(b" ", UnstrTxtKind::Fws),
            UnstrToken::from_plain(b"long", UnstrTxtKind::Txt),
        ]),
    );
    assert_eq!(printed(&field), b"Comments: so long\r\n".to_vec());
}

#[test]
fn print_unstructured_reparses() {
    let input = b"\r\n  folded\t text\r\n here ";
    let (_, body) = unstructured(input, 0);
    let text = body.text();
    assert_eq!(text, b"  folded\t text here".to_vec());
    let (end, again) = unstructured(&text, 0);
    assert_eq!(end, text.len());
    assert_eq!(again, body);
}

#[test]
fn print_seq_separators() {
    let versions = vec![Version { major: 1, minor: 0 }, Version { major: 2, minor: 1 }, Version { major: 3, minor: 0 }];
    let mut out = Unfolded::new();
    print_seq(&mut out, &versions, &[FoldStep::Bytes(b",".to_vec()), FoldStep::Fws]);
    assert_eq!(out.as_bytes(), b"1.0, 2.1, 3.0".to_vec());

    let mut out = Unfolded::new();
    print_seq(&mut out, &versions[..1], &[FoldStep::Bytes(b",".to_vec())]);
    assert_eq!(out.as_bytes(), b"1.0".to_vec());

    let mut out = Unfolded::new();
    print_seq::<Version, Unfolded>(&mut out, &[], &[FoldStep::Bytes(b",".to_vec())]);
    assert!(out.as_bytes().is_empty());
}

#[test]
fn print_on_line_folder() {
    let a = b"a".repeat(60);
    let b = b"b".repeat(30);
    let body = eml_codec::text::misc_token::Unstructured(vec![
        UnstrToken::from_plain(b" ", UnstrTxtKind::Fws),
        UnstrToken::from_plain(&a, UnstrTxtKind::Txt),
        UnstrToken::from_plain(b" ", UnstrTxtKind::Fws),
        UnstrToken::from_plain(&b, UnstrTxtKind::Txt),
    ]);
    let mut folder = LineFolder::new();
    print_unstructured(&mut folder, b"Subject", &body);
    folder.flush();
    let mut expected = b"Subject: ".to_vec();
    expected.extend_from_slice(&a);
    expected.extend_from_slice(b"\r\n ");
    expected.extend_from_slice(&b);
    expected.extend_from_slice(b"\r\n");
    assert_eq!(folder.as_bytes(), expected.as_slice());
}

#[test]
fn parse_whole_message() {
    let input = b"Date: 7 Mar 2023 08:00:00 +0200\r\nFrom: deuxfleurs@example.com\r\nSubject: An RFC 822 formatted message\r\nMIME-Version: 1.0\r\n\r\nThis is the body.";
    let msg = parse_message(input);
    assert_eq!(msg.body, b"This is the body.".to_vec());
    assert_eq!(msg.raw, input.to_vec());
    assert_eq!(msg.raw_headers.len(), input.len() - b"This is the body.".len());
    assert_eq!(msg.entries.len(), 4);
    assert_eq!(msg.imf.mime_version, Some(Version { major: 1, minor: 0 }));

    let (rest, imf) = parse_imf(input);
    assert_eq!(rest, b"This is the body.");
    assert_eq!(imf, msg.imf);
    let (_, fields) = header_kv(input);
    assert_eq!(fields.len(), 4);
}

#[test]
fn printed_date_time_parses_back() {
    let dt = DateTime { year: 2023, month: 3, day: 7, hour: 8, minute: 0, second: 0, offset: 2 * 3600 };
    let text = printed(&dt);
    assert_eq!(text, b"Tue, 7 Mar 2023 08:00:00 +0200".to_vec());
    assert_eq!(date_time(&text, 0), Some((text.len(), dt)));
    let dt = DateTime { year: 1999, month: 12, day: 31, hour: 23, minute: 59, second: 59, offset: -(9 * 3600 + 30 * 60) };
    let text = printed(&dt);
    assert_eq!(text, b"Fri, 31 Dec 1999 23:59:59 -0930".to_vec());
    assert_eq!(date_time(&text, 0), Some((text.len(), dt)));
}

#[test]
fn printed_version_parses_back() {
    let v = Version { major: 1, minor: 0 };
    let text = printed(&v);
    assert_eq!(version(&text, 0), Some((text.len(), v)));
    let v = Version { major: 10, minor: 42 };
    let text = printed(&v);
    assert_eq!(version(&text, 0), Some((text.len(), v)));
}

#[test]
fn folded_lines_keep_to_limit() {
    // a long word cannot be folded: its line goes past the limit, and the
    // line is cut at the first whitespace after it
    let long = b"w".repeat(90);
    let folded = with_line_folder(&[
        FoldStep::Bytes(b"Subject:".to_vec()),
        FoldStep::Fws,
        FoldStep::Bytes(long.clone()),
        FoldStep::Fws,
        FoldStep::Bytes(b"end".to_vec()),
    ]);
    let mut expected = b"Subject:\r\n ".to_vec();
    expected.extend_from_slice(&long);
    expected.extend_from_slice(b"\r\n end");
    assert_eq!(folded, expected);
    for line in folded.split(|b| *b == b'\n') {
        let line = line.strip_suffix(b"\r").unwrap_or(line);
        assert!(line.len() <= 78 || !line[1..].iter().any(|b| *b == b' ' || *b == b'\t'));
    }
}

#[test]
fn folded_lines_cut_as_late_as_possible() {
    let word = b"w".repeat(9);
    let mut steps = vec![FoldStep::Bytes(word.clone())];
    for _ in 0..9 {
        steps.push(FoldStep::Fws);
        steps.push(FoldStep::Bytes(word.clone()));
    }
    let folded = with_line_folder(&steps);
    let mut expected = word.clone();
    for _ in 0..6 {
        expected.push(b' ');
        expected.extend_from_slice(&word);
    }
    expected.extend_from_slice(b"\r\n");
    for _ in 0..3 {
        expected.push(b' ');
        expected.extend_from_slice(&word);
    }
    assert_eq!(folded, expected);
}

#[test]
fn text_with_spaces_still_folds_at_folding_whitespace() {
    let x = vec![b'x'; 80];
    let folded = with_line_folder(&[
        FoldStep::Bytes(b"a b".to_vec()),
        FoldStep::Fws,
        FoldStep::Bytes(x.clone()),
    ]);
    let mut expected = b"a b\r\n ".to_vec();
    expected.extend_from_slice(&x);
    assert_eq!(folded, expected);
}

#[test]
fn no_fold_of_whitespace_only() {
    let folded = with_line_folder(&[
        FoldStep::Bytes(b"x".to_vec()),
        FoldStep::FwsBytes(vec![b' '; 80]),
    ]);
    let mut expected = b"x".to_vec();
    expected.extend_from_slice(&[b' '; 80]);
    assert_eq!(folded, expected);
    for line in folded.split(|b| *b == b'\n').skip(1) {
        assert!(line.iter().any(|b| *b != b' ' && *b != b'\t' && *b != b'\r'));
    }
    // whitespace that text follows may still be folded
    let folded = with_line_folder(&[
        FoldStep::Bytes(b"x".to_vec()),
        FoldStep::FwsBytes(vec![b' '; 80]),
        FoldStep::Bytes(b"y".to_vec()),
    ]);
    let mut expected = b"x".to_vec();
    expected.extend_from_slice(&[b' '; 77]);
    expected.extend_from_slice(b"\r\n   y");
    assert_eq!(folded, expected);
}

fn printed_vec<T: Print>(x: &T) -> Vec<u8> {
    printed(x)
}

fn parse_mailbox(s: &[u8]) -> eml_codec::imf::mailbox::MailboxRef {
    let (end, m) = eml_codec::imf::mailbox::mailbox(s, 0).unwrap();
    assert_eq!(end, s.len());
    m
}

#[test]
fn print_mailboxes() {
    let m = parse_mailbox(b"Mary Smith <mary@x.test>");
    assert_eq!(printed_vec(&m), b"Mary Smith <mary@x.test>".to_vec());
    let m = parse_mailbox(b"jdoe@one.test");
    assert_eq!(printed_vec(&m), b"jdoe@one.test".to_vec());
    // a quoted display name stays quoted; comments and extra spaces go
    let m = parse_mailbox(b"\"Joe Q. Public\"  <john.q.public@example.com> (home)");
    assert_eq!(printed_vec(&m), b"\"Joe Q. Public\" <john.q.public@example.com>".to_vec());
    // a local part that is no dot-atom is quoted, with quoted pairs
    let m = parse_mailbox(b"\"a b\\\"c\"@example.com");
    assert_eq!(printed_vec(&m), b"\"a b\\\"c\"@example.com".to_vec());
    // an obsolete local part with a quoted word made of atext is a dot-atom
    let m = parse_mailbox(b"\"john\".doe@example.com");
    assert_eq!(printed_vec(&m), b"john.doe@example.com".to_vec());
    // a domain literal
    let m = parse_mailbox(b"x@[ 1.2.3.4 ]");
    assert_eq!(printed_vec(&m), b"x@[1.2.3.4]".to_vec());
}

#[test]
fn print_placeholder_mailbox() {
    let m = eml_codec::imf::mailbox::MailboxRef::placeholder();
    assert!(m.name.is_none());
    assert_eq!(printed_vec(&m), b"unknown@unknown".to_vec());
}

#[test]
fn print_address_lists_and_groups() {
    let text = b"Mary Smith <mary@x.test>, jdoe@example.org";
    let (end, l) = eml_codec::imf::address::address_list(text, 0).unwrap();
    assert_eq!(end, text.len());
    assert_eq!(printed_vec(&l), b"Mary Smith <mary@x.test>, jdoe@example.org".to_vec());
    let (_, g) = eml_codec::imf::address::group(b"A Group:Ed Jones <c@a.test>,joe@where.test,John <jdoe@one.test>;", 0).unwrap();
    assert_eq!(printed_vec(&g), b"A Group:Ed Jones <c@a.test>, joe@where.test, John <jdoe@one.test>;".to_vec());
    let (_, g) = eml_codec::imf::address::group(b"Undisclosed recipients:;", 0).unwrap();
    assert_eq!(printed_vec(&g), b"Undisclosed recipients:;".to_vec());
}

#[test]
fn print_message_ids_and_return_path() {
    let (_, id) = eml_codec::imf::identification::msg_id(b"<1234@local.machine.example>", 0).unwrap();
    assert_eq!(printed_vec(&id), b"<1234@local.machine.example>".to_vec());
    let (_, ids) = eml_codec::imf::identification::nullable_msg_list(b"<a@b> <c@d>", 0);
    assert_eq!(ids.len(), 2);
    assert_eq!(printed_vec(&ids), b"<a@b> <c@d>".to_vec());
    let id = eml_codec::imf::identification::MessageID::Invalid(b"not an id".to_vec());
    assert_eq!(printed_vec(&id), b"<not an id>".to_vec());
    let (_, p) = eml_codec::imf::trace::return_path(b"<>", 0).unwrap();
    assert_eq!(printed_vec(&p), b"<>".to_vec());
    let (_, p) = eml_codec::imf::trace::return_path(b"<a@b.test>", 0).unwrap();
    assert_eq!(printed_vec(&p), b"<a@b.test>".to_vec());
}

#[test]
fn print_imf_fields() {
    let from = eml_codec::imf::mailbox::MailboxList(vec![parse_mailbox(b"Mary Smith <mary@x.test>")]);
    assert_eq!(printed_vec(&Field::From(from)), b"From: Mary Smith <mary@x.test>\r\n".to_vec());
    let (_, subject) = unstructured(b" Saying Hello", 0);
    assert_eq!(printed_vec(&Field::Subject(subject)), b"Subject: Saying Hello\r\n".to_vec());
    assert_eq!(
        printed_vec(&Field::MIMEVersion(Version { major: 1, minor: 0 })),
        b"MIME-Version: 1.0\r\n".to_vec()
    );
    let p = eml_codec::imf::trace::ReturnPath(None);
    assert_eq!(printed_vec(&Field::ReturnPath(p)), b"Return-Path: <>\r\n".to_vec());
}

#[test]
fn print_content_types() {
    let (_, nt) = eml_codec::mime::types::naive_type(b"text/plain; charset=\"utf-8\"; format=flowed", 0).unwrap();
    assert_eq!(printed_vec(&nt), b"text/plain; charset=\"utf-8\"; format=flowed".to_vec());
    let t = eml_codec::mime::types::Text {
        subtype: TextSubtype::Html,
        charset: eml_codec::mime::charset::EmailCharset::UTF_8,
        other_params: vec![],
    };
    assert_eq!(printed_vec(&t), b"text/html; charset=UTF-8".to_vec());
    let m = eml_codec::mime::types::Message { subtype: MessageSubtype::RFC822, params: vec![] };
    assert_eq!(printed_vec(&m), b"message/rfc822".to_vec());
    let mp = eml_codec::mime::types::Multipart {
        subtype: MultipartSubtype::Mixed,
        boundary: Some(b"old".to_vec()),
        other_params: vec![],
    };
    let mut out = Unfolded::new();
    mp.print_with_boundary(&mut out, b"=_b1");
    assert_eq!(out.as_bytes(), b"multipart/mixed; boundary=\"=_b1\"".to_vec());
}

#[test]
fn print_fold_marks_on_line_folder() {
    // a long address list is folded at its folding whitespace
    let mut names = Vec::new();
    for i in 0..6 {
        names.push(format!("Person Number{} <person{}@example.com>", i, i));
    }
    let text = names.join(", ");
    let (_, l) = eml_codec::imf::address::address_list(text.as_bytes(), 0).unwrap();
    let mut folder = LineFolder::new();
    print(&mut folder, b"To", &l);
    folder.flush();
    let out = folder.as_bytes().to_vec();
    for line in out.split(|b| *b == b'\n') {
        assert!(line.len() <= 80);
    }
    let s = String::from_utf8(out.clone()).unwrap();
    assert!(s.contains("\r\n "));
    let unfolded: Vec<u8> = s.replace("\r\n ", " ").into_bytes();
    assert_eq!(unfolded, format!("To: {}\r\n", text).into_bytes());
}

#[test]
fn print_mime_fields_with_boundary() {
    let mp = eml_codec::mime::types::Multipart {
        subtype: MultipartSubtype::Alternative,
        boundary: None,
        other_params: vec![],
    };
    let f = eml_codec::mime::field::Field::Type(eml_codec::mime::types::AnyType::Multipart(mp));
    let mut out = Unfolded::new();
    f.print_with_boundary(&mut out, b"b0");
    assert_eq!(out.as_bytes(), b"Content-Type: multipart/alternative; boundary=\"b0\"\r\n".to_vec());

    let t = eml_codec::mime::types::Text {
        subtype: TextSubtype::Plain,
        charset: eml_codec::mime::charset::EmailCharset::US_ASCII,
        other_params: vec![],
    };
    let f = eml_codec::mime::field::Field::Type(eml_codec::mime::types::AnyType::Text(t));
    let mut out = Unfolded::new();
    f.print_with_boundary(&mut out, b"unused");
    assert_eq!(out.as_bytes(), b"Content-Type: text/plain; charset=US-ASCII\r\n".to_vec());

    let f = eml_codec::mime::field::Field::TransferEncoding(Mechanism::QuotedPrintable);
    let mf = eml_codec::message::field::MessageField::MIME { f, raw_body: b" quoted-printable".to_vec() };
    let mut out = Unfolded::new();
    mf.print_with_boundary(&mut out, b"b");
    assert_eq!(out.as_bytes(), b"Content-Transfer-Encoding: quoted-printable\r\n".to_vec());

    let f = Field::MIMEVersion(Version { major: 1, minor: 0 });
    let mf = eml_codec::message::field::MessageField::Imf { f, raw_body: b" 1.0".to_vec() };
    let mut out = Unfolded::new();
    mf.print_with_boundary(&mut out, b"b");
    assert_eq!(out.as_bytes(), b"MIME-Version: 1.0\r\n".to_vec());
}
