use smtp_session::ldap::{
    DisplayableResultEntry, DisplayableStructureTag, LdapFilter, ResultEntry, StructureTag,
    TagClass, TagPayload,
};
use smtp_session::receiver::{DataReceiver, LineEvent, RequestReceiver};
use smtp_session::request::{parse_line, ParseError, Request};
use smtp_session::text::{dec_string, domain_part, to_lower};

#[test]
fn test_displayable_result_entry_with_primitive_payload() {
    let tag = StructureTag {
        class: TagClass::Universal,
        id: 1,
        payload: TagPayload::Primitive(vec![72, 101, 108, 108, 111]), // "Hello"
    };

    let entry = ResultEntry::new(tag);

    let displayable_entry = DisplayableResultEntry(&entry);

    let expected_output = "StructureTag { class: Universal, id: 1, payload: \"Hello\"}";

    assert_eq!(displayable_entry.display_string(), expected_output);
}

#[test]
fn test_displayable_result_entry_with_constructed_payload() {
    let nested_tag1 = StructureTag {
        class: TagClass::Universal,
        id: 2,
        payload: TagPayload::Primitive(vec![72, 101, 108, 108, 111]), // "Hello"
    };

    let nested_tag2 = StructureTag {
        class: TagClass::Universal,
        id: 3,
        payload: TagPayload::Primitive(vec![87, 111, 114, 108, 100]), // "World"
    };

    let main_tag = StructureTag {
        class: TagClass::Universal,
        id: 1,
        payload: TagPayload::Constructed(vec![nested_tag1, nested_tag2]),
    };

    let entry = ResultEntry::new(main_tag);

    let displayable_entry = DisplayableResultEntry(&entry);

    let expected_output = "StructureTag { class: Universal, id: 1, payload: [StructureTag { class: Universal, id: 2, payload: \"Hello\"}, StructureTag { class: Universal, id: 3, payload: \"World\"}]}";

    assert_eq!(displayable_entry.display_string(), expected_output);
}

fn decode_data(chunks: &[&str]) -> Option<Vec<u8>> {
    let mut r = DataReceiver::new();
    let mut buf = Vec::new();
    for chunk in chunks {
        let bytes = chunk.as_bytes();
        let mut pos = 0usize;
        if r.ingest(bytes, &mut pos, &mut buf) {
            return Some(buf);
        }
    }
    None
}

#[test]
fn data_receiver_unstuffs_and_finds_terminator() {
    let cases: &[(&[&str], &str)] = &[
        (&["hi\r\n", "..\r\n", ".a\r\n", "\r\n.\r\n"], "hi\r\n.\r\na\r\n\r\n"),
        (&["\r\na\rb\nc\r\n.d\r\n..\r\n", "\r\n.\r\n"], "\r\na\rb\nc\r\nd\r\n.\r\n\r\n"),
        (
            &["\n.\r\n", "MAIL FROM:<hello@world.com>\r\n", "DATA\r\n", "\r\n.\r\n"],
            "\n.\r\nMAIL FROM:<hello@world.com>\r\nDATA\r\n\r\n",
        ),
        (
            &["\r.\r", "MAIL FROM:<hello@world.com>\r\n", "DATA\r\n", "\r\n.\r\n"],
            "\r.\rMAIL FROM:<hello@world.com>\r\nDATA\r\n\r\n",
        ),
    ];
    for (chunks, expected) in cases {
        let decoded = decode_data(chunks).expect("terminator not found");
        assert_eq!(String::from_utf8(decoded).unwrap(), *expected);
    }
}

#[test]
fn data_receiver_round_trip() {
    let payload: &[&[u8]] = &[b"first line", b"", b".starts with dot", b"..double", b"tail"];
    // Encode: double a leading dot, close every line with CRLF, then the
    // terminator.
    let mut wire: Vec<u8> = Vec::new();
    for line in payload {
        if line.first() == Some(&b'.') {
            wire.push(b'.');
        }
        wire.extend_from_slice(line);
        wire.extend_from_slice(b"\r\n");
    }
    wire.extend_from_slice(b".\r\n");
    let mut expected: Vec<u8> = Vec::new();
    for line in payload {
        expected.extend_from_slice(line);
        expected.extend_from_slice(b"\r\n");
    }
    let mut r = DataReceiver::new();
    let mut buf = Vec::new();
    let mut pos = 0usize;
    assert!(r.ingest(&wire, &mut pos, &mut buf));
    assert_eq!(buf, expected);
    assert_eq!(pos, wire.len());
}

fn drain_requests(receiver: &mut RequestReceiver, data: &str, out: &mut Vec<Request>) {
    let bytes = data.as_bytes();
    let mut pos = 0usize;
    while pos < bytes.len() {
        match receiver.ingest(bytes, &mut pos) {
            LineEvent::Line(line) => {
                if let Ok(req) = parse_line(&line) {
                    out.push(req);
                }
            }
            LineEvent::TooLong => panic!("unexpected overlong line"),
            LineEvent::More => break,
        }
    }
}

#[test]
fn request_receiver_resumes_across_chunks() {
    let chunks = [
        "data\n",
        "start",
        "tls\n",
        "quit\nnoop",
        " hello\nehlo test\nvrfy name\n",
        "mail from:<hello",
        "@world.com>\nrcpt to:<",
        "test@domain.com>\n",
    ];
    let mut requests = Vec::new();
    let mut receiver = RequestReceiver::new();
    for chunk in &chunks {
        drain_requests(&mut receiver, chunk, &mut requests);
    }
    assert_eq!(requests.len(), 8);
    assert!(matches!(requests[0], Request::Data));
    assert!(matches!(requests[1], Request::StartTls));
    assert!(matches!(requests[2], Request::Quit));
    assert!(matches!(&requests[3], Request::Noop { value } if value == b"hello"));
    assert!(matches!(&requests[4], Request::Ehlo { host } if host == b"test"));
    assert!(matches!(&requests[5], Request::Vrfy { value } if value == b"name"));
    assert!(
        matches!(&requests[6], Request::Mail { from } if from.address == b"hello@world.com".to_vec())
    );
    assert!(
        matches!(&requests[7], Request::Rcpt { to } if to.address == b"test@domain.com".to_vec())
    );
}

fn parse_both(line: &str) -> (Result<Request, ParseError>, Result<smtp_proto::Request<String>, smtp_proto::Error>) {
    let ours = parse_line(&line.as_bytes().to_vec());
    let mut with_lf = line.as_bytes().to_vec();
    with_lf.extend_from_slice(b"\r\n");
    let theirs = smtp_proto::Request::parse(&mut with_lf.iter())
        .map(|r| r.into_owned());
    (ours, theirs)
}

#[test]
fn parser_agrees_with_reference_implementation() {
    let lines = [
        "MAIL FROM:<a@b.com> BODY=8BITMIME SIZE=500",
        "MAIL FROM:<>",
        "MAIL FROM:<\"quoted string\"@example.org>",
        "MAIL FROM:<a@b> RET=HDRS ENVID=xyz",
        "RCPT TO:<Postmaster>",
        "RCPT TO:<a@b.com> NOTIFY=SUCCESS,FAILURE",
        "RCPT TO:<@route,@other:user@dom.com>",
        "rcpt to:<a@b> orcpt=rfc822;User+40Dom.org",
    ];
    for line in lines {
        let (ours, theirs) = parse_both(line);
        match (ours, theirs) {
            (Ok(Request::Mail { from: a }), Ok(smtp_proto::Request::Mail { from: b })) => {
                assert_eq!(a.address, b.address.as_bytes().to_vec(), "{line}");
                assert_eq!(a.flags, b.flags, "{line}");
                assert_eq!(a.size, b.size, "{line}");
                assert_eq!(
                    a.env_id.map(|v| String::from_utf8(v).unwrap()),
                    b.env_id,
                    "{line}"
                );
            }
            (Ok(Request::Rcpt { to: a }), Ok(smtp_proto::Request::Rcpt { to: b })) => {
                assert_eq!(a.address, b.address.as_bytes().to_vec(), "{line}");
                assert_eq!(a.flags, b.flags, "{line}");
                assert_eq!(
                    a.orcpt.map(|v| String::from_utf8(v).unwrap()),
                    b.orcpt,
                    "{line}"
                );
            }
            (a, b) => panic!("parse mismatch for {line}: {a:?} vs {b:?}"),
        }
    }
}

#[test]
fn parser_rejects_what_the_reference_rejects() {
    let lines = [
        "MAIL FROM:<@b>",
        "MAIL FROM:<.a@b>",
        "RCPT TO:<a..b@c>",
        "FROB",
        "BDAT x",
        "RCPT TO:<a@b> NOTIFY=SOMETIMES",
        "MAIL FROM:<a@b> FOO=BAR",
    ];
    for line in lines {
        let (ours, theirs) = parse_both(line);
        assert!(ours.is_err(), "ours accepted {line}: {ours:?}");
        assert!(theirs.is_err(), "reference accepted {line}: {theirs:?}");
        let same_kind = match (&ours, &theirs) {
            (Err(ParseError::UnknownCommand), Err(smtp_proto::Error::UnknownCommand)) => true,
            (Err(ParseError::InvalidSenderAddress), Err(smtp_proto::Error::InvalidSenderAddress)) => true,
            (
                Err(ParseError::InvalidRecipientAddress),
                Err(smtp_proto::Error::InvalidRecipientAddress),
            ) => true,
            (Err(ParseError::SyntaxError { .. }), Err(smtp_proto::Error::SyntaxError { .. })) => {
                true
            }
            (
                Err(ParseError::InvalidParameter { .. }),
                Err(smtp_proto::Error::InvalidParameter { .. }),
            ) => true,
            (
                Err(ParseError::UnsupportedParameter { .. }),
                Err(smtp_proto::Error::UnsupportedParameter { .. }),
            ) => true,
            _ => false,
        };
        assert!(same_kind, "error kinds differ for {line}: {ours:?} vs {theirs:?}");
    }
}

#[test]
fn bdat_command_forms() {
    assert!(matches!(
        parse_line(&b"BDAT 86 LAST".to_vec()),
        Ok(Request::Bdat { chunk_size: 86, is_last: true })
    ));
    assert!(matches!(
        parse_line(&b"bdat 0".to_vec()),
        Ok(Request::Bdat { chunk_size: 0, is_last: false })
    ));
    assert!(matches!(
        parse_line(&b"BDAT".to_vec()),
        Err(ParseError::SyntaxError { .. })
    ));
}

#[test]
fn lowercase_and_domain_extraction() {
    assert_eq!(to_lower(&b"User@Example.ORG".to_vec()), b"user@example.org".to_vec());
    assert_eq!(domain_part(&b"user@example.org".to_vec()), b"example.org".to_vec());
    assert_eq!(domain_part(&b"a@b@c".to_vec()), b"c".to_vec());
    assert_eq!(domain_part(&b"nodomain".to_vec()), b"".to_vec());
    assert_eq!(dec_string(0), "0");
    assert_eq!(dec_string(90210), "90210");
}

#[test]
fn ldap_filter_escapes_the_value() {
    let filter = LdapFilter {
        filter: vec![b"(mail=".to_vec(), b")".to_vec()],
    };
    assert_eq!(filter.build(&b"joe".to_vec()), b"(mail=joe)".to_vec());
    assert_eq!(filter.build(&b"j*e(\\)".to_vec()), b"(mail=j\\2ae\\28\\5c\\29)".to_vec());
    let empty = LdapFilter { filter: vec![] };
    assert_eq!(empty.build(&b"x".to_vec()), b"".to_vec());
    let single = LdapFilter { filter: vec![b"(cn=*)".to_vec()] };
    assert_eq!(single.build(&b"ignored".to_vec()), b"(cn=*)".to_vec());
}

#[test]
fn utf8_payload_renders_quoted() {
    let tag = StructureTag {
        class: TagClass::Private,
        id: 7,
        payload: TagPayload::Primitive(vec![195, 169]),
    };
    let decoded = String::from_utf8(vec![195, 169]).unwrap();
    let expected = format!("StructureTag {{ class: Private, id: 7, payload: \"{}\"}}", decoded);
    assert_eq!(DisplayableStructureTag(&tag).display_string(), expected);
}

#[test]
fn invalid_utf8_payload_renders_as_octet_list() {
    let tag = StructureTag {
        class: TagClass::Context,
        id: 2,
        payload: TagPayload::Primitive(vec![255, 0, 16]),
    };
    assert_eq!(
        DisplayableStructureTag(&tag).display_string(),
        "StructureTag { class: Context, id: 2, payload: [255, 0, 16]}"
    );
}
