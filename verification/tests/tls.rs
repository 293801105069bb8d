use exact_sni_relay::client_hello::{
    normalize_sni, parse_client_hello, read_u16, take, ParseError, SERVER_NAME_EXTENSION,
};
use exact_sni_relay::tls::{
    classify, could_be_http_prefix, looks_like_http, Classification, Classifier, ParseProgress,
    CLIENT_HELLO, TLS_HANDSHAKE,
};

fn hello(hostname: Option<&str>, split_at: Option<usize>) -> Vec<u8> {
    let mut body = vec![3, 3];
    body.extend([7; 32]);
    body.push(0);
    body.extend([0, 2, 0x13, 1]);
    body.extend([1, 0]);
    if let Some(hostname) = hostname {
        let name = hostname.as_bytes();
        let mut extension = Vec::new();
        extension.extend(((name.len() + 3) as u16).to_be_bytes());
        extension.push(0);
        extension.extend((name.len() as u16).to_be_bytes());
        extension.extend(name);
        let mut extensions = Vec::new();
        extensions.extend(SERVER_NAME_EXTENSION.to_be_bytes());
        extensions.extend((extension.len() as u16).to_be_bytes());
        extensions.extend(extension);
        body.extend((extensions.len() as u16).to_be_bytes());
        body.extend(extensions);
    }
    framed(&body, split_at)
}

/// A ClientHello with this body, in one record or two.
fn framed(body: &[u8], split_at: Option<usize>) -> Vec<u8> {
    let mut handshake = vec![CLIENT_HELLO];
    let len = body.len();
    handshake.extend([(len >> 16) as u8, (len >> 8) as u8, len as u8]);
    handshake.extend(body);

    let at = split_at.unwrap_or(handshake.len()).min(handshake.len());
    let mut records = Vec::new();
    for chunk in [&handshake[..at], &handshake[at..]] {
        if chunk.is_empty() {
            continue;
        }
        records.extend([TLS_HANDSHAKE, 3, 3]);
        records.extend((chunk.len() as u16).to_be_bytes());
        records.extend(chunk);
    }
    records
}

fn invalid(message: &'static str) -> Result<ParseProgress, ParseError> {
    Err(ParseError::Invalid(message))
}

fn named(name: &str) -> ParseProgress {
    ParseProgress::Complete(Classification::Tls {
        sni: Some(name.to_string()),
    })
}

#[test]
fn parses_fragmented_client_hello() {
    let data = hello(Some("EXAMPLE.Test"), Some(10));
    for prefix in 0..data.len() {
        assert_eq!(classify(&data[..prefix]).unwrap(), ParseProgress::NeedMore);
    }
    assert_eq!(
        classify(&data).unwrap(),
        ParseProgress::Complete(Classification::Tls {
            sni: Some("example.test".to_string())
        })
    );
}

#[test]
fn classifies_http_and_tls_without_sni() {
    assert_eq!(
        classify(b"GET / HTTP/1.1\r\n").unwrap(),
        ParseProgress::Complete(Classification::PlainHttp)
    );
    assert_eq!(
        classify(&hello(None, None)).unwrap(),
        ParseProgress::Complete(Classification::Tls { sni: None })
    );
}

#[test]
fn rejects_invalid_record_lengths() {
    assert!(classify(&[TLS_HANDSHAKE, 3, 3, 0xff, 0xff]).is_err());
}

#[test]
fn incremental_parser_accepts_every_byte_boundary() {
    let data = hello(Some("EXAMPLE.Test"), Some(11));
    for chunk_size in 1..=data.len() {
        let mut parser = Classifier::new();
        let mut progress = ParseProgress::NeedMore;
        for chunk in data.chunks(chunk_size) {
            progress = parser.push(chunk).unwrap();
        }
        assert_eq!(
            progress,
            ParseProgress::Complete(Classification::Tls {
                sni: Some("example.test".to_string())
            }),
            "chunk size {chunk_size}"
        );
    }
}

#[test]
fn incremental_parser_handles_multi_record_hello_and_suffix() {
    let mut data = hello(Some("example.test"), Some(3));
    data.extend_from_slice(b"already-buffered-application-data");
    let mut parser = Classifier::new();
    assert_eq!(
        parser.push(&data).unwrap(),
        ParseProgress::Complete(Classification::Tls {
            sni: Some("example.test".to_string())
        })
    );
}

#[test]
fn incremental_parser_keeps_fragmented_http_semantics() {
    for request in [
        b"GET / HTTP/1.1\r\n".as_slice(),
        b"CONNECT x:443 HTTP/1.1\r\n",
    ] {
        let mut parser = Classifier::new();
        let mut progress = ParseProgress::NeedMore;
        for byte in request {
            progress = parser.push(std::slice::from_ref(byte)).unwrap();
            if matches!(progress, ParseProgress::Complete(_)) {
                break;
            }
        }
        assert_eq!(progress, ParseProgress::Complete(Classification::PlainHttp));
    }
}

#[test]
fn incremental_parser_preserves_tls_without_sni() {
    let data = hello(None, Some(1));
    let mut parser = Classifier::new();
    let mut progress = ParseProgress::NeedMore;
    for byte in &data {
        progress = parser.push(std::slice::from_ref(byte)).unwrap();
    }
    assert_eq!(
        progress,
        ParseProgress::Complete(Classification::Tls { sni: None })
    );
}

#[test]
fn incremental_parser_does_not_copy_bytes_after_declared_client_hello() {
    let mut data = hello(Some("example.test"), None);
    // The record has to be complete before it is classified; what it holds
    // after the declared message is not retained.
    let declared_record_len = u16::from_be_bytes([data[3], data[4]]) as usize;
    let suffix = vec![0x5a; 8 * 1024];
    data[3..5].copy_from_slice(&((declared_record_len + suffix.len()) as u16).to_be_bytes());
    data.extend_from_slice(&suffix);

    let mut parser = Classifier::new();
    let progress = parser.push(&data).unwrap();
    assert_eq!(
        progress,
        ParseProgress::Complete(Classification::Tls {
            sni: Some("example.test".to_string())
        })
    );
    if !parser.is_complete() {
        panic!("classifier did not release its TLS deframer after completion");
    }
}

#[test]
fn incremental_parser_rejects_invalid_continuation_record_header() {
    let mut data = hello(Some("example.test"), Some(3));
    // Corrupt the second record type.  Fragment the input so the first
    // push ends exactly before that header.
    let second_header = 5 + 3;
    data[second_header] = 23;
    let mut parser = Classifier::new();
    assert_eq!(
        parser.push(&data[..second_header]).unwrap(),
        ParseProgress::NeedMore
    );
    assert!(parser.push(&data[second_header..]).is_err());
}

#[test]
fn record_headers_are_checked_in_order() {
    assert_eq!(
        classify(&[TLS_HANDSHAKE, 2, 3, 0, 5]),
        invalid("unsupported TLS record version")
    );
    assert_eq!(
        classify(&[TLS_HANDSHAKE, 3, 0, 0, 5]),
        invalid("unsupported TLS record version")
    );
    assert_eq!(
        classify(&[TLS_HANDSHAKE, 3, 5, 0, 5]),
        invalid("unsupported TLS record version")
    );
    assert_eq!(
        classify(&[TLS_HANDSHAKE, 3, 1, 0, 0]),
        invalid("invalid TLS record length")
    );
    // 18432 is the longest record, 18433 is too long.
    assert_eq!(
        classify(&[TLS_HANDSHAKE, 3, 4, 0x48, 0x00]),
        Ok(ParseProgress::NeedMore)
    );
    assert_eq!(
        classify(&[TLS_HANDSHAKE, 3, 4, 0x48, 0x01]),
        invalid("invalid TLS record length")
    );
    let mut data = hello(Some("example.test"), Some(3));
    data[8] = 23;
    assert_eq!(classify(&data), invalid("unexpected TLS record type"));
}

#[test]
fn first_message_must_be_a_client_hello_with_a_body() {
    assert_eq!(
        classify(&[TLS_HANDSHAKE, 3, 3, 0, 4, 2, 0, 0, 1]),
        invalid("first handshake is not ClientHello")
    );
    assert_eq!(
        classify(&[TLS_HANDSHAKE, 3, 3, 0, 4, 1, 0, 0, 0]),
        invalid("empty ClientHello")
    );
}

#[test]
fn plaintext_is_told_by_its_first_bytes() {
    for method in [
        "GET ", "HEAD ", "POST ", "PUT ", "DELETE ", "OPTIONS ", "PATCH ", "CONNECT ", "TRACE ",
    ] {
        assert!(looks_like_http(method.as_bytes()));
        assert_eq!(
            classify(method.as_bytes()),
            Ok(ParseProgress::Complete(Classification::PlainHttp))
        );
        for end in 0..method.len() {
            assert!(could_be_http_prefix(&method.as_bytes()[..end]));
            assert!(!looks_like_http(&method.as_bytes()[..end]));
            assert_eq!(
                classify(&method.as_bytes()[..end]),
                Ok(ParseProgress::NeedMore)
            );
        }
    }
    assert_eq!(classify(b""), Ok(ParseProgress::NeedMore));
    let refused = invalid("neither TLS nor supported plain HTTP");
    assert_eq!(classify(b"get / HTTP/1.1"), refused);
    assert_eq!(classify(b"SSH-2.0-x"), refused);
    assert_eq!(classify(b"CONNECTS x"), refused);
    assert_eq!(classify(&[0]), refused);
}

#[test]
fn completed_classifier_refuses_more() {
    let mut parser = Classifier::default();
    assert!(!parser.is_complete());
    parser.push(b"GET /").unwrap();
    assert!(parser.is_complete());
    assert_eq!(parser.push(b"x"), invalid("classifier already completed"));
    assert_eq!(parser.push(b""), invalid("classifier already completed"));
}

#[test]
fn answer_does_not_depend_on_the_pieces_or_on_what_follows() {
    let mut data = hello(Some("pieces.example"), Some(7));
    let whole = classify(&data).unwrap();
    assert_eq!(whole, named("pieces.example"));
    for cut in 0..=data.len() {
        let mut parser = Classifier::new();
        let first = parser.push(&data[..cut]).unwrap();
        let last = if first == ParseProgress::NeedMore {
            parser.push(&data[cut..]).unwrap()
        } else {
            first
        };
        assert_eq!(last, whole);
    }
    data.extend_from_slice(&[0xff; 64]);
    assert_eq!(classify(&data).unwrap(), whole);
}

#[test]
fn hello_body_errors_are_told_apart() {
    let mut body = vec![3, 3];
    body.extend([7; 32]);
    assert_eq!(
        parse_client_hello(&body[..33]),
        Err(ParseError::Invalid("truncated ClientHello field"))
    );
    body.push(0);
    let ciphers = |len: [u8; 2], rest: &[u8]| {
        let mut hello = body.clone();
        hello.extend(len);
        hello.extend(rest);
        parse_client_hello(&hello)
    };
    assert_eq!(
        ciphers([0, 0], &[]),
        Err(ParseError::Invalid("invalid cipher suite vector"))
    );
    assert_eq!(
        ciphers([0, 3], &[0, 0, 0]),
        Err(ParseError::Invalid("invalid cipher suite vector"))
    );
    assert_eq!(
        ciphers([0, 2], &[0x13, 1, 0]),
        Err(ParseError::Invalid("empty compression vector"))
    );
    assert_eq!(ciphers([0, 2], &[0x13, 1, 1, 0]), Ok(None));
    assert_eq!(ciphers([0, 2], &[0x13, 1, 1, 0, 0, 0]), Ok(None));
    assert_eq!(
        ciphers([0, 2], &[0x13, 1, 1, 0, 0, 0, 9]),
        Err(ParseError::Invalid("trailing ClientHello bytes"))
    );
    // An extension other than the server name is skipped.
    assert_eq!(
        ciphers([0, 2], &[0x13, 1, 1, 0, 0, 5, 0, 9, 0, 1, 7]),
        Ok(None)
    );
    // A server name extension with a byte after its list.
    assert_eq!(
        ciphers([0, 2], &[0x13, 1, 1, 0, 0, 7, 0, 0, 0, 3, 0, 0, 7]),
        Err(ParseError::Invalid("trailing SNI extension bytes"))
    );
    // A name of another type is skipped.
    assert_eq!(
        ciphers(
            [0, 2],
            &[0x13, 1, 1, 0, 0, 10, 0, 0, 0, 6, 0, 4, 1, 0, 1, b'x']
        ),
        Ok(None)
    );
    assert_eq!(
        ciphers(
            [0, 2],
            &[0x13, 1, 1, 0, 0, 10, 0, 0, 0, 6, 0, 4, 0, 0, 1, 0xff]
        ),
        Err(ParseError::Invalid("SNI hostname is not UTF-8"))
    );
    assert_eq!(
        ciphers(
            [0, 2],
            &[0x13, 1, 1, 0, 0, 10, 0, 0, 0, 6, 0, 4, 0, 0, 1, b'_']
        ),
        Err(ParseError::Invalid("invalid SNI hostname"))
    );
    assert_eq!(
        ciphers(
            [0, 2],
            &[0x13, 1, 1, 0, 0, 10, 0, 0, 0, 6, 0, 4, 0, 0, 1, b'X']
        ),
        Ok(Some("x".to_string()))
    );
}

#[test]
fn fields_are_taken_in_turn() {
    let input = [1u8, 2, 3, 4, 5];
    let mut cursor = 1;
    assert_eq!(take(&input, &mut cursor, 2), Ok(&input[1..3]));
    assert_eq!(cursor, 3);
    assert_eq!(read_u16(&input, &mut cursor), Ok(0x0405));
    assert_eq!(cursor, 5);
    assert_eq!(
        take(&input, &mut cursor, 1),
        Err(ParseError::Invalid("truncated ClientHello field"))
    );
    assert_eq!(cursor, 5);
    let mut far = usize::MAX;
    assert_eq!(
        take(&input, &mut far, 1),
        Err(ParseError::Invalid("length overflow"))
    );
    assert_eq!(far, usize::MAX);
}

#[test]
fn server_names_have_one_normal_form() {
    assert_eq!(normalize_sni("WWW.Example.Test.."), Ok("www.example.test".to_string()));
    assert_eq!(normalize_sni("xn--bcher-kva.example"), Ok("xn--bcher-kva.example".to_string()));
    let refused = Err(ParseError::Invalid("invalid SNI hostname"));
    for name in ["", ".", "a..b", "-a.test", "a-.test", "a_b", "a b", "b\u{fc}cher.test", "*.test"] {
        assert_eq!(normalize_sni(name), refused, "{name:?}");
    }
    let label = "a".repeat(63);
    assert_eq!(normalize_sni(&label), Ok(label.clone()));
    assert_eq!(normalize_sni(&format!("{label}a")), refused);
    let long = format!("{label}.{label}.{label}.{}", "a".repeat(61));
    assert_eq!(long.len(), 253);
    assert_eq!(normalize_sni(&long), Ok(long.clone()));
    assert_eq!(normalize_sni(&format!("{long}a")), refused);
    // The length is that of the name as it was sent.
    assert_eq!(normalize_sni(&format!("{long}.")), refused);
}

#[test]
fn errors_have_a_text() {
    assert_eq!(
        ParseError::Invalid("empty ClientHello").message(),
        "invalid TLS ClientHello: empty ClientHello"
    );
}

#[test]
fn written_hello_is_read_however_it_is_cut() {
    // A session id, another extension first, and another name type first.
    let mut body = vec![3, 3];
    body.extend([9; 32]);
    body.extend([2, 0xaa, 0xbb]);
    body.extend([0, 4, 0x13, 1, 0x13, 2]);
    body.extend([2, 1, 0]);
    let names: &[u8] = b"\x01\x00\x02xy\x00\x00\x0cHost.Example";
    let mut list = (names.len() as u16).to_be_bytes().to_vec();
    list.extend(names);
    let mut extensions: Vec<u8> = vec![0, 10, 0, 2, 0, 29];
    extensions.extend(SERVER_NAME_EXTENSION.to_be_bytes());
    extensions.extend((list.len() as u16).to_be_bytes());
    extensions.extend(list);
    extensions.extend([0, 43, 0, 1, 0]);
    body.extend((extensions.len() as u16).to_be_bytes());
    body.extend(extensions);
    for at in 0..body.len() + 4 {
        assert_eq!(
            classify(&framed(&body, Some(at))).unwrap(),
            named("host.example"),
            "{at}"
        );
    }
    // What follows the message, in its last record or behind, plays no part.
    let mut record = framed(&body, None);
    record.extend([0x55; 9]);
    let length = (record.len() - 5) as u16;
    record[3..5].copy_from_slice(&length.to_be_bytes());
    assert_eq!(classify(&record).unwrap(), named("host.example"));
    record.extend([TLS_HANDSHAKE, 3, 3, 0, 1, 0]);
    assert_eq!(classify(&record).unwrap(), named("host.example"));
}
