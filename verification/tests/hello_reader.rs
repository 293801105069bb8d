use exact_sni_relay::error::ErrorKind;
use exact_sni_relay::hello_reader::{HelloReader, ReadAction, ReadEvent, READ_CHUNK};
use exact_sni_relay::tls::Classification;

fn reads(action: ReadAction) -> usize {
    match action {
        ReadAction::Read(n) => n,
        other => panic!("expected a read, got {other:?}"),
    }
}

fn fails(action: ReadAction) -> (ErrorKind, String) {
    match action {
        ReadAction::Fail(error) => (error.kind, error.message),
        other => panic!("expected a failure, got {other:?}"),
    }
}

#[test]
fn reads_are_bounded_and_replayed() {
    let mut reader = HelloReader::new(20_000);
    assert_eq!(reads(reader.next()), READ_CHUNK);
    assert_eq!(reads(reader.on_read(ReadEvent::Data(b"PA"))), READ_CHUNK);
    assert_eq!(
        reads(reader.on_read(ReadEvent::Failed(ErrorKind::WouldBlock))),
        READ_CHUNK
    );
    match reader.on_read(ReadEvent::Data(b"TCH /x HTTP/1.1")) {
        ReadAction::Done(classification) => assert_eq!(classification, Classification::PlainHttp),
        other => panic!("{other:?}"),
    }
    assert_eq!(reader.into_bytes(), b"PATCH /x HTTP/1.1");
}

#[test]
fn what_is_left_of_the_limit_bounds_the_read() {
    let mut reader = HelloReader::new(4096);
    assert_eq!(reads(reader.next()), 4096);
    let mut record = vec![22, 3, 3, 0x40, 0];
    record.resize(4096, 0);
    assert_eq!(reads(reader.on_read(ReadEvent::Data(&record[..4000]))), 96);
    assert_eq!(
        fails(reader.on_read(ReadEvent::Data(&record[4000..]))),
        (
            ErrorKind::InvalidData,
            "ClientHello exceeds configured maximum".to_string()
        )
    );
}

#[test]
fn early_end_and_errors_close_the_connection() {
    let mut reader = HelloReader::new(4096);
    assert_eq!(
        fails(reader.on_read(ReadEvent::Data(b""))),
        (
            ErrorKind::UnexpectedEof,
            "client closed before routing decision".to_string()
        )
    );
    let mut reader = HelloReader::new(4096);
    assert!(matches!(
        reader.on_read(ReadEvent::Failed(ErrorKind::ConnectionReset)),
        ReadAction::FailAsRead
    ));
    let mut reader = HelloReader::new(4096);
    assert_eq!(
        fails(reader.on_read(ReadEvent::Data(b"SSH-"))),
        (
            ErrorKind::InvalidData,
            "invalid TLS ClientHello: neither TLS nor supported plain HTTP".to_string()
        )
    );
    let mut reader = HelloReader::new(4096);
    assert_eq!(
        fails(reader.on_read(ReadEvent::TimedOut)),
        (ErrorKind::TimedOut, "ClientHello timeout".to_string())
    );
    assert_eq!(
        fails(HelloReader::new(0).next()).0,
        ErrorKind::InvalidData
    );
}
