use std::sync::Arc;

use arc_swap::ArcSwap;
use exact_sni_relay::certificate::{
    check_certificates, check_private_key, parse_certificates, parse_private_key, server_config,
    KeyKind, PrivateKey,
};
use exact_sni_relay::error::{ErrorKind, RelayError};
use exact_sni_relay::fallback::{
    CertificateReload, Fallback, FallbackCounter, FallbackServiceAction, FallbackServiceEvent,
};
use exact_sni_relay::loadgen::{check_roots, parse_roots};
use exact_sni_relay::service::ServicePhase;
use tokio_rustls::rustls::ServerConfig;

// Two self-signed certificates with their keys, made for these tests.

const FIRST_CERTIFICATE: [u8; 328] = [
    0x30, 0x82, 0x01, 0x44, 0x30, 0x81, 0xf7, 0xa0, 0x03, 0x02, 0x01, 0x02, 0x02, 0x14, 0x5b, 0x2b,
    0xf0, 0x80, 0x2a, 0xa8, 0xee, 0x5f, 0x9a, 0xdc, 0x2e, 0x44, 0xed, 0x17, 0xad, 0xc3, 0xb3, 0x92,
    0x8d, 0x5f, 0x30, 0x05, 0x06, 0x03, 0x2b, 0x65, 0x70, 0x30, 0x18, 0x31, 0x16, 0x30, 0x14, 0x06,
    0x03, 0x55, 0x04, 0x03, 0x0c, 0x0d, 0x66, 0x69, 0x72, 0x73, 0x74, 0x2e, 0x69, 0x6e, 0x76, 0x61,
    0x6c, 0x69, 0x64, 0x30, 0x1e, 0x17, 0x0d, 0x32, 0x36, 0x31, 0x31, 0x31, 0x35, 0x31, 0x34, 0x33,
    0x31, 0x35, 0x39, 0x5a, 0x17, 0x0d, 0x33, 0x36, 0x31, 0x31, 0x31, 0x32, 0x31, 0x34, 0x33, 0x31,
    0x35, 0x39, 0x5a, 0x30, 0x18, 0x31, 0x16, 0x30, 0x14, 0x06, 0x03, 0x55, 0x04, 0x03, 0x0c, 0x0d,
    0x66, 0x69, 0x72, 0x73, 0x74, 0x2e, 0x69, 0x6e, 0x76, 0x61, 0x6c, 0x69, 0x64, 0x30, 0x2a, 0x30,
    0x05, 0x06, 0x03, 0x2b, 0x65, 0x70, 0x03, 0x21, 0x00, 0x42, 0xf1, 0x9d, 0x27, 0x97, 0xf8, 0xc0,
    0x9c, 0x63, 0xd0, 0x7c, 0xdb, 0x10, 0x3f, 0x08, 0x5d, 0x21, 0xfd, 0x9e, 0x5c, 0xa4, 0x21, 0x35,
    0xfb, 0x0a, 0xca, 0x65, 0x99, 0xc2, 0x89, 0xc5, 0x54, 0xa3, 0x53, 0x30, 0x51, 0x30, 0x1d, 0x06,
    0x03, 0x55, 0x1d, 0x0e, 0x04, 0x16, 0x04, 0x14, 0x1a, 0x5b, 0xa8, 0x80, 0x8e, 0xb1, 0xea, 0xaf,
    0xb1, 0x92, 0x81, 0x5b, 0x1b, 0x21, 0x93, 0x3c, 0xd1, 0x0a, 0x52, 0x4f, 0x30, 0x1f, 0x06, 0x03,
    0x55, 0x1d, 0x23, 0x04, 0x18, 0x30, 0x16, 0x80, 0x14, 0x1a, 0x5b, 0xa8, 0x80, 0x8e, 0xb1, 0xea,
    0xaf, 0xb1, 0x92, 0x81, 0x5b, 0x1b, 0x21, 0x93, 0x3c, 0xd1, 0x0a, 0x52, 0x4f, 0x30, 0x0f, 0x06,
    0x03, 0x55, 0x1d, 0x13, 0x01, 0x01, 0xff, 0x04, 0x05, 0x30, 0x03, 0x01, 0x01, 0xff, 0x30, 0x05,
    0x06, 0x03, 0x2b, 0x65, 0x70, 0x03, 0x41, 0x00, 0x86, 0xeb, 0xb7, 0x3b, 0x4c, 0x91, 0x97, 0x05,
    0x61, 0x05, 0xba, 0x08, 0x4b, 0xae, 0xac, 0x5d, 0xf7, 0x59, 0x17, 0x38, 0xfc, 0xf9, 0x46, 0x96,
    0x48, 0x95, 0x39, 0x8a, 0x98, 0x01, 0x91, 0xf9, 0x3b, 0x27, 0xb5, 0x5c, 0xa9, 0xa3, 0x57, 0xe3,
    0x38, 0xff, 0x2e, 0xb4, 0x6b, 0xf2, 0xf3, 0xe6, 0x5f, 0x2b, 0x48, 0xa6, 0x00, 0xe3, 0x25, 0xcf,
    0x00, 0x24, 0xf2, 0xbb, 0xc5, 0xd5, 0xf2, 0x03,
];

const FIRST_KEY: [u8; 48] = [
    0x30, 0x2e, 0x02, 0x01, 0x00, 0x30, 0x05, 0x06, 0x03, 0x2b, 0x65, 0x70, 0x04, 0x22, 0x04, 0x20,
    0xe3, 0x14, 0x15, 0xe7, 0xdd, 0x2c, 0x61, 0xec, 0x57, 0xe8, 0x8b, 0x48, 0xce, 0xcc, 0x98, 0x83,
    0xe8, 0x60, 0x7b, 0x0a, 0x35, 0x54, 0x99, 0x54, 0x21, 0x49, 0xcb, 0x1e, 0x92, 0x6e, 0x25, 0x8c,
];

const SECOND_CERTIFICATE: [u8; 330] = [
    0x30, 0x82, 0x01, 0x46, 0x30, 0x81, 0xf9, 0xa0, 0x03, 0x02, 0x01, 0x02, 0x02, 0x14, 0x61, 0x45,
    0xa1, 0xe9, 0xd9, 0x2f, 0xe8, 0xc0, 0x0f, 0x9e, 0x35, 0x53, 0x94, 0x27, 0x8b, 0x43, 0xf3, 0x56,
    0xbe, 0xff, 0x30, 0x05, 0x06, 0x03, 0x2b, 0x65, 0x70, 0x30, 0x19, 0x31, 0x17, 0x30, 0x15, 0x06,
    0x03, 0x55, 0x04, 0x03, 0x0c, 0x0e, 0x73, 0x65, 0x63, 0x6f, 0x6e, 0x64, 0x2e, 0x69, 0x6e, 0x76,
    0x61, 0x6c, 0x69, 0x64, 0x30, 0x1e, 0x17, 0x0d, 0x32, 0x36, 0x31, 0x31, 0x31, 0x35, 0x31, 0x34,
    0x33, 0x31, 0x35, 0x39, 0x5a, 0x17, 0x0d, 0x33, 0x36, 0x31, 0x31, 0x31, 0x32, 0x31, 0x34, 0x33,
    0x31, 0x35, 0x39, 0x5a, 0x30, 0x19, 0x31, 0x17, 0x30, 0x15, 0x06, 0x03, 0x55, 0x04, 0x03, 0x0c,
    0x0e, 0x73, 0x65, 0x63, 0x6f, 0x6e, 0x64, 0x2e, 0x69, 0x6e, 0x76, 0x61, 0x6c, 0x69, 0x64, 0x30,
    0x2a, 0x30, 0x05, 0x06, 0x03, 0x2b, 0x65, 0x70, 0x03, 0x21, 0x00, 0xd5, 0xbf, 0xd8, 0xb8, 0xa7,
    0x41, 0xec, 0x81, 0x3e, 0x4a, 0x76, 0xf8, 0x5b, 0xe3, 0x3b, 0x5f, 0xf4, 0x70, 0x61, 0x0c, 0xfd,
    0xf8, 0x6c, 0x55, 0xa1, 0x98, 0x10, 0xf5, 0xe3, 0x50, 0xf4, 0xf2, 0xa3, 0x53, 0x30, 0x51, 0x30,
    0x1d, 0x06, 0x03, 0x55, 0x1d, 0x0e, 0x04, 0x16, 0x04, 0x14, 0x3a, 0xaa, 0x66, 0xce, 0x3e, 0x21,
    0xe8, 0x42, 0x04, 0x6e, 0xdc, 0xa9, 0x6b, 0x41, 0x65, 0xd2, 0x1f, 0x83, 0x9a, 0x20, 0x30, 0x1f,
    0x06, 0x03, 0x55, 0x1d, 0x23, 0x04, 0x18, 0x30, 0x16, 0x80, 0x14, 0x3a, 0xaa, 0x66, 0xce, 0x3e,
    0x21, 0xe8, 0x42, 0x04, 0x6e, 0xdc, 0xa9, 0x6b, 0x41, 0x65, 0xd2, 0x1f, 0x83, 0x9a, 0x20, 0x30,
    0x0f, 0x06, 0x03, 0x55, 0x1d, 0x13, 0x01, 0x01, 0xff, 0x04, 0x05, 0x30, 0x03, 0x01, 0x01, 0xff,
    0x30, 0x05, 0x06, 0x03, 0x2b, 0x65, 0x70, 0x03, 0x41, 0x00, 0xd9, 0x13, 0x86, 0x28, 0xb0, 0x87,
    0x15, 0x56, 0x02, 0x5a, 0x7b, 0xf0, 0xfb, 0x0e, 0x35, 0xe0, 0xde, 0xfc, 0x36, 0x22, 0xfd, 0x9b,
    0x5e, 0xc4, 0xe7, 0xed, 0xc0, 0xac, 0xa6, 0xf4, 0x63, 0x42, 0x59, 0xb2, 0x81, 0x1e, 0x15, 0x65,
    0x45, 0xc0, 0x0f, 0x5a, 0xaf, 0xb3, 0x7d, 0xc0, 0x81, 0x18, 0x1a, 0x76, 0x88, 0xc5, 0x8b, 0xa0,
    0x6e, 0x3f, 0xf8, 0x09, 0xb8, 0x7c, 0x4f, 0x96, 0x50, 0x0f,
];

const SECOND_KEY: [u8; 48] = [
    0x30, 0x2e, 0x02, 0x01, 0x00, 0x30, 0x05, 0x06, 0x03, 0x2b, 0x65, 0x70, 0x04, 0x22, 0x04, 0x20,
    0xe3, 0xd0, 0xac, 0x25, 0xde, 0x25, 0x05, 0x03, 0xad, 0x65, 0x3d, 0x0d, 0x93, 0xeb, 0x0d, 0xaa,
    0x74, 0x1a, 0x46, 0xe4, 0x3c, 0xd9, 0x74, 0xe9, 0x6a, 0x19, 0x41, 0xff, 0xe6, 0xa4, 0x77, 0xbe,
];

const DIGITS: &[u8; 64] = b"ABCDEFGHIJKLMNOPQRSTUVWXYZabcdefghijklmnopqrstuvwxyz0123456789+/";

fn pem(label: &str, der: &[u8]) -> String {
    let mut text = format!("-----BEGIN {label}-----\n");
    for group in der.chunks(3) {
        let mut bits = 0u32;
        for place in 0..3 {
            bits = bits << 8 | u32::from(*group.get(place).unwrap_or(&0));
        }
        for place in 0..4 {
            if place <= group.len() {
                text.push(DIGITS[(bits >> (18 - 6 * place)) as usize & 63] as char);
            } else {
                text.push('=');
            }
        }
        text.push('\n');
    }
    text.push_str(&format!("-----END {label}-----\n"));
    text
}

fn load(certificate: &str, key: &str) -> Result<ServerConfig, RelayError> {
    let certificates = parse_certificates(certificate.as_bytes())?;
    let key = parse_private_key(key.as_bytes())?;
    server_config(certificates, key)
}

fn reload(
    current: &ArcSwap<ServerConfig>,
    certificate: &str,
    key: &str,
    fallback: &mut Fallback,
) -> Result<(), RelayError> {
    match fallback.on_reload(load(certificate, key)) {
        CertificateReload::Store(config) => {
            current.store(Arc::new(config));
            Ok(())
        }
        CertificateReload::Keep(error) => Err(error),
    }
}

#[test]
fn invalid_reload_is_atomic_and_counted() {
    let certificate = pem("CERTIFICATE", &FIRST_CERTIFICATE);
    let key = pem("PRIVATE KEY", &FIRST_KEY);
    let initial = Arc::new(load(&certificate, &key).ok().unwrap());
    let current = ArcSwap::from(Arc::clone(&initial));
    let mut fallback = Fallback::new(1).ok().unwrap();

    assert!(reload(&current, &certificate, "not a private key", &mut fallback).is_err());
    assert!(Arc::ptr_eq(&initial, &current.load_full()));
    assert_eq!(fallback.counter(FallbackCounter::ReloadSuccess), 0);
    assert_eq!(fallback.counter(FallbackCounter::ReloadFailure), 1);
}

#[test]
fn valid_reload_swaps_only_after_validation() {
    let first = load(
        &pem("CERTIFICATE", &FIRST_CERTIFICATE),
        &pem("PRIVATE KEY", &FIRST_KEY),
    );
    let initial = Arc::new(first.ok().unwrap());
    let current = ArcSwap::from(Arc::clone(&initial));
    let mut fallback = Fallback::new(1).ok().unwrap();

    reload(
        &current,
        &pem("CERTIFICATE", &SECOND_CERTIFICATE),
        &pem("PRIVATE KEY", &SECOND_KEY),
        &mut fallback,
    )
    .unwrap();
    assert!(!Arc::ptr_eq(&initial, &current.load_full()));
    assert_eq!(fallback.counter(FallbackCounter::ReloadSuccess), 1);
    assert_eq!(fallback.counter(FallbackCounter::ReloadFailure), 0);
}

#[test]
fn mismatched_key_is_refused() {
    let mixed = load(
        &pem("CERTIFICATE", &FIRST_CERTIFICATE),
        &pem("PRIVATE KEY", &SECOND_KEY),
    );
    let error = mixed.err().unwrap();
    assert_eq!(error.kind, ErrorKind::InvalidData);
    assert!(!error.message.is_empty());
}

#[test]
fn pem_text_is_read_into_der() {
    let both = format!(
        "{}{}{}",
        pem("CERTIFICATE", &[1, 2, 3]),
        pem("PRIVATE KEY", &[4, 5]),
        pem("CERTIFICATE", &[6])
    );
    assert_eq!(
        parse_certificates(both.as_bytes()).unwrap(),
        vec![vec![1, 2, 3], vec![6]]
    );
    let key = parse_private_key(both.as_bytes()).ok().unwrap();
    assert_eq!(key.kind, KeyKind::Pkcs8);
    assert_eq!(key.der, vec![4, 5]);
    for (label, kind) in [
        ("RSA PRIVATE KEY", KeyKind::Pkcs1),
        ("EC PRIVATE KEY", KeyKind::Sec1),
    ] {
        let key = parse_private_key(pem(label, &[9]).as_bytes()).ok().unwrap();
        assert_eq!(key.kind, kind);
        assert_eq!(key.der, vec![9]);
    }
}

#[test]
fn missing_certificates_and_keys_are_named() {
    let none = parse_certificates(pem("PRIVATE KEY", &[4]).as_bytes()).unwrap_err();
    assert_eq!(none.kind, ErrorKind::InvalidData);
    assert_eq!(none.message, "certificate file contains no certificates");
    let none = parse_private_key(pem("CERTIFICATE", &[4]).as_bytes()).err().unwrap();
    assert_eq!(none.kind, ErrorKind::InvalidData);
    assert_eq!(none.message, "key file contains no key");
    let broken = "-----BEGIN CERTIFICATE-----\n????\n-----END CERTIFICATE-----\n";
    assert_eq!(
        parse_certificates(broken.as_bytes()).unwrap_err().kind,
        ErrorKind::InvalidData
    );
    let fault = || std::io::Error::from(std::io::ErrorKind::InvalidData);
    assert!(!check_certificates(Err(fault())).unwrap_err().message.is_empty());
    assert!(!check_private_key(Err(fault())).err().unwrap().message.is_empty());
    assert_eq!(check_certificates(Ok(vec![vec![1]])).unwrap(), vec![vec![1]]);
    let key = PrivateKey {
        kind: KeyKind::Sec1,
        der: vec![8],
    };
    assert_eq!(check_private_key(Ok(Some(key))).ok().unwrap().der, vec![8]);
}

#[test]
fn service_swaps_certificates_drains_and_stops() {
    let mut fallback = Fallback::new(1).ok().unwrap();
    let mut phase = ServicePhase::Serving;
    let accepted = fallback.on_service_event(&mut phase, 7, FallbackServiceEvent::Accepted);
    assert!(matches!(accepted, FallbackServiceAction::Serve));
    let accepted = fallback.on_service_event(&mut phase, 7, FallbackServiceEvent::Accepted);
    assert!(matches!(accepted, FallbackServiceAction::DropConnection));
    assert_eq!(fallback.counter(FallbackCounter::AdmissionRejected), 1);

    let loaded = load("", "");
    let refused = fallback.on_service_event(&mut phase, 7, FallbackServiceEvent::Hangup(loaded));
    match refused {
        FallbackServiceAction::LogRefusal(error) => {
            assert_eq!(error.message, "certificate file contains no certificates");
        }
        _ => panic!("an empty file was taken"),
    }
    let loaded = load(
        &pem("CERTIFICATE", &SECOND_CERTIFICATE),
        &pem("PRIVATE KEY", &SECOND_KEY),
    );
    let taken = fallback.on_service_event(&mut phase, 7, FallbackServiceEvent::Hangup(loaded));
    assert!(matches!(taken, FallbackServiceAction::Store(_)));
    assert_eq!(fallback.counter(FallbackCounter::ReloadSuccess), 1);
    assert_eq!(fallback.counter(FallbackCounter::ReloadFailure), 1);
    let failed = fallback.on_service_event(&mut phase, 7, FallbackServiceEvent::TaskEnded(false));
    assert!(matches!(failed, FallbackServiceAction::LogTask));
    let ended = fallback.on_service_event(&mut phase, 7, FallbackServiceEvent::TaskEnded(true));
    assert!(matches!(ended, FallbackServiceAction::Continue));

    let stop = fallback.on_service_event(&mut phase, 7, FallbackServiceEvent::Stop);
    assert!(matches!(stop, FallbackServiceAction::Drain(7)));
    assert_eq!(phase, ServicePhase::Draining);
    let failed = fallback.on_service_event(&mut phase, 7, FallbackServiceEvent::TaskEnded(false));
    assert!(matches!(failed, FallbackServiceAction::Continue));
    let late = fallback.on_service_event(&mut phase, 7, FallbackServiceEvent::DrainTimedOut(3));
    assert!(matches!(late, FallbackServiceAction::AbortAll));
    assert_eq!(phase, ServicePhase::Stopped);
    assert_eq!(fallback.counter(FallbackCounter::GracefulShutdowns), 1);
    assert_eq!(
        fallback.counter(FallbackCounter::ForcedShutdownConnections),
        3
    );

    let mut phase = ServicePhase::Draining;
    let drained = fallback.on_service_event(&mut phase, 7, FallbackServiceEvent::Drained);
    assert!(matches!(drained, FallbackServiceAction::Finish));
    let mut phase = ServicePhase::Serving;
    let failed = fallback.on_service_event(&mut phase, 7, FallbackServiceEvent::AcceptFailed);
    assert!(matches!(failed, FallbackServiceAction::FailAsEvent));
    assert_eq!(phase, ServicePhase::Stopped);
}

#[test]
fn load_generator_needs_a_root() {
    let text = pem("CERTIFICATE", &FIRST_CERTIFICATE) + &pem("CERTIFICATE", &SECOND_CERTIFICATE);
    assert_eq!(
        parse_roots(text.as_bytes()).unwrap(),
        [FIRST_CERTIFICATE.to_vec(), SECOND_CERTIFICATE.to_vec()]
    );
    let error = parse_roots(pem("PRIVATE KEY", &FIRST_KEY).as_bytes())
        .err()
        .unwrap();
    assert_eq!(error.kind, ErrorKind::InvalidInput);
    assert_eq!(error.message, "certificate file contains no certificates");
    let unread = std::io::Error::new(std::io::ErrorKind::InvalidData, "broken");
    let error = check_roots(Err(unread)).err().unwrap();
    assert_eq!(error.kind, ErrorKind::Other);
    assert_eq!(error.message, "broken");
}
