use exact_sni_relay::address::SocketAddr;
use exact_sni_relay::error::ErrorKind;
use exact_sni_relay::loadgen::{
    argument, bounded_usize, is_expected_response, loopback_address, tells_success, BODY, HOST,
    MAX_CONCURRENCY, MAX_DURATION_SECONDS, REQUEST, RESPONSE,
};

#[test]
fn deterministic_response_has_declared_length() {
    assert_eq!(BODY.len(), 34);
    assert!(RESPONSE.ends_with(BODY));
}

#[test]
fn safety_bounds_are_finite() {
    assert_eq!(MAX_CONCURRENCY, 4096);
    assert_eq!(MAX_DURATION_SECONDS, 3600);
}

#[test]
fn expected_response_is_recognised() {
    assert!(is_expected_response(RESPONSE.as_bytes()));
    assert!(!is_expected_response(BODY.as_bytes()));
    assert!(!is_expected_response(b"HTTP/1.1 200 OK\r\n\r\nother"));
    assert!(!is_expected_response(b""));
    assert!(tells_success(b"HTTP/1.1 200 OK"));
    assert!(!tells_success(b"HTTP/1.1 200 O"));
    assert!(!tells_success(b"HTTP/1.1 404 Not Found"));
    assert!(REQUEST.contains(HOST));
}

#[test]
fn load_arguments_are_checked() {
    let arguments = vec![
        "load".to_string(),
        "--duration".to_string(),
        "30".to_string(),
        "--cert".to_string(),
    ];
    assert_eq!(argument(&arguments, "--duration").unwrap(), "30");
    let missing_value = argument(&arguments, "--cert").unwrap_err();
    assert_eq!(missing_value.kind, ErrorKind::InvalidInput);
    assert_eq!(missing_value.message, "missing value for --cert");
    assert_eq!(
        argument(&arguments, "--address").unwrap_err().message,
        "missing --address"
    );
    assert_eq!(bounded_usize("--duration", 3600, MAX_DURATION_SECONDS).unwrap(), 3600);
    for value in [0, 3601] {
        assert_eq!(
            bounded_usize("--duration", value, MAX_DURATION_SECONDS)
                .unwrap_err()
                .message,
            "--duration must be between 1 and 3600"
        );
    }
    let local = SocketAddr::V4 {
        ip: 0x7f00_0001,
        port: 1,
    };
    let foreign = SocketAddr::V4 {
        ip: 0xc000_0201,
        port: 1,
    };
    assert_eq!(loopback_address("--address", local).unwrap(), local);
    assert_eq!(
        loopback_address("--address", foreign).unwrap_err().message,
        "--address must be a literal loopback address"
    );
}
