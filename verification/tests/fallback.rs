use exact_sni_relay::address::SocketAddr;
use exact_sni_relay::error::{is_benign_kind, is_benign_relay_error, ErrorKind};
use exact_sni_relay::fallback::{
    check_addresses, ensure_loopback, metrics_response, parse_max_connections,
    parse_runtime_workers, parse_timeout_ms, Fallback, FallbackAction, FallbackCounter,
    FallbackEvent, FallbackState,
};
use exact_sni_relay::sni_policy::{parse_allowed_sni, SniPolicy};

#[test]
fn runtime_worker_override_is_bounded_and_buildable() {
    assert_eq!(parse_runtime_workers("1").unwrap(), 1);
    assert_eq!(parse_runtime_workers("4").unwrap(), 4);
    assert_eq!(parse_runtime_workers("256").unwrap(), 256);
    assert!(parse_runtime_workers("0").is_err());
    assert!(parse_runtime_workers("257").is_err());
    assert!(parse_runtime_workers("workers").is_err());
    let runtime = tokio::runtime::Builder::new_multi_thread()
        .enable_all()
        .worker_threads(parse_runtime_workers("2").unwrap())
        .build()
        .expect("two-worker runtime must build");
    assert_eq!(runtime.block_on(async { 42 }), 42);
}

#[test]
fn overload_and_timeout_limits_are_bounded() {
    assert_eq!(parse_max_connections("1").unwrap(), 1);
    assert_eq!(parse_max_connections("4096").unwrap(), 4096);
    assert_eq!(parse_max_connections("1000000").unwrap(), 1_000_000);
    assert!(parse_max_connections("0").is_err());
    assert!(parse_max_connections("1000001").is_err());
    assert!(parse_max_connections("many").is_err());

    assert_eq!(parse_timeout_ms("1").unwrap(), 1);
    assert_eq!(parse_timeout_ms("5000").unwrap(), 5000);
    assert_eq!(parse_timeout_ms("300000").unwrap(), 300_000);
    assert!(parse_timeout_ms("0").is_err());
    assert!(parse_timeout_ms("300001").is_err());
    assert!(parse_timeout_ms("later").is_err());
}

#[test]
fn limits_say_what_is_wrong() {
    assert_eq!(
        parse_max_connections("many").unwrap_err(),
        "max-connections must be an integer"
    );
    assert_eq!(
        parse_max_connections("0").unwrap_err(),
        "max-connections must be between 1 and 1000000"
    );
    assert_eq!(
        parse_timeout_ms("").unwrap_err(),
        "timeout must be an integer number of milliseconds"
    );
    assert_eq!(
        parse_timeout_ms("18446744073709551616").unwrap_err(),
        "timeout must be an integer number of milliseconds"
    );
    assert_eq!(
        parse_timeout_ms("18446744073709551615").unwrap_err(),
        "timeout must be between 1 and 300000 milliseconds"
    );
    assert_eq!(
        parse_runtime_workers("-1").unwrap_err(),
        "runtime-workers must be an integer"
    );
    assert_eq!(
        parse_runtime_workers("257").unwrap_err(),
        "runtime-workers must be between 1 and 256"
    );
}

#[test]
fn expected_peer_disconnects_are_not_backend_failures() {
    for kind in [
        std::io::ErrorKind::BrokenPipe,
        std::io::ErrorKind::ConnectionAborted,
        std::io::ErrorKind::ConnectionReset,
        std::io::ErrorKind::NotConnected,
        std::io::ErrorKind::UnexpectedEof,
    ] {
        assert!(is_benign_relay_error(&std::io::Error::from(kind)));
    }
    assert!(!is_benign_relay_error(&std::io::Error::from(
        std::io::ErrorKind::TimedOut
    )));
    assert!(!is_benign_relay_error(&std::io::Error::from(
        std::io::ErrorKind::PermissionDenied
    )));
}

#[test]
fn only_disconnects_are_benign() {
    for kind in [
        ErrorKind::InvalidData,
        ErrorKind::InvalidInput,
        ErrorKind::TimedOut,
        ErrorKind::WouldBlock,
        ErrorKind::WriteZero,
        ErrorKind::Other,
    ] {
        assert!(!is_benign_kind(kind));
    }
    assert!(is_benign_kind(ErrorKind::NotConnected));
}

#[test]
fn sni_policy_is_exact_by_default_and_normalizes_configuration() {
    assert_eq!(parse_allowed_sni("Example.COM.").unwrap(), "example.com");
    for invalid in ["", ".", "a..b", "-bad.test", "bad-.test", "bad_name"] {
        assert!(parse_allowed_sni(invalid).is_err(), "accepted {invalid:?}");
    }
    let policy = SniPolicy::new(vec!["example.com".to_string()], false);
    assert!(policy.allows(Some("EXAMPLE.COM")));
    assert!(!policy.allows(Some("www.example.com")));
    assert!(!policy.allows(Some("notexample.com")));
    assert!(!policy.allows(None));
}

#[test]
fn subdomain_policy_requires_a_dns_label_boundary() {
    let policy = SniPolicy::new(vec!["example.com".to_string()], true);
    assert!(policy.allows(Some("example.com")));
    assert!(policy.allows(Some("a.example.com")));
    assert!(policy.allows(Some("A.B.Example.Com")));
    assert!(!policy.allows(Some("notexample.com")));
    assert!(!policy.allows(Some("example.com.attacker.test")));
}

#[test]
fn subdomains_have_no_empty_labels() {
    let policy = SniPolicy::new(vec!["example.com".to_string()], true);
    let long = format!("{}.example.com", "x".repeat(64));
    for name in [
        "www.example.com",
        "a-1.B.example.COM",
        "-a.example.com",
        "a-.example.com",
        "a_b.example.com",
        "a b.example.com",
        "\u{e4}.example.com",
        long.as_str(),
    ] {
        assert!(policy.allows(Some(name)), "{name}");
    }
    for name in [
        ".example.com",
        "a..example.com",
        ".a.example.com",
        "..example.com",
        "a.example.com.",
    ] {
        assert!(!policy.allows(Some(name)), "{name}");
    }
}

#[test]
fn allowed_names_say_what_is_wrong() {
    for value in ["", "b\u{fc}cher.test"] {
        assert_eq!(
            parse_allowed_sni(value).unwrap_err(),
            "allowed SNI must be a non-empty ASCII hostname"
        );
    }
    assert_eq!(
        parse_allowed_sni(&"a".repeat(254)).unwrap_err(),
        "allowed SNI must be a non-empty ASCII hostname"
    );
    assert_eq!(
        parse_allowed_sni("a..b").unwrap_err(),
        "allowed SNI is not a valid DNS hostname"
    );
}

#[test]
fn policy_holds_its_names_once_and_in_order() {
    let names = ["b.test", "a.test", "b.test", "a", "ab"];
    let policy = SniPolicy::new(names.map(str::to_string).to_vec(), false);
    for name in names {
        assert!(policy.allows(Some(name)));
    }
    assert!(!policy.allows(Some("c.test")));
    let shown = format!("{policy:?}");
    let sorted = SniPolicy::new(
        ["a", "a.test", "ab", "b.test"].map(str::to_string).to_vec(),
        false,
    );
    assert_eq!(shown, format!("{sorted:?}"));
    assert!(!SniPolicy::new(Vec::new(), true).allows(Some("a")));
}

#[test]
fn addresses_must_be_local() {
    let local = SocketAddr::V4 {
        ip: 0x7f01_0203,
        port: 0,
    };
    let foreign = SocketAddr::V4 {
        ip: 0,
        port: 80,
    };
    assert!(ensure_loopback("listen", local).is_ok());
    assert!(check_addresses(local, local, local).is_ok());
    for (result, name) in [
        (check_addresses(foreign, foreign, local), "listen"),
        (check_addresses(local, foreign, foreign), "backend"),
        (check_addresses(local, local, foreign), "metrics"),
    ] {
        let error = result.unwrap_err();
        assert_eq!(error.kind, ErrorKind::InvalidInput);
        assert_eq!(
            error.message,
            format!("{name} must be a literal loopback address")
        );
    }
}

fn step(fallback: &mut Fallback, state: &mut FallbackState, event: FallbackEvent) -> FallbackAction {
    let policy = SniPolicy::new(vec!["allowed.test".to_string()], false);
    fallback.on_event(state, event, &policy)
}

#[test]
fn allowed_connection_reaches_the_backend() {
    let mut fallback = Fallback::new(1).ok().unwrap();
    assert!(fallback.on_accept());
    assert_eq!(fallback.active(), 1);
    assert!(!fallback.on_accept());
    assert_eq!(fallback.counter(FallbackCounter::Accepted), 2);
    assert_eq!(fallback.counter(FallbackCounter::AdmissionRejected), 1);

    let mut state = FallbackState::AwaitingHello;
    let allowed = FallbackEvent::Hello(Some("Allowed.test"));
    assert_eq!(step(&mut fallback, &mut state, allowed), FallbackAction::Handshake);
    assert_eq!(
        step(&mut fallback, &mut state, FallbackEvent::Done),
        FallbackAction::Connect
    );
    assert_eq!(
        step(&mut fallback, &mut state, FallbackEvent::Done),
        FallbackAction::Relay
    );
    assert_eq!(
        step(&mut fallback, &mut state, FallbackEvent::Done),
        FallbackAction::Close
    );
    assert_eq!(state, FallbackState::Over);
    fallback.on_closed();
    assert_eq!(fallback.active(), 0);
    assert!(fallback.on_accept());
    assert_eq!(fallback.counter(FallbackCounter::BackendErrors), 0);
}

#[test]
fn every_failure_is_counted_where_it_belongs() {
    let reset = FallbackEvent::Failed(ErrorKind::ConnectionReset);
    let fault = FallbackEvent::Failed(ErrorKind::Other);
    let cases = [
        (
            FallbackState::AwaitingHello,
            FallbackEvent::Hello(Some("foreign.test")),
            Some(FallbackCounter::SniRejected),
        ),
        (
            FallbackState::AwaitingHello,
            FallbackEvent::Hello(None),
            Some(FallbackCounter::SniRejected),
        ),
        (
            FallbackState::AwaitingHello,
            reset,
            Some(FallbackCounter::HandshakeErrors),
        ),
        (
            FallbackState::AwaitingHello,
            FallbackEvent::TimedOut,
            Some(FallbackCounter::HandshakeTimeouts),
        ),
        (
            FallbackState::Handshaking,
            fault,
            Some(FallbackCounter::HandshakeErrors),
        ),
        (
            FallbackState::Handshaking,
            FallbackEvent::TimedOut,
            Some(FallbackCounter::HandshakeTimeouts),
        ),
        (
            FallbackState::Connecting,
            reset,
            Some(FallbackCounter::BackendErrors),
        ),
        (
            FallbackState::Connecting,
            FallbackEvent::TimedOut,
            Some(FallbackCounter::BackendConnectTimeouts),
        ),
        (
            FallbackState::Relaying,
            fault,
            Some(FallbackCounter::BackendErrors),
        ),
        (FallbackState::Relaying, reset, None),
    ];
    let counters = [
        FallbackCounter::SniRejected,
        FallbackCounter::HandshakeErrors,
        FallbackCounter::HandshakeTimeouts,
        FallbackCounter::BackendErrors,
        FallbackCounter::BackendConnectTimeouts,
    ];
    for (start, event, counted) in cases {
        let mut fallback = Fallback::new(1).ok().unwrap();
        let mut state = start;
        assert_eq!(step(&mut fallback, &mut state, event), FallbackAction::Close);
        assert_eq!(state, FallbackState::Over);
        for counter in counters {
            assert_eq!(
                fallback.counter(counter),
                u64::from(counted == Some(counter)),
                "{start:?} {event:?} {counter:?}"
            );
        }
    }
}

#[test]
fn stopping_is_counted_and_metrics_are_rendered() {
    let mut fallback = Fallback::new(3).ok().unwrap();
    fallback.on_stop();
    fallback.on_drain_timed_out(2);
    assert_eq!(fallback.counter(FallbackCounter::GracefulShutdowns), 1);
    assert_eq!(
        fallback.counter(FallbackCounter::ForcedShutdownConnections),
        2
    );
    let text = fallback.render().unwrap();
    let shown = String::from_utf8(text.clone()).unwrap();
    for name in [
        "sni_fallback_connections_accepted_total",
        "sni_fallback_admission_rejected_total",
        "sni_fallback_handshake_errors_total",
        "sni_fallback_handshake_timeouts_total",
        "sni_fallback_sni_rejected_total",
        "sni_fallback_backend_errors_total",
        "sni_fallback_backend_connect_timeouts_total",
        "sni_fallback_certificate_reload_success_total",
        "sni_fallback_certificate_reload_failure_total",
    ] {
        assert!(shown.contains(&format!("\n{name} 0\n")), "{name}");
    }
    assert!(shown.contains("\nsni_fallback_graceful_shutdown_total 1\n"));
    assert!(shown.contains("\nsni_fallback_forced_shutdown_connections_total 2\n"));
    assert!(shown.contains("\nsni_fallback_connections_active 0\n"));
    let length = text.len();
    let response = metrics_response(text);
    assert_eq!(
        response.header,
        format!(
            "HTTP/1.1 200 OK\r\nContent-Type: text/plain; version=0.0.4\r\nContent-Length: {length}\r\nConnection: close\r\n\r\n"
        )
    );
    assert_eq!(response.body.len(), length);
}
