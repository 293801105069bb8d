use exact_sni_relay::address::{IpAddr, SocketAddr};
use exact_sni_relay::admission::AdmissionControl;
use exact_sni_relay::config::{
    Admission, Config, ConfigDocument, ConfigError, Fallbacks, Limits, Route, SocketMarks,
};
use exact_sni_relay::error::ErrorKind;
use exact_sni_relay::metrics::{CounterId, GaugeId, Metrics, UpstreamClass};
use exact_sni_relay::proxy::{Proxy, ProxyAction, ProxyEvent};
use exact_sni_relay::relay::{DirectionSide, Relay, ReloadAction, ReloadRefusal, Session};
use exact_sni_relay::routing::{classify_target, ClassifiedTarget};
use exact_sni_relay::service::{
    listener_backlog, parse_max_connections, Service, ServiceAction, ServiceEvent, ServicePhase,
};
use exact_sni_relay::tls::Classification;

fn local(port: u16) -> SocketAddr {
    SocketAddr::V4 {
        ip: 0x7f00_0001,
        port,
    }
}

const LIMITS: Admission = Admission {
    pre_parse_max_connections: 2,
    routed_max_connections: 1,
    routed_max_connections_per_source: 1,
    fallback_max_connections: 1,
};

const MARKS: SocketMarks = SocketMarks {
    upload: 11,
    download: 22,
};

fn document() -> ConfigDocument {
    ConfigDocument {
        bind: local(18443),
        allow_redirect_ingress_bind: false,
        health_bind: local(19090),
        routes: vec![
            ("plain.test".to_string(), Route::Plain(local(1001))),
            (
                "Marked.Test.".to_string(),
                Route::Marked {
                    upstream: local(1002),
                    socket_marks: MARKS,
                },
            ),
        ],
        fallbacks: Fallbacks {
            unknown_sni: local(2001),
            no_sni: local(2002),
            plain_http: local(2003),
        },
        admission: LIMITS,
        limits: Limits::default(),
    }
}

fn config() -> Config {
    Config::validate_and_normalize(document()).ok().unwrap()
}

fn relay() -> Relay {
    Relay::new(
        AdmissionControl::new(LIMITS, 4).ok().unwrap(),
        Metrics::new().unwrap(),
    )
}

fn asks(name: &str) -> Classification {
    Classification::Tls {
        sni: Some(name.to_string()),
    }
}

const SOURCE: IpAddr = IpAddr::V4(0xc000_0201);
const OTHER: IpAddr = IpAddr::V4(0xc000_0202);

fn gauges(relay: &Relay) -> [i64; 5] {
    let metrics = relay.metrics();
    [
        metrics.gauge(GaugeId::Active),
        metrics.gauge(GaugeId::ActivePreParse),
        metrics.gauge(GaugeId::ActiveRouted),
        metrics.gauge(GaugeId::ActiveRoutedEstablished),
        metrics.gauge(GaugeId::ActiveFallback),
    ]
}

#[test]
fn targets_are_exact() {
    let config = config();
    let (target, counter) = classify_target(asks("marked.test"), &config);
    assert_eq!(counter, CounterId::Routed);
    match target {
        ClassifiedTarget::Routed {
            target,
            socket_marks,
            route_label,
        } => {
            assert_eq!(target, local(1002));
            assert_eq!(socket_marks, Some(MARKS));
            assert_eq!(route_label, "marked.test");
        }
        other => panic!("{other:?}"),
    }
    for (classification, port, label, counter) in [
        (
            asks("www.plain.test"),
            2001,
            "unknown_sni",
            CounterId::FallbackUnknownSni,
        ),
        (
            Classification::Tls { sni: None },
            2002,
            "no_sni",
            CounterId::FallbackNoSni,
        ),
        (
            Classification::PlainHttp,
            2003,
            "plain_http",
            CounterId::FallbackPlainHttp,
        ),
    ] {
        let (target, counted) = classify_target(classification, &config);
        assert_eq!(counted, counter);
        match target {
            ClassifiedTarget::Fallback {
                target,
                route_label,
            } => {
                assert_eq!(target, local(port));
                assert_eq!(route_label, label);
            }
            other => panic!("{other:?}"),
        }
    }
}

#[test]
fn routed_session_is_counted_and_leaves_no_trace() {
    let config = config();
    let mut relay = relay();
    assert!(relay.on_accept());
    assert_eq!(gauges(&relay), [1, 1, 0, 0, 0]);
    let session = relay
        .on_classified(asks("plain.test"), &config, SOURCE)
        .ok()
        .unwrap();
    assert_eq!(gauges(&relay), [1, 0, 1, 1, 0]);
    assert_eq!(session.class, UpstreamClass::Routed);
    assert_eq!(session.upstream, local(1001));
    assert_eq!(session.socket_marks, None);
    assert_eq!(session.lifetime, None);
    relay.on_finished(&session);
    assert_eq!(gauges(&relay), [0, 0, 0, 0, 0]);
    assert_eq!(relay.metrics().counter(CounterId::Accepted), 1);
    assert_eq!(relay.metrics().counter(CounterId::Routed), 1);
}

#[test]
fn full_pools_reject() {
    let config = config();
    let mut relay = relay();
    assert!(relay.on_accept());
    assert!(relay.on_accept());
    assert!(!relay.on_accept());
    assert_eq!(relay.metrics().counter(CounterId::RejectedPreParse), 1);
    let fallback = relay
        .on_classified(Classification::PlainHttp, &config, SOURCE)
        .ok()
        .unwrap();
    assert_eq!(fallback.lifetime, Some(config.fallback_lifetime_timeout()));
    assert_eq!(fallback.class, UpstreamClass::Fallback);
    assert_eq!(fallback.route_label, "plain_http");
    let error = relay
        .on_classified(asks("unknown.test"), &config, SOURCE)
        .err()
        .unwrap();
    assert_eq!(error.kind, ErrorKind::WouldBlock);
    assert_eq!(error.message, "fallback admission limit reached");
    assert_eq!(relay.metrics().counter(CounterId::RejectedFallback), 1);
    assert_eq!(relay.metrics().counter(CounterId::FallbackUnknownSni), 1);
    // The fallback is full; a route is open.
    assert!(relay.on_accept());
    let routed = relay
        .on_classified(asks("plain.test"), &config, SOURCE)
        .ok()
        .unwrap();
    assert!(relay.on_accept());
    let error = relay
        .on_classified(asks("plain.test"), &config, SOURCE)
        .err()
        .unwrap();
    assert_eq!(error.message, "per-source routed admission limit reached");
    assert!(relay.on_accept());
    let error = relay
        .on_classified(asks("plain.test"), &config, OTHER)
        .err()
        .unwrap();
    assert_eq!(error.message, "routed admission limit reached");
    assert_eq!(relay.metrics().counter(CounterId::RejectedRouted), 2);
    assert_eq!(relay.metrics().counter(CounterId::RejectedRoutedSource), 1);
    assert_eq!(gauges(&relay), [2, 0, 1, 1, 1]);
    relay.on_finished(&routed);
    relay.on_finished(&fallback);
    assert_eq!(gauges(&relay), [0, 0, 0, 0, 0]);
    assert!(relay.on_accept());
    assert!(relay.on_classified(asks("plain.test"), &config, OTHER).is_ok());
}

#[test]
fn early_ends_give_the_place_back() {
    let mut relay = relay();
    assert!(relay.on_accept());
    relay.on_hello_failed();
    assert_eq!(relay.metrics().counter(CounterId::ParseErrors), 1);
    assert!(relay.on_accept());
    relay.on_closed_early();
    assert_eq!(relay.metrics().counter(CounterId::ParseErrors), 1);
    assert_eq!(gauges(&relay), [0, 0, 0, 0, 0]);
}

fn session(marks: Option<SocketMarks>, bounded: bool) -> Session {
    Session {
        class: UpstreamClass::Routed,
        source: SOURCE,
        upstream: local(1002),
        socket_marks: marks,
        route_label: "marked.test".to_string(),
        lifetime: if bounded {
            Some(std::time::Duration::from_millis(50))
        } else {
            None
        },
    }
}

#[test]
fn marked_session_goes_step_by_step() {
    let mut relay = relay();
    let (mut proxy, action) = Proxy::start(&session(Some(MARKS), false), 517);
    assert!(matches!(action, ProxyAction::MarkClient(22)));
    match relay.on_proxy(&mut proxy, ProxyEvent::Done) {
        ProxyAction::Connect(address, mark) => {
            assert_eq!(address, local(1002));
            assert_eq!(mark, Some(11));
        }
        other => panic!("{other:?}"),
    }
    assert!(matches!(
        relay.on_proxy(&mut proxy, ProxyEvent::Done),
        ProxyAction::Replay
    ));
    assert_eq!(relay.metrics().counter(CounterId::RoutedConnectSuccesses), 1);
    assert_eq!(relay.metrics().counter(CounterId::BytesClientToUpstream), 0);
    assert!(matches!(
        relay.on_proxy(&mut proxy, ProxyEvent::Done),
        ProxyAction::Relay
    ));
    assert_eq!(
        relay.metrics().counter(CounterId::BytesClientToUpstream),
        517
    );
    relay.on_delivered(DirectionSide::ClientToUpstream, 3);
    relay.on_delivered(DirectionSide::UpstreamToClient, 4);
    assert_eq!(
        relay.metrics().counter(CounterId::BytesClientToUpstream),
        520
    );
    assert_eq!(relay.metrics().counter(CounterId::BytesUpstreamToClient), 4);
    assert!(matches!(
        relay.on_proxy(&mut proxy, ProxyEvent::Done),
        ProxyAction::Finish
    ));
}

#[test]
fn failed_connects_are_counted_and_others_are_not() {
    let mut relay = relay();
    let (mut proxy, action) = Proxy::start(&session(None, true), 1);
    assert!(matches!(action, ProxyAction::Connect(_, None)));
    assert!(matches!(
        relay.on_proxy(&mut proxy, ProxyEvent::Failed),
        ProxyAction::FailAsEvent
    ));
    assert_eq!(relay.metrics().counter(CounterId::RoutedConnectErrors), 1);

    let (mut proxy, _) = Proxy::start(&session(None, true), 1);
    match relay.on_proxy(&mut proxy, ProxyEvent::ConnectTimedOut) {
        ProxyAction::Fail(error) => {
            assert_eq!(error.kind, ErrorKind::TimedOut);
            assert_eq!(error.message, "upstream connect timeout");
        }
        other => panic!("{other:?}"),
    }
    assert_eq!(relay.metrics().counter(CounterId::ConnectErrors), 2);

    let (mut proxy, _) = Proxy::start(&session(None, true), 1);
    match relay.on_proxy(&mut proxy, ProxyEvent::LifetimeOver) {
        ProxyAction::Fail(error) => {
            assert_eq!(error.kind, ErrorKind::TimedOut);
            assert_eq!(error.message, "fallback connection lifetime exceeded");
        }
        other => panic!("{other:?}"),
    }
    let (mut proxy, _) = Proxy::start(&session(Some(MARKS), false), 1);
    assert!(matches!(
        relay.on_proxy(&mut proxy, ProxyEvent::Failed),
        ProxyAction::FailAsEvent
    ));
    assert_eq!(relay.metrics().counter(CounterId::ConnectErrors), 2);
}

#[test]
fn reload_is_all_or_nothing() {
    let mut relay = relay();
    match relay.on_reload(Ok(config()), local(18443), local(19090)) {
        ReloadAction::Store(stored) => assert_eq!(stored.fallbacks.no_sni, local(2002)),
        ReloadAction::Refuse(refusal) => panic!("{refusal:?}"),
    }
    assert_eq!(relay.metrics().counter(CounterId::ReloadSuccess), 1);

    let refusals = [
        (
            relay.on_reload(Ok(config()), local(18444), local(19090)),
            Some("bind and health_bind cannot change without a restart"),
        ),
        (
            relay.on_reload(Ok(config()), local(18443), local(19091)),
            Some("bind and health_bind cannot change without a restart"),
        ),
        {
            let mut changed = document();
            changed.admission.fallback_max_connections = 2;
            let changed = Config::validate_and_normalize(changed).ok().unwrap();
            (
                relay.on_reload(Ok(changed), local(18443), local(19090)),
                Some("admission limits cannot change without a restart"),
            )
        },
        (
            relay.on_reload(
                Err(ConfigError::Validation("x".to_string())),
                local(18443),
                local(19090),
            ),
            None,
        ),
    ];
    for (action, reason) in refusals {
        match action {
            ReloadAction::Refuse(refusal) => {
                assert_eq!(refusal.reason(), reason);
                if reason.is_none() {
                    assert!(matches!(
                        refusal,
                        ReloadRefusal::Invalid(ConfigError::Validation(_))
                    ));
                }
            }
            ReloadAction::Store(_) => panic!("stored"),
        }
    }
    assert_eq!(relay.metrics().counter(CounterId::ReloadSuccess), 1);
    assert_eq!(relay.metrics().counter(CounterId::ReloadErrors), 4);
}

#[test]
fn service_serves_drains_and_stops() {
    let mut relay = relay();
    let mut service = Service::new(local(18443), local(19090));
    assert!(matches!(
        service.on_event(&mut relay, ServiceEvent::Accepted),
        ServiceAction::Serve
    ));
    assert!(matches!(
        service.on_event(&mut relay, ServiceEvent::Accepted),
        ServiceAction::Serve
    ));
    assert!(matches!(
        service.on_event(&mut relay, ServiceEvent::Accepted),
        ServiceAction::DropConnection
    ));
    assert!(matches!(
        service.on_event(&mut relay, ServiceEvent::Hangup(Ok(config()))),
        ServiceAction::Store(_)
    ));
    let refused = Err(ConfigError::Validation("x".to_string()));
    assert!(matches!(
        service.on_event(&mut relay, ServiceEvent::Hangup(refused)),
        ServiceAction::LogRefusal(_)
    ));
    assert!(matches!(
        service.on_event(&mut relay, ServiceEvent::TaskEnded(true)),
        ServiceAction::Continue
    ));
    assert!(matches!(
        service.on_event(&mut relay, ServiceEvent::TaskEnded(false)),
        ServiceAction::LogTask(ServicePhase::Serving)
    ));
    assert!(matches!(
        service.on_event(&mut relay, ServiceEvent::Stop),
        ServiceAction::Drain(10)
    ));
    assert_eq!(service.phase, ServicePhase::Draining);
    assert!(matches!(
        service.on_event(&mut relay, ServiceEvent::TaskEnded(false)),
        ServiceAction::LogTask(ServicePhase::Draining)
    ));
    assert!(matches!(
        service.on_event(&mut relay, ServiceEvent::DrainTimedOut),
        ServiceAction::AbortAll
    ));
    assert_eq!(service.phase, ServicePhase::Stopped);

    let mut other = Service::new(local(18443), local(19090));
    assert!(matches!(
        other.on_event(&mut relay, ServiceEvent::AcceptFailed),
        ServiceAction::FailAsEvent
    ));
    let mut third = Service::new(local(18443), local(19090));
    third.on_event(&mut relay, ServiceEvent::Stop);
    assert!(matches!(
        third.on_event(&mut relay, ServiceEvent::Drained),
        ServiceAction::Finish
    ));
}

#[test]
fn process_limit_is_bounded() {
    assert_eq!(parse_max_connections("1"), Ok(1));
    assert_eq!(parse_max_connections("75000"), Ok(75_000));
    for value in ["0", "75001"] {
        assert_eq!(
            parse_max_connections(value).unwrap_err(),
            "max-connections must be between 1 and 75000"
        );
    }
    assert_eq!(
        parse_max_connections("x").unwrap_err(),
        "max-connections must be an integer"
    );
    assert_eq!(listener_backlog(25_000), 25_000);
    assert_eq!(listener_backlog(usize::MAX), i32::MAX);
    assert_eq!(listener_backlog(i32::MAX as usize), i32::MAX);
}
