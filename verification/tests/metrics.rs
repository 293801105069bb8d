use exact_sni_relay::instruments::{Descriptor, MetricSet};
use exact_sni_relay::metrics::{
    CounterId, GaugeId, Metrics, UpstreamClass, MAX_RETAINED_CONNECT_ERROR_ROUTES,
};

#[test]
fn connect_diagnostics_preserve_aggregate_and_split_classes() {
    let mut metrics = Metrics::new().unwrap();
    metrics.record_connect_success(UpstreamClass::Routed);
    metrics.record_connect_success(UpstreamClass::Fallback);
    metrics.record_connect_error(UpstreamClass::Routed, "service.example");
    metrics.record_connect_error(UpstreamClass::Fallback, "unknown_sni");

    assert_eq!(metrics.counter(CounterId::ConnectSuccesses), 2);
    assert_eq!(metrics.counter(CounterId::ConnectErrors), 2);
    assert_eq!(metrics.counter(CounterId::RoutedConnectSuccesses), 1);
    assert_eq!(metrics.counter(CounterId::RoutedConnectErrors), 1);
    assert_eq!(metrics.counter(CounterId::FallbackConnectSuccesses), 1);
    assert_eq!(metrics.counter(CounterId::FallbackConnectErrors), 1);

    let encoded = String::from_utf8(metrics.encode().unwrap()).unwrap();
    assert!(encoded.contains(
        "sni_router_connect_errors_by_route_total{class=\"routed\",route=\"service.example\"} 1"
    ));
    assert!(encoded.contains(
        "sni_router_connect_errors_by_route_total{class=\"fallback\",route=\"unknown_sni\"} 1"
    ));
}

#[test]
fn connect_error_route_cardinality_is_bounded_across_reloads() {
    let mut metrics = Metrics::new().unwrap();
    for index in 0..(MAX_RETAINED_CONNECT_ERROR_ROUTES + 100) {
        metrics.record_connect_error(UpstreamClass::Routed, &format!("route-{index}.example"));
    }

    assert_eq!(
        metrics.retained_connect_error_routes(),
        MAX_RETAINED_CONNECT_ERROR_ROUTES
    );
    let encoded = String::from_utf8(metrics.encode().unwrap()).unwrap();
    assert!(encoded.contains(
        "sni_router_connect_errors_by_route_total{class=\"routed\",route=\"__overflow__\"} 100"
    ));
}

#[test]
fn retained_routes_keep_their_label() {
    let mut metrics = Metrics::new().unwrap();
    metrics.record_connect_error(UpstreamClass::Routed, "first.example");
    for index in 0..300 {
        metrics.record_connect_error(UpstreamClass::Fallback, &format!("route-{index}.example"));
    }
    metrics.record_connect_error(UpstreamClass::Routed, "first.example");
    let encoded = String::from_utf8(metrics.encode().unwrap()).unwrap();
    assert!(encoded.contains(
        "sni_router_connect_errors_by_route_total{class=\"routed\",route=\"first.example\"} 2"
    ));
    assert_eq!(UpstreamClass::Routed.label(), "routed");
    assert_eq!(UpstreamClass::Fallback.label(), "fallback");
}

#[test]
fn all_metrics_are_exposed_under_their_names() {
    let mut metrics = Metrics::new().unwrap();
    metrics.record_connect_error(UpstreamClass::Routed, "x");
    let counters = [
        (CounterId::Accepted, "sni_router_connections_accepted_total"),
        (
            CounterId::RejectedPreParse,
            "sni_router_admission_rejected_pre_parse_total",
        ),
        (
            CounterId::RejectedRouted,
            "sni_router_admission_rejected_routed_total",
        ),
        (
            CounterId::RejectedRoutedSource,
            "sni_router_admission_rejected_routed_source_total",
        ),
        (
            CounterId::RejectedFallback,
            "sni_router_admission_rejected_fallback_total",
        ),
        (CounterId::Routed, "sni_router_connections_routed_total"),
        (
            CounterId::FallbackUnknownSni,
            "sni_router_fallback_unknown_sni_total",
        ),
        (
            CounterId::FallbackNoSni,
            "sni_router_fallback_no_sni_total",
        ),
        (
            CounterId::FallbackPlainHttp,
            "sni_router_fallback_plain_http_total",
        ),
        (CounterId::ParseErrors, "sni_router_parse_errors_total"),
        (CounterId::ConnectErrors, "sni_router_connect_errors_total"),
        (
            CounterId::ConnectSuccesses,
            "sni_router_connect_successes_total",
        ),
        (
            CounterId::RoutedConnectErrors,
            "sni_router_routed_connect_errors_total",
        ),
        (
            CounterId::RoutedConnectSuccesses,
            "sni_router_routed_connect_successes_total",
        ),
        (
            CounterId::FallbackConnectErrors,
            "sni_router_fallback_connect_errors_total",
        ),
        (
            CounterId::FallbackConnectSuccesses,
            "sni_router_fallback_connect_successes_total",
        ),
        (CounterId::ReloadSuccess, "sni_router_reload_success_total"),
        (CounterId::ReloadErrors, "sni_router_reload_errors_total"),
        (
            CounterId::BytesClientToUpstream,
            "sni_router_bytes_client_to_upstream_total",
        ),
        (
            CounterId::BytesUpstreamToClient,
            "sni_router_bytes_upstream_to_client_total",
        ),
    ];
    for (place, (id, _)) in counters.iter().enumerate() {
        assert_eq!(id.index(), place);
        metrics.count(*id, 1000 + place as u64);
    }
    let gauges = [
        (GaugeId::Active, "sni_router_connections_active"),
        (
            GaugeId::ActivePreParse,
            "sni_router_connections_active_pre_parse",
        ),
        (GaugeId::ActiveRouted, "sni_router_connections_active_routed"),
        (
            GaugeId::ActiveRoutedEstablished,
            "sni_router_connections_active_routed_established",
        ),
        (
            GaugeId::ActiveFallback,
            "sni_router_connections_active_fallback",
        ),
    ];
    for (place, (id, _)) in gauges.iter().enumerate() {
        assert_eq!(id.index(), place);
        for _ in 0..=place {
            metrics.raise(*id);
        }
        metrics.raise(*id);
        metrics.lower(*id);
    }
    let encoded = String::from_utf8(metrics.encode().unwrap()).unwrap();
    for (id, name) in counters {
        let value = metrics.counter(id);
        assert!(encoded.contains(&format!("\n{name} {value}\n")), "{name}");
        assert!(encoded.contains(&format!("# TYPE {name} counter\n")));
    }
    for (place, (id, name)) in gauges.iter().enumerate() {
        assert_eq!(metrics.gauge(*id), place as i64 + 1);
        assert!(encoded.contains(&format!("\n{name} {}\n", place + 1)), "{name}");
        assert!(encoded.contains(&format!("# TYPE {name} gauge\n")));
    }
    assert!(encoded.contains("# HELP sni_router_parse_errors_total Rejected initial messages\n"));
    assert_eq!(metrics.counter(CounterId::Accepted), 1000);
    assert_eq!(metrics.counter(CounterId::ConnectErrors), 1011);
}

#[test]
fn labels_are_given_out_until_there_is_no_room() {
    let mut metrics = Metrics::new().unwrap();
    for index in 0..MAX_RETAINED_CONNECT_ERROR_ROUTES {
        let route = format!("route-{index}.example");
        assert_eq!(metrics.retained_route_label(UpstreamClass::Routed, &route), route);
    }
    assert_eq!(
        metrics.retained_connect_error_routes(),
        MAX_RETAINED_CONNECT_ERROR_ROUTES
    );
    for (class, route, label) in [
        (UpstreamClass::Routed, "late.example", "__overflow__"),
        (UpstreamClass::Fallback, "route-0.example", "__overflow__"),
        (UpstreamClass::Routed, "route-0.example", "route-0.example"),
        (UpstreamClass::Routed, "route-255.example", "route-255.example"),
        (UpstreamClass::Routed, "late.example", "__overflow__"),
    ] {
        assert_eq!(metrics.retained_route_label(class, route), label);
    }
    assert_eq!(
        metrics.retained_connect_error_routes(),
        MAX_RETAINED_CONNECT_ERROR_ROUTES
    );
}

#[test]
fn counters_wrap_around() {
    let mut metrics = Metrics::new().unwrap();
    metrics.count(CounterId::BytesClientToUpstream, u64::MAX);
    assert_eq!(metrics.counter(CounterId::BytesClientToUpstream), u64::MAX);
    metrics.count(CounterId::BytesClientToUpstream, 3);
    assert_eq!(metrics.counter(CounterId::BytesClientToUpstream), 2);
    metrics.lower(GaugeId::Active);
    assert_eq!(metrics.gauge(GaugeId::Active), -1);
    metrics.raise(GaugeId::Active);
    assert_eq!(metrics.gauge(GaugeId::Active), 0);
}

#[test]
fn sets_refuse_what_a_registry_refuses() {
    let good = Descriptor {
        name: "a:b_9",
        help: "Good",
    };
    let other = Descriptor {
        name: "other",
        help: "Other",
    };
    assert!(MetricSet::new(&[good], &[other]).is_ok());
    assert!(MetricSet::new(&[good, other], &[good]).is_err());
    for name in ["", "9a", "a-b", "a b", "\u{e4}"] {
        let bad = Descriptor { name, help: "Bad" };
        assert!(MetricSet::new(&[bad], &[]).is_err(), "{name}");
        assert!(MetricSet::new(&[], &[bad]).is_err(), "{name}");
    }
    let silent = Descriptor {
        name: "silent",
        help: "",
    };
    assert!(MetricSet::new(&[silent], &[]).is_err());

    for (first, second, taken) in [
        ("class", "route", true),
        ("class", "class", false),
        ("a:b", "route", false),
        ("class", "", false),
    ] {
        let mut set = MetricSet::new(&[good], &[]).unwrap();
        assert_eq!(set.add_family(other, first, second).is_ok(), taken);
    }
    let mut set = MetricSet::new(&[good], &[]).unwrap();
    assert!(set.add_family(good, "class", "route").is_err());
    let mut set = MetricSet::new(&[good], &[]).unwrap();
    set.add_family(other, "class", "route").unwrap();
    set.count_labeled("x", "y");
    set.count_labeled("x", "y");
    // The values are told apart by a hash of both, one behind the other.
    set.count_labeled("xy", "");
    let text = String::from_utf8(set.encode().unwrap()).unwrap();
    assert_eq!(
        text,
        "# HELP a:b_9 Good\n# TYPE a:b_9 counter\na:b_9 0\n\
         # HELP other Other\n# TYPE other counter\nother{class=\"x\",route=\"y\"} 3\n"
    );
}
