use std::time::Duration;

use exact_sni_relay::address::SocketAddr;
use exact_sni_relay::config::{
    ensure_loopback, normalize_hostname, Admission, Config, ConfigDocument, ConfigError, Fallbacks,
    Limits, Route, SocketMarks,
};
use serde_json::Value;

const VALID: &str = r#"{
      "bind":"127.0.0.1:18443",
      "allow_redirect_ingress_bind":false,
      "health_bind":"127.0.0.1:19090",
      "routes":{"EXAMPLE.test.":"127.0.0.1:57270"},
      "fallbacks":{
        "unknown_sni":"127.0.0.1:4443",
        "no_sni":"127.0.0.1:4443",
        "plain_http":"127.0.0.1:8080"
      }
    }"#;

fn address(text: &str) -> SocketAddr {
    let (host, port) = text.split_once(':').unwrap();
    let mut ip = 0;
    for octet in host.split('.') {
        ip = ip * 256 + octet.parse::<u32>().unwrap();
    }
    SocketAddr::V4 {
        ip,
        port: port.parse().unwrap(),
    }
}

fn address_at(value: &Value, key: &str) -> SocketAddr {
    address(value[key].as_str().unwrap())
}

fn number_at(value: &Value, key: &str, default: u64) -> u64 {
    value.get(key).map_or(default, |n| n.as_u64().unwrap())
}

fn route(value: &Value) -> Route {
    match value.as_str() {
        Some(text) => Route::Plain(address(text)),
        None => Route::Marked {
            upstream: address_at(value, "upstream"),
            socket_marks: SocketMarks {
                upload: value["socket_marks"]["upload"].as_u64().unwrap() as u32,
                download: value["socket_marks"]["download"].as_u64().unwrap() as u32,
            },
        },
    }
}

fn document(data: &[u8]) -> Result<ConfigDocument, serde_json::Error> {
    let value: Value = serde_json::from_slice(data)?;
    let admission = Admission::default();
    let limits = Limits::default();
    let none = Value::Null;
    let given_admission = value.get("admission").unwrap_or(&none);
    let given_limits = value.get("limits").unwrap_or(&none);
    Ok(ConfigDocument {
        bind: address_at(&value, "bind"),
        allow_redirect_ingress_bind: value["allow_redirect_ingress_bind"]
            .as_bool()
            .unwrap_or(false),
        health_bind: address_at(&value, "health_bind"),
        routes: value["routes"]
            .as_object()
            .unwrap()
            .iter()
            .map(|(name, target)| (name.clone(), route(target)))
            .collect(),
        fallbacks: Fallbacks {
            unknown_sni: address_at(&value["fallbacks"], "unknown_sni"),
            no_sni: address_at(&value["fallbacks"], "no_sni"),
            plain_http: address_at(&value["fallbacks"], "plain_http"),
        },
        admission: Admission {
            pre_parse_max_connections: number_at(
                given_admission,
                "pre_parse_max_connections",
                admission.pre_parse_max_connections as u64,
            ) as usize,
            routed_max_connections: number_at(
                given_admission,
                "routed_max_connections",
                admission.routed_max_connections as u64,
            ) as usize,
            routed_max_connections_per_source: number_at(
                given_admission,
                "routed_max_connections_per_source",
                admission.routed_max_connections_per_source as u64,
            ) as usize,
            fallback_max_connections: number_at(
                given_admission,
                "fallback_max_connections",
                admission.fallback_max_connections as u64,
            ) as usize,
        },
        limits: Limits {
            client_hello_max_bytes: number_at(
                given_limits,
                "client_hello_max_bytes",
                limits.client_hello_max_bytes as u64,
            ) as usize,
            client_hello_timeout_ms: number_at(
                given_limits,
                "client_hello_timeout_ms",
                limits.client_hello_timeout_ms,
            ),
            connect_timeout_ms: number_at(
                given_limits,
                "connect_timeout_ms",
                limits.connect_timeout_ms,
            ),
            half_close_timeout_ms: number_at(
                given_limits,
                "half_close_timeout_ms",
                limits.half_close_timeout_ms,
            ),
            fallback_lifetime_timeout_ms: number_at(
                given_limits,
                "fallback_lifetime_timeout_ms",
                limits.fallback_lifetime_timeout_ms,
            ),
        },
    })
}

fn from_slice(data: &[u8]) -> Result<Config, ConfigError> {
    Config::from_parsed(document(data))
}

fn refusal(data: &[u8]) -> String {
    match from_slice(data) {
        Ok(_) => panic!("accepted"),
        Err(error) => error.message(),
    }
}

#[test]
fn parses_and_normalizes_a_valid_config() {
    let config = from_slice(VALID.as_bytes()).ok().unwrap();
    assert_eq!(
        config.routes.get("example.test").unwrap().upstream().port(),
        57270
    );
    assert_eq!(config.limits.client_hello_max_bytes, 65_536);
    assert_eq!(config.admission.routed_max_connections_per_source, 128);
    assert_eq!(config.limits.half_close_timeout_ms, 10_000);
    assert_eq!(config.limits.fallback_lifetime_timeout_ms, 5_000);
    assert_eq!(config.admitted_connection_budget(), Some(38_304));
}

#[test]
fn rejects_non_loopback_targets() {
    let invalid = VALID.replace("127.0.0.1:57270", "192.0.2.10:57270");
    assert!(from_slice(invalid.as_bytes())
        .err()
        .unwrap()
        .message()
        .contains("loopback"));
}

#[test]
fn rejects_wildcard_routes() {
    let invalid = VALID.replace("EXAMPLE.test.", "*.example.test");
    assert!(from_slice(invalid.as_bytes()).is_err());
}

#[test]
fn accepts_empty_routes_for_fallback_only_state() {
    let empty = VALID.replace(r#"{"EXAMPLE.test.":"127.0.0.1:57270"}"#, "{}");
    let config = from_slice(empty.as_bytes()).ok().unwrap();
    assert!(config.routes.is_empty());
}

#[test]
fn accepts_a_marked_kernel_policy_route() {
    let marked = VALID.replace(
        "\"127.0.0.1:57270\"",
        "{\"upstream\":\"127.0.0.1:57270\",\"socket_marks\":{\"upload\":536871284,\"download\":536871285}}",
    );
    let config = from_slice(marked.as_bytes()).ok().unwrap();
    let route = config.routes.get("example.test").unwrap();
    assert_eq!(route.upstream().port(), 57270);
    assert_eq!(route.socket_marks().unwrap().download, 536_871_285);
}

#[test]
fn rejects_zero_or_identical_socket_marks() {
    for marks in [
        "{\"upload\":0,\"download\":1}",
        "{\"upload\":42,\"download\":42}",
    ] {
        let route = format!("{{\"upstream\":\"127.0.0.1:57270\",\"socket_marks\":{marks}}}");
        assert!(from_slice(VALID.replace("\"127.0.0.1:57270\"", &route).as_bytes()).is_err());
    }
}

#[test]
fn redirected_ingress_requires_an_explicit_narrow_opt_in() {
    let redirected = VALID.replace("127.0.0.1:18443", "0.0.0.0:18443").replace(
        "\"allow_redirect_ingress_bind\":false",
        "\"allow_redirect_ingress_bind\":true",
    );
    assert!(from_slice(redirected.as_bytes()).is_ok());
    assert!(from_slice(VALID.replace("127.0.0.1:18443", "0.0.0.0:18443").as_bytes()).is_err());
    assert!(from_slice(
        redirected
            .replace("0.0.0.0:18443", "0.0.0.0:443")
            .as_bytes()
    )
    .is_err());
}

#[test]
fn rejects_a_zero_half_close_timeout() {
    let invalid = VALID.replace(
        "\n      }\n    }",
        "\n      },\n      \"limits\":{\"half_close_timeout_ms\":0}\n    }",
    );
    assert!(from_slice(invalid.as_bytes()).is_err());
}

#[test]
fn parses_scoped_admission_limits() {
    let configured = VALID.replace(
        "\n      \"fallbacks\":{",
        "\n      \"admission\":{\"pre_parse_max_connections\":8,\"routed_max_connections\":16,\"routed_max_connections_per_source\":4,\"fallback_max_connections\":2},\n      \"fallbacks\":{",
    );
    let config = from_slice(configured.as_bytes()).ok().unwrap();
    assert_eq!(config.admitted_connection_budget(), Some(26));
    assert_eq!(config.admission.fallback_max_connections, 2);
    assert_eq!(config.admission.routed_max_connections_per_source, 4);
}

#[test]
fn rejects_zero_scoped_admission_limits() {
    let configured = VALID.replace(
        "\n      \"fallbacks\":{",
        "\n      \"admission\":{\"pre_parse_max_connections\":8,\"routed_max_connections\":16,\"routed_max_connections_per_source\":4,\"fallback_max_connections\":0},\n      \"fallbacks\":{",
    );
    assert!(from_slice(configured.as_bytes()).is_err());
}

#[test]
fn rejects_admission_budget_above_binary_safety_ceiling() {
    let configured = VALID.replace(
        "\n      \"fallbacks\":{",
        "\n      \"admission\":{\"pre_parse_max_connections\":60001,\"routed_max_connections\":60000,\"routed_max_connections_per_source\":128,\"fallback_max_connections\":40000},\n      \"fallbacks\":{",
    );
    assert!(from_slice(configured.as_bytes()).is_err());
}

#[test]
fn validates_per_source_routed_limit() {
    for limit in [0, 17] {
        let configured = VALID.replace(
            "\n      \"fallbacks\":{",
            &format!(
                "\n      \"admission\":{{\"pre_parse_max_connections\":8,\"routed_max_connections\":16,\"routed_max_connections_per_source\":{limit},\"fallback_max_connections\":2}},\n      \"fallbacks\":{{"
            ),
        );
        assert!(from_slice(configured.as_bytes()).is_err());
    }
}

fn valid_document() -> ConfigDocument {
    document(VALID.as_bytes()).unwrap()
}

fn problem(document: ConfigDocument) -> String {
    match Config::validate_and_normalize(document) {
        Err(ConfigError::Validation(message)) => message,
        _ => panic!("no validation error"),
    }
}

#[test]
fn every_problem_has_its_message() {
    let mut d = valid_document();
    d.bind = address("127.0.0.1:0");
    assert_eq!(problem(d), "bind must use a non-zero port");
    let mut d = valid_document();
    d.bind = address("10.0.0.1:18443");
    assert_eq!(problem(d), "bind must use a loopback IP");
    let mut d = valid_document();
    d.allow_redirect_ingress_bind = true;
    assert_eq!(
        problem(d),
        "redirect ingress bind must use a wildcard IP and unprivileged port"
    );
    let mut d = valid_document();
    d.health_bind = address("0.0.0.0:19090");
    assert_eq!(problem(d), "health_bind must use a loopback IP");
    let mut d = valid_document();
    d.health_bind = d.bind;
    assert_eq!(problem(d), "bind and health_bind must be different");
    let mut d = valid_document();
    d.routes.push(("example.TEST".to_string(), d.routes[0].1));
    assert_eq!(
        problem(d),
        "duplicate hostname after normalization: example.test"
    );
    let mut d = valid_document();
    d.routes[0].0 = " . ".to_string();
    assert_eq!(problem(d), "invalid hostname: \" . \"");
    let mut d = valid_document();
    d.routes[0].0 = "a\"b".to_string();
    assert_eq!(problem(d), "invalid exact hostname: \"a\\\"b\"");
    let mut d = valid_document();
    d.routes[0].1 = Route::Plain(address("127.0.0.1:0"));
    assert_eq!(problem(d), "route upstream must use a non-zero port");
    let mut d = valid_document();
    d.routes[0].1 = Route::Marked {
        upstream: address("127.0.0.1:1"),
        socket_marks: SocketMarks {
            upload: 1,
            download: 0,
        },
    };
    assert_eq!(
        problem(d),
        "marked route requires distinct non-zero socket marks"
    );
    let mut d = valid_document();
    d.fallbacks.unknown_sni = address("10.0.0.1:1");
    assert_eq!(problem(d), "fallbacks.unknown_sni must use a loopback IP");
    let mut d = valid_document();
    d.fallbacks.no_sni = address("127.0.0.1:0");
    assert_eq!(problem(d), "fallbacks.no_sni must use a non-zero port");
    let mut d = valid_document();
    d.fallbacks.plain_http = address("10.0.0.1:1");
    assert_eq!(problem(d), "fallbacks.plain_http must use a loopback IP");
    let mut d = valid_document();
    d.admission.pre_parse_max_connections = 0;
    assert_eq!(problem(d), "admission limits must be greater than zero");
    let mut d = valid_document();
    d.admission.routed_max_connections_per_source = 36_001;
    assert_eq!(
        problem(d),
        "routed_max_connections_per_source must not exceed routed_max_connections"
    );
    let mut d = valid_document();
    d.admission.pre_parse_max_connections = usize::MAX;
    assert_eq!(problem(d), "admission connection budget overflow");
    let mut d = valid_document();
    d.admission.pre_parse_max_connections = 75_000;
    assert_eq!(
        problem(d),
        "admission connection budget must not exceed 75000"
    );
    for (routed, accepted) in [(72_696, true), (72_697, false)] {
        let mut d = valid_document();
        d.admission.pre_parse_max_connections = 2_048;
        d.admission.routed_max_connections = routed;
        d.admission.fallback_max_connections = 256;
        assert_eq!(Config::validate_and_normalize(d).is_ok(), accepted);
    }
    for bytes in [4095, 262_145] {
        let mut d = valid_document();
        d.limits.client_hello_max_bytes = bytes;
        assert_eq!(
            problem(d),
            "client_hello_max_bytes must be between 4096 and 262144"
        );
    }
    for bytes in [4096, 262_144] {
        let mut d = valid_document();
        d.limits.client_hello_max_bytes = bytes;
        assert!(Config::validate_and_normalize(d).is_ok());
    }
    let mut d = valid_document();
    d.limits.connect_timeout_ms = 0;
    assert_eq!(problem(d), "timeouts must be greater than zero");
}

#[test]
fn errors_are_told_apart() {
    assert!(refusal(b"not json").starts_with("invalid JSON config: "));
    let invalid = VALID.replace("127.0.0.1:57270", "192.0.2.10:57270");
    assert_eq!(
        refusal(invalid.as_bytes()),
        "invalid config: route upstream must use a loopback IP"
    );
    let read = ConfigError::Read {
        path: "/nowhere".to_string(),
        source: std::io::Error::from(std::io::ErrorKind::NotFound),
    };
    assert!(read.message().starts_with("could not read config /nowhere: "));
    assert!(read.message().len() > "could not read config /nowhere: ".len());
}

#[test]
fn timeouts_are_milliseconds() {
    let config = from_slice(VALID.as_bytes()).ok().unwrap();
    assert_eq!(config.hello_timeout(), Duration::from_millis(3_000));
    assert_eq!(config.connect_timeout(), Duration::from_millis(3_000));
    assert_eq!(config.half_close_timeout(), Duration::from_millis(10_000));
    assert_eq!(
        config.fallback_lifetime_timeout(),
        Duration::from_millis(5_000)
    );
}

#[test]
fn ipv6_loopback_is_local() {
    let local = SocketAddr::V6 {
        ip: 1,
        port: 1,
        flowinfo: 0,
        scope_id: 0,
    };
    assert!(ensure_loopback("bind", local).is_ok());
    let other = SocketAddr::V6 {
        ip: 2,
        port: 1,
        flowinfo: 0,
        scope_id: 0,
    };
    assert!(ensure_loopback("bind", other).is_err());
}

#[test]
fn route_names_are_trimmed_and_lowered() {
    assert_eq!(
        normalize_hostname("\u{a0} Example.Test.. \n").ok().unwrap(),
        "example.test"
    );
    let label = "a".repeat(63);
    let long = format!("{label}.{label}.{label}.{}", "a".repeat(61));
    // The length is that of the normal form.
    assert_eq!(normalize_hostname(&format!(" {long}. ")).ok().unwrap(), long);
    assert!(normalize_hostname(&format!("{long}a"))
        .err()
        .unwrap()
        .message()
        .starts_with("invalid config: invalid hostname: "));
}
