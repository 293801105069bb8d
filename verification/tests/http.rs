use exact_sni_relay::http::{
    make_health_response, parse_health_request, serve_request, HealthRequest,
};
use exact_sni_relay::metrics::{CounterId, Metrics};
use exact_sni_relay::number::{decimal, parse_decimal, parse_positive};

#[test]
fn requests_are_told_by_method_and_path() {
    for (request, asked) in [
        ("GET /healthz HTTP/1.1\r\n\r\n", HealthRequest::Healthz),
        ("GET /metrics HTTP/1.1\r\n", HealthRequest::Metrics),
        ("GET /healthz", HealthRequest::Healthz),
        ("GET /", HealthRequest::NotFound),
        ("GET", HealthRequest::NotFound),
        ("GET ", HealthRequest::NotFound),
        ("GET /healthz/ HTTP/1.1", HealthRequest::NotFound),
        ("POST /healthz HTTP/1.1", HealthRequest::MethodNotAllowed),
        ("get /healthz HTTP/1.1", HealthRequest::MethodNotAllowed),
        ("", HealthRequest::MethodNotAllowed),
    ] {
        assert_eq!(parse_health_request(request.as_bytes()), asked, "{request:?}");
    }
}

#[test]
fn responses_are_whole() {
    let response = make_health_response(HealthRequest::MethodNotAllowed, None);
    assert_eq!(
        response.header,
        "HTTP/1.1 405 Method Not Allowed\r\nContent-Type: text/plain; charset=utf-8\r\nContent-Length: 19\r\nConnection: close\r\n\r\n"
    );
    assert_eq!(response.body, b"method not allowed\n");
    let response = make_health_response(HealthRequest::Healthz, None);
    assert_eq!(
        response.header,
        "HTTP/1.1 200 OK\r\nContent-Type: text/plain; charset=utf-8\r\nContent-Length: 3\r\nConnection: close\r\n\r\n"
    );
    assert_eq!(response.body, b"ok\n");
    let response = make_health_response(HealthRequest::NotFound, None);
    assert_eq!(
        response.header,
        "HTTP/1.1 404 Not Found\r\nContent-Type: text/plain; charset=utf-8\r\nContent-Length: 10\r\nConnection: close\r\n\r\n"
    );
    assert_eq!(response.body, b"not found\n");
    let response = make_health_response(HealthRequest::Metrics, None);
    assert_eq!(
        response.header,
        "HTTP/1.1 500 Internal Server Error\r\nContent-Type: text/plain; charset=utf-8\r\nContent-Length: 14\r\nConnection: close\r\n\r\n"
    );
    assert_eq!(response.body, b"metrics error\n");
    let response = make_health_response(HealthRequest::Metrics, Some(vec![b'x'; 1234]));
    assert_eq!(
        response.header,
        "HTTP/1.1 200 OK\r\nContent-Type: text/plain; version=0.0.4\r\nContent-Length: 1234\r\nConnection: close\r\n\r\n"
    );
    assert_eq!(response.body.len(), 1234);
}

#[test]
fn metrics_are_served_as_they_read() {
    let mut metrics = Metrics::new().unwrap();
    metrics.count(CounterId::Accepted, 5);
    let response = serve_request(b"GET /metrics HTTP/1.1\r\n\r\n", &metrics);
    let text = String::from_utf8(response.body).unwrap();
    assert!(text.contains("\nsni_router_connections_accepted_total 5\n"));
    assert!(response
        .header
        .contains(&format!("Content-Length: {}\r\n", text.len())));
    assert_eq!(serve_request(b"GET /healthz", &metrics).body, b"ok\n");
}

#[test]
fn numbers_are_read_and_written() {
    for number in [0, 7, 10, 99, 100, 65_536, u64::MAX] {
        assert_eq!(decimal(number), number.to_string());
        assert_eq!(parse_decimal(&decimal(number), u64::MAX), Some(number));
    }
    assert_eq!(parse_decimal("+42", u64::MAX), Some(42));
    assert_eq!(parse_decimal("007", u64::MAX), Some(7));
    for text in ["", "+", "-1", "4 2", " 42", "0x10", "18446744073709551616", "\u{661}"] {
        assert_eq!(parse_decimal(text, u64::MAX), None, "{text:?}");
    }
    assert_eq!(parse_decimal("100", 99), None);
    assert_eq!(parse_positive("5", 100, 5, "no", "out").unwrap(), 5);
    assert_eq!(parse_positive("6", 100, 5, "no", "out").unwrap_err(), "out");
    assert_eq!(parse_positive("0", 100, 5, "no", "out").unwrap_err(), "out");
    assert_eq!(parse_positive("101", 100, 5, "no", "out").unwrap_err(), "no");
}
