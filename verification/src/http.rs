//! The health endpoint: the request line of a short HTTP request, and whole
//! responses.

use vstd::prelude::*;
use vstd::slice::{slice_subrange, slice_to_vec};
use vstd::string::StringSliceAdditionalSpecFns;

use crate::metrics::Metrics;
use crate::number::decimal;

verus! {

/// What a request to the health endpoint asks for.
#[derive(Clone, Copy, Debug, PartialEq, Eq, Structural)]
pub enum HealthRequest {
    MethodNotAllowed,
    Healthz,
    Metrics,
    NotFound,
}

/// The place of the first blank at or after `from`, or the end.
pub open spec fn blank_at(bytes: Seq<u8>, from: int) -> int
    decreases bytes.len() - from,
{
    if from >= bytes.len() || bytes[from] == 32 {
        from
    } else {
        blank_at(bytes, from + 1)
    }
}

/// The method: the bytes before the first blank.
pub open spec fn request_method(request: Seq<u8>) -> Seq<u8> {
    request.take(blank_at(request, 0))
}

/// The path: the bytes between the first two blanks.
pub open spec fn request_path(request: Seq<u8>) -> Seq<u8> {
    let end = blank_at(request, 0);
    if end >= request.len() {
        Seq::empty()
    } else {
        request.subrange(end + 1, blank_at(request, end + 1))
    }
}

/// What a request asks for.
pub open spec fn health_request(request: Seq<u8>) -> HealthRequest {
    if request_method(request) != "GET".spec_bytes() {
        HealthRequest::MethodNotAllowed
    } else if request_path(request) == "/healthz".spec_bytes() {
        HealthRequest::Healthz
    } else if request_path(request) == "/metrics".spec_bytes() {
        HealthRequest::Metrics
    } else {
        HealthRequest::NotFound
    }
}

/// A response: the header, and the body after it.
#[derive(Debug)]
pub struct Response {
    pub header: String,
    pub body: Vec<u8>,
}

/// `Response` over views.
#[verifier::ext_equal]
pub struct ResponseView {
    pub header: Seq<char>,
    pub body: Seq<u8>,
}

impl View for Response {
    type V = ResponseView;

    open spec fn view(&self) -> ResponseView {
        ResponseView { header: self.header@, body: self.body@ }
    }
}

/// A response with a status, the type of its body, and its body.
pub open spec fn response(status: Seq<char>, content_type: Seq<char>, body: Seq<u8>) -> ResponseView {
    ResponseView {
        header: "HTTP/1.1 "@ + status + "\r\nContent-Type: "@ + content_type
            + "\r\nContent-Length: "@ + crate::number::decimal_digits(body.len())
            + "\r\nConnection: close\r\n\r\n"@,
        body,
    }
}

/// The response to a request, given the text of the metrics where there is one.
pub open spec fn health_response(request: HealthRequest, metrics: Option<Seq<u8>>) -> ResponseView {
    match request {
        HealthRequest::MethodNotAllowed => response(
            "405 Method Not Allowed"@,
            "text/plain; charset=utf-8"@,
            "method not allowed\n".spec_bytes(),
        ),
        HealthRequest::Healthz => response(
            "200 OK"@,
            "text/plain; charset=utf-8"@,
            "ok\n".spec_bytes(),
        ),
        HealthRequest::NotFound => response(
            "404 Not Found"@,
            "text/plain; charset=utf-8"@,
            "not found\n".spec_bytes(),
        ),
        HealthRequest::Metrics => match metrics {
            Some(body) => response("200 OK"@, "text/plain; version=0.0.4"@, body),
            None => response(
                "500 Internal Server Error"@,
                "text/plain; charset=utf-8"@,
                "metrics error\n".spec_bytes(),
            ),
        },
    }
}

/// The place of the first blank at or after `from`, or the end.
fn find_blank(bytes: &[u8], from: usize) -> (at: usize)
    requires
        from <= bytes@.len(),
    ensures
        at == blank_at(bytes@, from as int),
        from <= at <= bytes@.len(),
{
    let mut at: usize = from;
    while at < bytes.len() && bytes[at] != 32
        invariant
            from <= at <= bytes@.len(),
            blank_at(bytes@, at as int) == blank_at(bytes@, from as int),
        decreases bytes@.len() - at,
    {
        at += 1;
    }
    at
}

/// Whether two byte strings are the same.
fn same_bytes(a: &[u8], b: &[u8]) -> (same: bool)
    ensures
        same == (a@ == b@),
{
    if a.len() != b.len() {
        return false;
    }
    let mut i: usize = 0;
    while i < a.len()
        invariant
            i <= a@.len() == b@.len(),
            forall|j: int| 0 <= j < i ==> #[trigger] a@[j] == b@[j],
        decreases a@.len() - i,
    {
        if a[i] != b[i] {
            return false;
        }
        i += 1;
    }
    assert(a@ =~= b@);
    true
}

/// What a request asks for.
pub fn parse_health_request(request: &[u8]) -> (asked: HealthRequest)
    ensures
        asked == health_request(request@),
{
    let end = find_blank(request, 0);
    let method = slice_subrange(request, 0, end);
    assert(method@ =~= request_method(request@));
    if !same_bytes(method, "GET".as_bytes()) {
        return HealthRequest::MethodNotAllowed;
    }
    if end == request.len() {
        proof {
            reveal_strlit("/healthz");
            reveal_strlit("/metrics");
            vstd::utf8::is_ascii_chars_encode_utf8("/healthz"@);
            vstd::utf8::is_ascii_chars_encode_utf8("/metrics"@);
        }
        return HealthRequest::NotFound;
    }
    let path_end = find_blank(request, end + 1);
    let path = slice_subrange(request, end + 1, path_end);
    if same_bytes(path, "/healthz".as_bytes()) {
        HealthRequest::Healthz
    } else if same_bytes(path, "/metrics".as_bytes()) {
        HealthRequest::Metrics
    } else {
        HealthRequest::NotFound
    }
}

/// A response with a status, the type of its body, and its body.
pub fn make_response(status: &str, content_type: &str, body: Vec<u8>) -> (made: Response)
    ensures
        made@ == response(status@, content_type@, body@),
{
    let mut header = "HTTP/1.1 ".to_string();
    header.append(status);
    header.append("\r\nContent-Type: ");
    header.append(content_type);
    header.append("\r\nContent-Length: ");
    header.append(decimal(body.len() as u64).as_str());
    header.append("\r\nConnection: close\r\n\r\n");
    Response { header, body }
}

/// A text or none, over views.
pub open spec fn text_view(text: Option<Vec<u8>>) -> Option<Seq<u8>> {
    match text {
        Some(body) => Some(body@),
        None => None,
    }
}

/// The response to a request, given the text of the metrics where there is one.
pub fn make_health_response(request: HealthRequest, metrics: Option<Vec<u8>>) -> (made: Response)
    ensures
        made@ == health_response(request, text_view(metrics)),
{
    match request {
        HealthRequest::MethodNotAllowed => make_response(
            "405 Method Not Allowed",
            "text/plain; charset=utf-8",
            slice_to_vec("method not allowed\n".as_bytes()),
        ),
        HealthRequest::Healthz => make_response(
            "200 OK",
            "text/plain; charset=utf-8",
            slice_to_vec("ok\n".as_bytes()),
        ),
        HealthRequest::NotFound => make_response(
            "404 Not Found",
            "text/plain; charset=utf-8",
            slice_to_vec("not found\n".as_bytes()),
        ),
        HealthRequest::Metrics => match metrics {
            Some(body) => make_response("200 OK", "text/plain; version=0.0.4", body),
            None => make_response(
                "500 Internal Server Error",
                "text/plain; charset=utf-8",
                slice_to_vec("metrics error\n".as_bytes()),
            ),
        },
    }
}

/// The response to the bytes of a request.
pub fn serve_request(request: &[u8], metrics: &Metrics) -> (made: Response)
    requires
        metrics.wf(),
    ensures
        made@ == health_response(
            health_request(request@),
            Some(crate::instruments::exposition(metrics@.set)),
        ),
{
    let asked = parse_health_request(request);
    let text = match asked {
        HealthRequest::Metrics => match metrics.encode() {
            Ok(text) => Some(text),
            Err(_) => None,
        },
        _ => None,
    };
    make_health_response(asked, text)
}

} // verus!
