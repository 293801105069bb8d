//! What the health endpoint answers, request by request.

use vstd::prelude::*;
use vstd::string::StringSliceAdditionalSpecFns;

use crate::http::HealthRequest;

verus! {

/// Bytes without a blank among them.
pub open spec fn unbroken(bytes: Seq<u8>) -> bool {
    forall|i: int| 0 <= i < bytes.len() ==> #[trigger] bytes[i] != 0x20
}

/// A method, a blank, a path, a blank, and whatever comes after.
pub open spec fn request_of(method: Seq<u8>, path: Seq<u8>, rest: Seq<u8>) -> Seq<u8> {
    method + seq![0x20u8] + path + seq![0x20u8] + rest
}

/// What is asked for by this method of this path.
pub open spec fn asked_for(method: Seq<u8>, path: Seq<u8>) -> HealthRequest {
    if method == "GET".spec_bytes() && path == "/healthz".spec_bytes() {
        HealthRequest::Healthz
    } else if method == "GET".spec_bytes() && path == "/metrics".spec_bytes() {
        HealthRequest::Metrics
    } else if method == "GET".spec_bytes() {
        HealthRequest::NotFound
    } else {
        HealthRequest::MethodNotAllowed
    }
}

proof fn lemma_blank_at(bytes: Seq<u8>, from: int, at: int)
    requires
        0 <= from <= at <= bytes.len(),
        forall|i: int| from <= i < at ==> #[trigger] bytes[i] != 0x20,
        at == bytes.len() || bytes[at] == 0x20,
    ensures
        crate::http::blank_at(bytes, from) == at,
    decreases at - from,
{
    if from < at {
        assert(bytes[from] != 0x20);
        lemma_blank_at(bytes, from + 1, at);
    }
}

proof fn lemma_paths()
    ensures
        "GET".spec_bytes() == seq![0x47u8, 0x45, 0x54],
        "/healthz".spec_bytes() == seq![0x2fu8, 0x68, 0x65, 0x61, 0x6c, 0x74, 0x68, 0x7a],
        "/metrics".spec_bytes() == seq![0x2fu8, 0x6d, 0x65, 0x74, 0x72, 0x69, 0x63, 0x73],
{
    reveal_strlit("GET");
    reveal_strlit("/healthz");
    reveal_strlit("/metrics");
    vstd::utf8::is_ascii_chars_encode_utf8("GET"@);
    vstd::utf8::is_ascii_chars_encode_utf8("/healthz"@);
    vstd::utf8::is_ascii_chars_encode_utf8("/metrics"@);
    assert("GET".spec_bytes() =~= seq![0x47u8, 0x45, 0x54]);
    assert("/healthz".spec_bytes() =~= seq![0x2fu8, 0x68, 0x65, 0x61, 0x6c, 0x74, 0x68, 0x7a]);
    assert("/metrics".spec_bytes() =~= seq![0x2fu8, 0x6d, 0x65, 0x74, 0x72, 0x69, 0x63, 0x73]);
}

/// The first two words of a request decide, whatever comes after them: the
/// version, headers with or without blanks, or nothing at all.
pub proof fn law_request_line_decides(method: Seq<u8>, path: Seq<u8>, rest: Seq<u8>)
    requires
        unbroken(method),
        unbroken(path),
    ensures
        crate::http::health_request(request_of(method, path, rest)) == asked_for(method, path),
        crate::http::health_request(method + seq![0x20u8] + path) == asked_for(method, path),
{
    let request = request_of(method, path, rest);
    let end = method.len() as int;
    let second = end + 1 + path.len() as int;
    assert(forall|i: int| 0 <= i < end ==> #[trigger] request[i] == method[i]);
    assert(forall|i: int| end < i < second ==> #[trigger] request[i] == path[i - end - 1]);
    lemma_blank_at(request, 0, end);
    lemma_blank_at(request, end + 1, second);
    assert(request.take(end) =~= method);
    assert(request.subrange(end + 1, second) =~= path);
    let short = method + seq![0x20u8] + path;
    assert(forall|i: int| 0 <= i < end ==> #[trigger] short[i] == method[i]);
    assert(forall|i: int| end < i < second ==> #[trigger] short[i] == path[i - end - 1]);
    lemma_blank_at(short, 0, end);
    lemma_blank_at(short, end + 1, second);
    assert(short.take(end) =~= method);
    assert(short.subrange(end + 1, second) =~= path);
}

/// A request without a blank has no path: nothing is found under it, and if it
/// is no `GET` it is not allowed.
pub proof fn law_request_without_a_path(method: Seq<u8>)
    requires
        unbroken(method),
    ensures
        crate::http::health_request(method) == if method == "GET".spec_bytes() {
            HealthRequest::NotFound
        } else {
            HealthRequest::MethodNotAllowed
        },
{
    lemma_paths();
    lemma_blank_at(method, 0, method.len() as int);
    assert(method.take(method.len() as int) =~= method);
    assert(Seq::<u8>::empty().len() != "/healthz".spec_bytes().len());
}

/// The health of the relay and its metrics are there for whoever asks for them
/// with `GET`, whatever stands behind the path.
pub proof fn law_endpoints_are_found(rest: Seq<u8>)
    ensures
        crate::http::health_request(
            request_of("GET".spec_bytes(), "/healthz".spec_bytes(), rest),
        ) == HealthRequest::Healthz,
        crate::http::health_request(
            request_of("GET".spec_bytes(), "/metrics".spec_bytes(), rest),
        ) == HealthRequest::Metrics,
{
    lemma_paths();
    law_request_line_decides("GET".spec_bytes(), "/healthz".spec_bytes(), rest);
    law_request_line_decides("GET".spec_bytes(), "/metrics".spec_bytes(), rest);
    assert("/healthz".spec_bytes()[1] != "/metrics".spec_bytes()[1]);
}

/// A header with this status, type and length.
pub open spec fn header_of(
    status: Seq<char>,
    content_type: Seq<char>,
    length: Seq<char>,
) -> Seq<char> {
    "HTTP/1.1 "@ + status + "\r\nContent-Type: "@ + content_type + "\r\nContent-Length: "@ + length
        + "\r\nConnection: close\r\n\r\n"@
}

/// A response carries its body unchanged, and a reader of its header learns how
/// long that is.
pub proof fn law_responses_tell_their_length(
    status: Seq<char>,
    content_type: Seq<char>,
    body: Seq<u8>,
)
    ensures
        ({
            let made = crate::http::response(status, content_type, body);
            let length = crate::number::decimal_digits(body.len());
            &&& made.body == body
            &&& made.header == header_of(status, content_type, length)
            &&& crate::number::decimal_value(length) == Some(body.len())
            &&& crate::number::all_digits(length)
        }),
{
    crate::number::law_written_is_read(body.len());
}

/// A relay that is asked for its health says that it is well, one that is asked
/// for its metrics tells them, and every other request is told what is wrong
/// with it.
pub proof fn law_requests_are_answered(metrics: Option<Seq<u8>>, text: Seq<u8>)
    ensures
        crate::http::health_response(HealthRequest::Healthz, metrics) == crate::http::response(
            "200 OK"@,
            "text/plain; charset=utf-8"@,
            "ok\n".spec_bytes(),
        ),
        crate::http::health_response(HealthRequest::Metrics, Some(text)) == crate::http::response(
            "200 OK"@,
            "text/plain; version=0.0.4"@,
            text,
        ),
        crate::http::health_response(HealthRequest::Metrics, None) == crate::http::response(
            "500 Internal Server Error"@,
            "text/plain; charset=utf-8"@,
            "metrics error\n".spec_bytes(),
        ),
        crate::http::health_response(HealthRequest::NotFound, metrics) == crate::http::response(
            "404 Not Found"@,
            "text/plain; charset=utf-8"@,
            "not found\n".spec_bytes(),
        ),
        crate::http::health_response(HealthRequest::MethodNotAllowed, metrics)
            == crate::http::response(
            "405 Method Not Allowed"@,
            "text/plain; charset=utf-8"@,
            "method not allowed\n".spec_bytes(),
        ),
{
}

/// A text of the metrics is served as it is.
pub proof fn law_texts_are_kept(text: Vec<u8>)
    ensures
        crate::http::text_view(Some(text)) == Some(text@),
        crate::http::text_view(None) is None,
{
}

} // verus!
