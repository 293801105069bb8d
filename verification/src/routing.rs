//! Where a classified connection goes.

use vstd::prelude::*;

use crate::address::SocketAddr;
use crate::config::{Config, SocketMarks};
use crate::metrics::CounterId;
use crate::tls::{Classification, ClassificationView};

verus! {

/// Where a connection goes, and what that is called in diagnostics.
#[derive(Debug)]
pub enum ClassifiedTarget {
    Routed { target: SocketAddr, socket_marks: Option<SocketMarks>, route_label: String },
    Fallback { target: SocketAddr, route_label: &'static str },
}

/// `ClassifiedTarget` over views.
pub enum TargetView {
    Routed { target: SocketAddr, socket_marks: Option<SocketMarks>, route_label: Seq<char> },
    Fallback { target: SocketAddr, route_label: Seq<char> },
}

impl View for ClassifiedTarget {
    type V = TargetView;

    open spec fn view(&self) -> TargetView {
        match self {
            ClassifiedTarget::Routed { target, socket_marks, route_label } => TargetView::Routed {
                target: *target,
                socket_marks: *socket_marks,
                route_label: route_label@,
            },
            ClassifiedTarget::Fallback { target, route_label } => TargetView::Fallback {
                target: *target,
                route_label: route_label@,
            },
        }
    }
}

/// Where a connection goes: to the route of its server name, or to the
/// fallback for what it is.
pub open spec fn target_of(classification: ClassificationView, config: Config) -> TargetView {
    match classification {
        ClassificationView::PlainHttp => TargetView::Fallback {
            target: config.fallbacks.plain_http,
            route_label: "plain_http"@,
        },
        ClassificationView::Tls { sni: None } => TargetView::Fallback {
            target: config.fallbacks.no_sni,
            route_label: "no_sni"@,
        },
        ClassificationView::Tls { sni: Some(name) } => if config.routes@.contains_key(name) {
            TargetView::Routed {
                target: config.routes@[name].upstream(),
                socket_marks: config.routes@[name].socket_marks(),
                route_label: name,
            }
        } else {
            TargetView::Fallback {
                target: config.fallbacks.unknown_sni,
                route_label: "unknown_sni"@,
            }
        },
    }
}

/// The counter of connections that go there.
pub open spec fn target_counter(
    classification: ClassificationView,
    config: Config,
) -> CounterId {
    match classification {
        ClassificationView::PlainHttp => CounterId::FallbackPlainHttp,
        ClassificationView::Tls { sni: None } => CounterId::FallbackNoSni,
        ClassificationView::Tls { sni: Some(name) } => if config.routes@.contains_key(name) {
            CounterId::Routed
        } else {
            CounterId::FallbackUnknownSni
        },
    }
}

/// Where a connection goes, and the counter for it.
pub fn classify_target(classification: Classification, config: &Config) -> (target: (
    ClassifiedTarget,
    CounterId,
))
    ensures
        target.0@ == target_of(classification@, *config),
        target.1 == target_counter(classification@, *config),
{
    match classification {
        Classification::PlainHttp => (
            ClassifiedTarget::Fallback {
                target: config.fallbacks.plain_http,
                route_label: "plain_http",
            },
            CounterId::FallbackPlainHttp,
        ),
        Classification::Tls { sni: None } => (
            ClassifiedTarget::Fallback { target: config.fallbacks.no_sni, route_label: "no_sni" },
            CounterId::FallbackNoSni,
        ),
        Classification::Tls { sni: Some(name) } => match config.routes.get(name.as_str()) {
            Some(route) => (
                ClassifiedTarget::Routed {
                    target: route.upstream(),
                    socket_marks: route.socket_marks(),
                    route_label: name,
                },
                CounterId::Routed,
            ),
            None => (
                ClassifiedTarget::Fallback {
                    target: config.fallbacks.unknown_sni,
                    route_label: "unknown_sni",
                },
                CounterId::FallbackUnknownSni,
            ),
        },
    }
}

/// The address of a target.
pub open spec fn target_address(target: TargetView) -> SocketAddr {
    match target {
        TargetView::Routed { target, .. } => target,
        TargetView::Fallback { target, .. } => target,
    }
}

/// Whatever a client sends, it is connected to a loopback address, and the
/// marks of its sockets are distinct and not zero.
pub proof fn law_targets_are_local(classification: ClassificationView, config: Config)
    requires
        config.valid(),
    ensures
        crate::config::local(target_address(target_of(classification, config))),
        target_of(classification, config) matches TargetView::Routed {
            socket_marks: Some(marks),
            ..
        } ==> marks.upload != 0 && marks.download != 0 && marks.upload != marks.download,
{
}

/// Routes are exact: a stream goes to a route if and only if it is a
/// ClientHello whose server name, in normal form, is that route's.
pub proof fn law_routes_are_exact(stream: Seq<u8>, config: Config)
    requires
        config.valid(),
    ensures
        crate::tls::stream_outcome(stream) matches crate::tls::Outcome::Complete(classification)
            ==> (target_of(classification, config) is Routed <==> exists|name: Seq<char>|
            classification == (ClassificationView::Tls { sni: Some(name) })
                && #[trigger] config.routes@.contains_key(name)),
{
}

/// A configured route is reached: where a document gives a hostname a route, in
/// whatever case and with or without a final dot, a stream that asks for that
/// hostname goes to that route's upstream.
pub proof fn law_configured_route_is_reached(
    document: crate::config::ConfigDocument,
    config: Config,
    i: int,
    asked: Seq<char>,
)
    requires
        crate::config::document_problem(document) is None,
        crate::config::says(config, document),
        0 <= i < document.routes@.len(),
        crate::hostname::normalized_route_name(document.routes@[i].0@) == Ok::<
            Seq<char>,
            Seq<char>,
        >(asked),
    ensures
        target_of(ClassificationView::Tls { sni: Some(asked) }, config) == (TargetView::Routed {
            target: document.routes@[i].1.upstream(),
            socket_marks: document.routes@[i].1.socket_marks(),
            route_label: asked,
        }),
{
    crate::config_laws::law_route_table_is_exact(document.routes@);
}

/// A client reaches the route that it asks for: where a document gives a
/// hostname a route, a stream of records that starts with a ClientHello for
/// that hostname, however it is cut and whatever follows it, goes to that
/// route's upstream.
pub proof fn law_written_hello_reaches_its_route(
    document: crate::config::ConfigDocument,
    config: Config,
    i: int,
    hello: crate::hello_laws::Hello,
    records: Seq<(u8, Seq<u8>)>,
    asked: Seq<char>,
)
    requires
        crate::config::document_problem(document) is None,
        crate::config::says(config, document),
        0 <= i < document.routes@.len(),
        crate::hostname::normalized_route_name(document.routes@[i].0@) == Ok::<
            Seq<char>,
            Seq<char>,
        >(asked),
        hello.well_formed(),
        hello.sni() == Ok::<Option<Seq<char>>, Seq<char>>(Some(asked)),
        crate::hello_laws::message_wire(
            crate::tls::CLIENT_HELLO,
            hello.wire(),
        ).is_prefix_of(crate::hello_laws::payloads(records)),
        forall|j: int|
            0 <= j < records.len() ==> crate::hello_laws::fits_record(
                (#[trigger] records[j]).0,
                records[j].1,
            ),
    ensures
        crate::tls::stream_outcome(crate::hello_laws::records_wire(records)) matches
            crate::tls::Outcome::Complete(classification) && target_of(classification, config) == (
            TargetView::Routed {
                target: document.routes@[i].1.upstream(),
                socket_marks: document.routes@[i].1.socket_marks(),
                route_label: asked,
            }),
{
    crate::hello_laws::law_cut_hello_is_read(hello, records);
    law_configured_route_is_reached(document, config, i, asked);
}

/// A connection that asks for a host with a route goes to that route's upstream,
/// under the route's marks and its name.
pub proof fn law_routed_connections_go_to_their_route(config: Config, name: Seq<char>)
    requires
        config.routes@.contains_key(name),
    ensures
        ({
            let asked = ClassificationView::Tls { sni: Some(name) };
            &&& target_of(asked, config) == match config.routes@[name] {
                crate::config::Route::Plain(upstream) => TargetView::Routed {
                    target: upstream,
                    socket_marks: None,
                    route_label: name,
                },
                crate::config::Route::Marked { upstream, socket_marks } => TargetView::Routed {
                    target: upstream,
                    socket_marks: Some(socket_marks),
                    route_label: name,
                },
            }
            &&& target_counter(asked, config) == CounterId::Routed
        }),
{
}

/// Every other connection goes to the fallback for what it is: a host without a
/// route, no host, or no TLS.
pub proof fn law_other_connections_go_to_a_fallback(config: Config, name: Seq<char>)
    requires
        !config.routes@.contains_key(name),
    ensures
        target_of(ClassificationView::Tls { sni: Some(name) }, config) == (TargetView::Fallback {
            target: config.fallbacks.unknown_sni,
            route_label: "unknown_sni"@,
        }),
        target_of(ClassificationView::Tls { sni: None }, config) == (TargetView::Fallback {
            target: config.fallbacks.no_sni,
            route_label: "no_sni"@,
        }),
        target_of(ClassificationView::PlainHttp, config) == (TargetView::Fallback {
            target: config.fallbacks.plain_http,
            route_label: "plain_http"@,
        }),
        target_counter(ClassificationView::Tls { sni: Some(name) }, config)
            == CounterId::FallbackUnknownSni,
        target_counter(ClassificationView::Tls { sni: None }, config) == CounterId::FallbackNoSni,
        target_counter(ClassificationView::PlainHttp, config) == CounterId::FallbackPlainHttp,
{
}

/// A target is seen as what it is.
pub proof fn law_targets_are_seen(target: ClassifiedTarget)
    ensures
        match target {
            ClassifiedTarget::Routed { target: address, socket_marks, route_label } => target@ == (
            TargetView::Routed { target: address, socket_marks, route_label: route_label@ }),
            ClassifiedTarget::Fallback { target: address, route_label } => target@ == (
            TargetView::Fallback { target: address, route_label: route_label@ }),
        },
{
}

} // verus!
