//! What the relay does with a connection: where it goes, how its sockets are
//! marked, whether it is let on, and what is told of it.

use vstd::prelude::*;

use crate::address::{IpAddr, SocketAddr};
use crate::admission::Rejection;
use crate::config::{Config, ConfigError, Route};
use crate::metrics::{CounterId, GaugeId, MetricsView, UpstreamClass};
use crate::proxy::{Proxy, ProxyEvent, ProxyState};
use crate::relay::{DirectionSide, RelayView, ReloadAction, ReloadRefusal, Session};
use crate::tls::ClassificationView;

verus! {

/// A connection that asks for a host with a route goes to the upstream of that
/// route, and its sockets are marked as that route says: with both of its marks
/// where it is marked, and not at all where it is not.
pub proof fn law_session_is_that_of_its_route(
    session: Session,
    config: Config,
    source: IpAddr,
    name: Seq<char>,
)
    requires
        config.routes@.contains_key(name),
        crate::relay::session_for(
            session,
            crate::routing::target_of(ClassificationView::Tls { sni: Some(name) }, config),
            config,
            source,
        ),
    ensures
        session.source == source,
        session.class == UpstreamClass::Routed,
        session.route_label@ == name,
        session.lifetime is None,
        match config.routes@[name] {
            Route::Plain(upstream) => session.upstream == upstream && session.socket_marks is None,
            Route::Marked { upstream, socket_marks } => {
                &&& session.upstream == upstream
                &&& session.socket_marks matches Some(marks) && marks.upload == socket_marks.upload
                    && marks.download == socket_marks.download
            },
        },
{
}

/// A connection that asks for a host without a route, for no host, or for no
/// TLS goes to the fallback for just that, without marks, and may last as long
/// as a fallback connection may.
pub proof fn law_session_is_that_of_its_fallback(
    session: Session,
    classification: ClassificationView,
    config: Config,
    source: IpAddr,
)
    requires
        classification matches ClassificationView::Tls { sni: Some(name) }
            ==> !config.routes@.contains_key(name),
        crate::relay::session_for(
            session,
            crate::routing::target_of(classification, config),
            config,
            source,
        ),
    ensures
        session.source == source,
        session.class == UpstreamClass::Fallback,
        session.socket_marks is None,
        session.lifetime matches Some(lifetime) && crate::config::nanoseconds(lifetime)
            == config.limits.fallback_lifetime_timeout_ms * 1_000_000,
        match classification {
            ClassificationView::Tls { sni: Some(_) } => session.upstream
                == config.fallbacks.unknown_sni && session.route_label@ == "unknown_sni"@,
            ClassificationView::Tls { sni: None } => session.upstream == config.fallbacks.no_sni
                && session.route_label@ == "no_sni"@,
            ClassificationView::PlainHttp => session.upstream == config.fallbacks.plain_http
                && session.route_label@ == "plain_http"@,
        },
{
}

/// The connection asks for a host that has a route.
pub open spec fn has_route(classification: ClassificationView, config: Config) -> bool {
    classification matches ClassificationView::Tls { sni: Some(name) }
        && config.routes@.contains_key(name)
}

/// A connection with a route is let on wherever its source and the routed pool
/// have room, and one without wherever the pool of the fallbacks has; it is
/// refused for the limit that it meets and for no other reason.
pub proof fn law_connections_are_let_on(
    view: RelayView,
    classification: ClassificationView,
    config: Config,
    source: IpAddr,
)
    ensures
        ({
            let rejection = view.classified(classification, config, source).1;
            let limits = view.admission.limits;
            let count = crate::admission_laws::routed_of(view.admission, source);
            if has_route(classification, config) {
                &&& rejection == Some(Rejection::RoutedSource) <==> count
                    >= limits.routed_max_connections_per_source
                &&& rejection == Some(Rejection::Routed) <==> count
                    < limits.routed_max_connections_per_source && view.admission.routed
                    >= limits.routed_max_connections
                &&& rejection is None <==> count < limits.routed_max_connections_per_source
                    && view.admission.routed < limits.routed_max_connections
            } else {
                &&& rejection == Some(Rejection::Fallback) <==> view.admission.fallback
                    >= limits.fallback_max_connections
                &&& rejection is None <==> view.admission.fallback
                    < limits.fallback_max_connections
            }
        }),
{
}

/// The counter for where a connection goes.
pub open spec fn kind_counter(classification: ClassificationView, config: Config) -> CounterId {
    if has_route(classification, config) {
        CounterId::Routed
    } else {
        match classification {
            ClassificationView::Tls { sni: Some(_) } => CounterId::FallbackUnknownSni,
            ClassificationView::Tls { sni: None } => CounterId::FallbackNoSni,
            ClassificationView::PlainHttp => CounterId::FallbackPlainHttp,
        }
    }
}

/// A connection that is classified is counted once for where it goes, and once
/// more under the limit that it met where it was refused. A gauge moves with
/// each pool that it leaves or comes to.
pub proof fn law_classified_connections_are_counted(
    view: RelayView,
    classification: ClassificationView,
    config: Config,
    source: IpAddr,
)
    requires
        view.wf(),
        view.admission.pre_parse > 0,
    ensures
        ({
            let (after, rejection) = view.classified(classification, config, source);
            let routed = has_route(classification, config);
            &&& crate::metrics_laws::counted_by(
                view.metrics,
                after.metrics,
                |id: CounterId|
                    if id == kind_counter(classification, config) || (rejection is Some && routed
                        && id == CounterId::RejectedRouted) || (rejection == Some(
                        Rejection::RoutedSource,
                    ) && id == CounterId::RejectedRoutedSource) || (rejection is Some && !routed
                        && id == CounterId::RejectedFallback) {
                        1
                    } else {
                        0
                    },
            )
            &&& crate::metrics_laws::moved_by(
                view.metrics,
                after.metrics,
                |id: GaugeId|
                    if id == GaugeId::ActivePreParse || (id == GaugeId::Active && rejection
                        is Some) {
                        -1
                    } else if rejection is None && routed && (id == GaugeId::ActiveRouted || id
                        == GaugeId::ActiveRoutedEstablished) {
                        1
                    } else if rejection is None && !routed && id == GaugeId::ActiveFallback {
                        1
                    } else {
                        0
                    },
            )
            &&& crate::metrics_laws::routes_as_before(view.metrics, after.metrics)
            &&& after.admission.limits == view.admission.limits
            &&& after.admission.pre_parse == view.admission.pre_parse - 1
            &&& after.admission.routed == view.admission.routed + if rejection is None && routed {
                1int
            } else {
                0
            }
            &&& after.admission.fallback == view.admission.fallback + if rejection is None
                && !routed {
                1int
            } else {
                0
            }
        }),
{
    lemma_gauges_fit(view);
}

proof fn lemma_gauges_fit(view: RelayView)
    requires
        view.wf(),
    ensures
        forall|id: GaugeId| 0 <= #[trigger] view.metrics.gauge(id) < i64::MAX,
{
}

/// A connection that comes in is let in where there is room before the routing
/// decision, and is then counted and told as active; where there is none it is
/// counted as rejected and nothing else.
pub proof fn law_accepted_connections_are_counted(view: RelayView)
    requires
        view.wf(),
    ensures
        ({
            let after = view.accept();
            let room = view.admission.pre_parse < view.admission.limits.pre_parse_max_connections;
            &&& crate::metrics_laws::counted_by(
                view.metrics,
                after.metrics,
                |id: CounterId|
                    if (room && id == CounterId::Accepted) || (!room && id
                        == CounterId::RejectedPreParse) {
                        1
                    } else {
                        0
                    },
            )
            &&& crate::metrics_laws::moved_by(
                view.metrics,
                after.metrics,
                |id: GaugeId|
                    if room && (id == GaugeId::Active || id == GaugeId::ActivePreParse) {
                        1
                    } else {
                        0
                    },
            )
            &&& crate::metrics_laws::routes_as_before(view.metrics, after.metrics)
            &&& !room ==> after.admission == view.admission
            &&& room ==> after.admission.pre_parse == view.admission.pre_parse + 1
            &&& after.admission.routed == view.admission.routed
            &&& after.admission.fallback == view.admission.fallback
            &&& after.admission.sources == view.admission.sources
            &&& after.admission.limits == view.admission.limits
        }),
{
    lemma_gauges_fit(view);
}

/// A connection that is closed before the routing decision, or that ends after
/// it, is no longer told as active, and its place is free again.
pub proof fn law_ended_connections_leave(
    view: RelayView,
    class: UpstreamClass,
    source: IpAddr,
)
    requires
        view.wf(),
    ensures
        view.admission.pre_parse > 0 ==> {
            let after = view.close_early();
            &&& after.metrics.set.counters == view.metrics.set.counters
            &&& crate::metrics_laws::moved_by(
                view.metrics,
                after.metrics,
                |id: GaugeId|
                    if id == GaugeId::Active || id == GaugeId::ActivePreParse {
                        -1
                    } else {
                        0
                    },
            )
            &&& crate::metrics_laws::routes_as_before(view.metrics, after.metrics)
            &&& after.admission.pre_parse == view.admission.pre_parse - 1
            &&& after.admission.routed == view.admission.routed
            &&& after.admission.fallback == view.admission.fallback
            &&& after.admission.sources == view.admission.sources
            &&& after.admission.limits == view.admission.limits
        },
        class == UpstreamClass::Routed && view.admission.routed > 0 && crate::admission_laws::routed_of(
            view.admission,
            source,
        ) > 0 ==> {
            let after = view.finish(class, source);
            &&& after.metrics.set.counters == view.metrics.set.counters
            &&& crate::metrics_laws::moved_by(
                view.metrics,
                after.metrics,
                |id: GaugeId|
                    if id == GaugeId::Active || id == GaugeId::ActiveRouted || id
                        == GaugeId::ActiveRoutedEstablished {
                        -1
                    } else {
                        0
                    },
            )
            &&& crate::metrics_laws::routes_as_before(view.metrics, after.metrics)
            &&& after.admission.routed == view.admission.routed - 1
            &&& crate::admission_laws::routed_of(after.admission, source) == crate::admission_laws::routed_of(view.admission, source) - 1
            &&& after.admission.pre_parse == view.admission.pre_parse
            &&& after.admission.fallback == view.admission.fallback
            &&& after.admission.limits == view.admission.limits
        },
        class == UpstreamClass::Fallback && view.admission.fallback > 0 ==> {
            let after = view.finish(class, source);
            &&& after.metrics.set.counters == view.metrics.set.counters
            &&& crate::metrics_laws::moved_by(
                view.metrics,
                after.metrics,
                |id: GaugeId|
                    if id == GaugeId::Active || id == GaugeId::ActiveFallback {
                        -1
                    } else {
                        0
                    },
            )
            &&& crate::metrics_laws::routes_as_before(view.metrics, after.metrics)
            &&& after.admission.fallback == view.admission.fallback - 1
            &&& after.admission.pre_parse == view.admission.pre_parse
            &&& after.admission.routed == view.admission.routed
            &&& after.admission.sources == view.admission.sources
            &&& after.admission.limits == view.admission.limits
        },
{
    lemma_gauges_fit(view);
}

/// The gauges tell how many connections there are, in each pool and in all.
pub proof fn law_gauges_tell_the_pools(view: RelayView)
    requires
        view.wf(),
    ensures
        view.metrics.gauge(GaugeId::ActivePreParse) == view.admission.pre_parse,
        view.metrics.gauge(GaugeId::ActiveRouted) == view.admission.routed,
        view.metrics.gauge(GaugeId::ActiveRoutedEstablished) == view.admission.routed,
        view.metrics.gauge(GaugeId::ActiveFallback) == view.admission.fallback,
        view.metrics.gauge(GaugeId::Active) == view.admission.pre_parse + view.admission.routed
            + view.admission.fallback,
{
}

/// The bytes of each direction are counted for that direction.
pub proof fn law_bytes_are_counted_by_direction()
    ensures
        crate::relay::bytes_counter(DirectionSide::ClientToUpstream)
            == CounterId::BytesClientToUpstream,
        crate::relay::bytes_counter(DirectionSide::UpstreamToClient)
            == CounterId::BytesUpstreamToClient,
{
}

/// A configuration that was read again is taken over, unchanged, if and only if
/// it could be read and keeps the addresses and the limits that the relay runs
/// with. The refusal names what it does not keep.
pub proof fn law_reload_takes_over_what_fits(
    reloaded: Result<Config, ConfigError>,
    limits: crate::config::Admission,
    listen: SocketAddr,
    health: SocketAddr,
)
    ensures
        ({
            let answer = crate::relay::reload_answer(reloaded, limits, listen, health);
            match reloaded {
                Ok(config) => {
                    let addresses = config.bind == listen && config.health_bind == health;
                    &&& answer == ReloadAction::Store(config) <==> addresses && config.admission
                        == limits
                    &&& answer == ReloadAction::Refuse(ReloadRefusal::AddressesChanged)
                        <==> !addresses
                    &&& answer == ReloadAction::Refuse(ReloadRefusal::AdmissionChanged)
                        <==> addresses && config.admission != limits
                },
                Err(error) => answer == ReloadAction::Refuse(ReloadRefusal::Invalid(error)),
            }
        }),
{
}

/// A step of a session is counted for what it is: a connect by its outcome, for
/// its class and its route, and the bytes that were sent on once they are
/// there. Nothing else is counted.
pub proof fn law_steps_are_counted(metrics: MetricsView, proxy: Proxy, event: ProxyEvent)
    requires
        proxy.can(event),
    ensures
        ({
            let after = crate::proxy::counted_step(metrics, proxy, event);
            &&& proxy.state == ProxyState::Connecting && event == ProxyEvent::Done ==> after
                == crate::metrics::connect_succeeded(metrics, proxy.class)
            &&& proxy.state == ProxyState::Connecting && (event == ProxyEvent::Failed || event
                == ProxyEvent::ConnectTimedOut) ==> after == crate::metrics::connect_failed(
                metrics,
                proxy.class,
                proxy.route_label@,
            )
            &&& proxy.state == ProxyState::Connecting && event == ProxyEvent::LifetimeOver
                ==> after == metrics
            &&& proxy.state == ProxyState::Replaying && event == ProxyEvent::Done ==> after
                == metrics.count(CounterId::BytesClientToUpstream, proxy.replay_len as nat)
            &&& proxy.state == ProxyState::Replaying && event != ProxyEvent::Done ==> after
                == metrics
            &&& proxy.state == ProxyState::Marking || proxy.state == ProxyState::Relaying ==> after
                == metrics
        }),
{
}

/// What the relay is for: where a configuration gives a host a route, a client
/// that asks for that host, in whatever case and with or without dots at the
/// end, however its ClientHello is cut, is classified by that host, and once it
/// is let on it has a session to that route's upstream with that route's marks.
pub proof fn law_client_reaches_its_route(
    document: crate::config::ConfigDocument,
    config: Config,
    i: int,
    before: Seq<char>,
    written: Seq<char>,
    after: Seq<char>,
    asked: Seq<char>,
    n: nat,
    hello: crate::hello_laws::Hello,
    k: int,
    names: Seq<(u8, Seq<u8>)>,
    m: int,
    records: Seq<(u8, Seq<u8>)>,
    more: Seq<u8>,
    limit: int,
    session: Session,
    source: IpAddr,
    host: Seq<char>,
)
    requires
        crate::config::document_problem(document) is None,
        crate::config::says(config, document),
        0 <= i < document.routes@.len(),
        crate::hostname_laws::blank(before),
        crate::hostname_laws::blank(after),
        document.routes@[i].0@ == before + written + after,
        crate::hostname_laws::spelled(written),
        written.len() <= 253,
        crate::hostname_laws::is_small_of(host, written),
        crate::hostname_laws::spelled(asked),
        asked.len() + n <= 253,
        crate::hostname_laws::is_small_of(host, asked),
        hello.well_formed(),
        crate::stream_laws::asks_for(hello, k, names, m, asked + crate::hostname_laws::dots(n)),
        crate::stream_laws::in_records(crate::stream_laws::hello_message(hello), records),
        crate::relay::session_for(
            session,
            crate::routing::target_of(ClassificationView::Tls { sni: Some(host) }, config),
            config,
            source,
        ),
    ensures
        crate::hello_reader::stream_action(
            crate::hello_laws::records_wire(records) + more,
            limit,
        ) == crate::hello_reader::ReadActionView::Done(ClassificationView::Tls { sni: Some(host) }),
        session.class == UpstreamClass::Routed,
        session.source == source,
        session.route_label@ == host,
        match document.routes@[i].1 {
            Route::Plain(upstream) => session.upstream == upstream && session.socket_marks is None,
            Route::Marked { upstream, socket_marks } => session.upstream == upstream
                && session.socket_marks == Some(socket_marks),
        },
{
    assert(written + crate::hostname_laws::dots(0) =~= written);
    crate::hostname_laws::law_route_names_are_taken(before, written, 0, after, host);
    crate::routing::law_configured_route_is_reached(document, config, i, host);
    crate::hello_reader::law_reader_tells_the_server_name(
        hello,
        k,
        names,
        m,
        asked,
        n,
        host,
        records,
        more,
        limit,
    );
}

/// A session holds a place of its source where it is routed, and one of the
/// fallbacks where it is not.
pub proof fn law_sessions_hold_a_place(view: RelayView, session: Session)
    ensures
        session.class == UpstreamClass::Routed ==> (crate::relay::session_held(view, session)
            <==> crate::admission_laws::routed_of(view.admission, session.source) > 0),
        session.class == UpstreamClass::Fallback ==> (crate::relay::session_held(view, session)
            <==> view.admission.fallback > 0),
{
}

/// A relay without a configuration that it can take over keeps the one that it
/// has; otherwise it has the new one.
pub proof fn law_configuration_after_a_reload(current: Config, answer: ReloadAction)
    ensures
        answer matches ReloadAction::Store(config) ==> crate::relay::config_after(current, answer)
            == config,
        answer is Refuse ==> crate::relay::config_after(current, answer) == current,
{
}

} // verus!
