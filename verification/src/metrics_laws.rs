//! What the metrics tell: each event under its own name, and nothing else.

use vstd::prelude::*;

use crate::instruments::ChildView;
use crate::metrics::{CounterId, GaugeId, MetricsView, UpstreamClass};

verus! {

/// The name under which a counter is told.
pub open spec fn counter_name(id: CounterId) -> Seq<char> {
    match id {
        CounterId::Accepted => "sni_router_connections_accepted_total"@,
        CounterId::RejectedPreParse => "sni_router_admission_rejected_pre_parse_total"@,
        CounterId::RejectedRouted => "sni_router_admission_rejected_routed_total"@,
        CounterId::RejectedRoutedSource => "sni_router_admission_rejected_routed_source_total"@,
        CounterId::RejectedFallback => "sni_router_admission_rejected_fallback_total"@,
        CounterId::Routed => "sni_router_connections_routed_total"@,
        CounterId::FallbackUnknownSni => "sni_router_fallback_unknown_sni_total"@,
        CounterId::FallbackNoSni => "sni_router_fallback_no_sni_total"@,
        CounterId::FallbackPlainHttp => "sni_router_fallback_plain_http_total"@,
        CounterId::ParseErrors => "sni_router_parse_errors_total"@,
        CounterId::ConnectErrors => "sni_router_connect_errors_total"@,
        CounterId::ConnectSuccesses => "sni_router_connect_successes_total"@,
        CounterId::RoutedConnectErrors => "sni_router_routed_connect_errors_total"@,
        CounterId::RoutedConnectSuccesses => "sni_router_routed_connect_successes_total"@,
        CounterId::FallbackConnectErrors => "sni_router_fallback_connect_errors_total"@,
        CounterId::FallbackConnectSuccesses => "sni_router_fallback_connect_successes_total"@,
        CounterId::ReloadSuccess => "sni_router_reload_success_total"@,
        CounterId::ReloadErrors => "sni_router_reload_errors_total"@,
        CounterId::BytesClientToUpstream => "sni_router_bytes_client_to_upstream_total"@,
        CounterId::BytesUpstreamToClient => "sni_router_bytes_upstream_to_client_total"@,
    }
}

/// The name under which a gauge is told.
pub open spec fn gauge_name(id: GaugeId) -> Seq<char> {
    match id {
        GaugeId::Active => "sni_router_connections_active"@,
        GaugeId::ActivePreParse => "sni_router_connections_active_pre_parse"@,
        GaugeId::ActiveRouted => "sni_router_connections_active_routed"@,
        GaugeId::ActiveRoutedEstablished => "sni_router_connections_active_routed_established"@,
        GaugeId::ActiveFallback => "sni_router_connections_active_fallback"@,
    }
}

/// The value that is told under the name of a counter is that of the counter,
/// and so for the gauges.
pub proof fn law_values_stand_under_their_names(view: MetricsView, id: CounterId, gauge: GaugeId)
    requires
        crate::metrics::metrics_wf(view),
    ensures
        exists|i: int|
            0 <= i < view.set.counters.len() && #[trigger] view.set.counter_names[i]
                == counter_name(id) && view.set.counters[i] == view.counter(id),
        exists|i: int|
            0 <= i < view.set.gauges.len() && #[trigger] view.set.gauge_names[i] == gauge_name(
                gauge,
            ) && view.set.gauges[i] == view.gauge(gauge),
{
    let i = id.index() as int;
    let j = gauge.index() as int;
    assert(view.set.counter_names[i] == crate::metrics::counters()[i].name@);
    assert(view.set.gauge_names[j] == crate::metrics::gauges()[j].name@);
}

/// Each counter went up by so much, and wrapped around past the greatest 64-bit
/// number.
pub open spec fn counted_by(
    before: MetricsView,
    after: MetricsView,
    step: spec_fn(CounterId) -> nat,
) -> bool {
    forall|id: CounterId| #[trigger]
        after.counter(id) == if step(id) == 0 {
            before.counter(id)
        } else {
            (before.counter(id) + step(id)) % 0x1_0000_0000_0000_0000
        }
}

/// Each gauge moved by so much.
pub open spec fn moved_by(
    before: MetricsView,
    after: MetricsView,
    step: spec_fn(GaugeId) -> int,
) -> bool {
    forall|id: GaugeId| #[trigger] after.gauge(id) == before.gauge(id) + step(id)
}

/// The connect errors by route are as they were, and so are the pairs of class
/// and route that are told apart.
pub open spec fn routes_as_before(before: MetricsView, after: MetricsView) -> bool {
    after.set.family == before.set.family && after.retained == before.retained
}

/// What is counted for one counter is counted for no other.
pub proof fn law_counters_are_separate(view: MetricsView, id: CounterId, amount: nat)
    requires
        view.set.counters.len() == 20,
    ensures
        ({
            let after = view.count(id, amount);
            &&& after.counter(id) == (view.counter(id) + amount) % 0x1_0000_0000_0000_0000
            &&& forall|other: CounterId|
                other != id ==> #[trigger] after.counter(other) == view.counter(other)
            &&& after.set.gauges == view.set.gauges
            &&& routes_as_before(view, after)
        }),
{
}

/// A gauge that moves moves alone.
pub proof fn law_gauges_are_separate(view: MetricsView, id: GaugeId, by: int)
    requires
        view.set.gauges.len() == 5,
        i64::MIN <= view.gauge(id) + by <= i64::MAX,
    ensures
        ({
            let after = view.shift(id, by);
            &&& after.gauge(id) == view.gauge(id) + by
            &&& forall|other: GaugeId|
                other != id ==> #[trigger] after.gauge(other) == view.gauge(other)
            &&& after.set.counters == view.set.counters
            &&& routes_as_before(view, after)
        }),
{
}

/// Metrics start at zero.
pub proof fn law_metrics_start_at_zero(id: CounterId, gauge: GaugeId)
    ensures
        ({
            let view = crate::metrics::fresh_metrics();
            &&& crate::metrics::metrics_wf(view)
            &&& view.counter(id) == 0
            &&& view.gauge(gauge) == 0
            &&& view.retained == Set::<Seq<char>>::empty()
            &&& crate::metrics::errors_by_route(view) == Map::<u64, ChildView>::empty()
            &&& view.set.family matches Some(family) && {
                &&& family.name == "sni_router_connect_errors_by_route_total"@
                &&& family.first == "class"@
                &&& family.second == "route"@
            }
        }),
{
    let view = crate::metrics::fresh_metrics();
    assert(view.set.counters.len() == 20);
    assert(view.set.gauges.len() == 5);
}

/// A connect that succeeds is counted once in all and once for its class.
pub proof fn law_connect_successes_are_counted(view: MetricsView, class: UpstreamClass)
    requires
        crate::metrics::metrics_wf(view),
    ensures
        ({
            let after = crate::metrics::connect_succeeded(view, class);
            &&& counted_by(
                view,
                after,
                |id: CounterId|
                    if id == CounterId::ConnectSuccesses || (class == UpstreamClass::Routed && id
                        == CounterId::RoutedConnectSuccesses) || (class == UpstreamClass::Fallback
                        && id == CounterId::FallbackConnectSuccesses) {
                        1
                    } else {
                        0
                    },
            )
            &&& after.set.gauges == view.set.gauges
            &&& routes_as_before(view, after)
        }),
{
}

/// The label of a class.
pub open spec fn label_of(class: UpstreamClass) -> Seq<char> {
    match class {
        UpstreamClass::Routed => "routed"@,
        UpstreamClass::Fallback => "fallback"@,
    }
}

/// The connect errors that are told for a class under a label.
pub open spec fn errors_told(view: MetricsView, class: UpstreamClass, label: Seq<char>) -> nat {
    let key = crate::instruments::label_key(label_of(class), label);
    if crate::metrics::errors_by_route(view).contains_key(key) {
        crate::metrics::errors_by_route(view)[key].value
    } else {
        0
    }
}

/// A connect that fails is counted once in all, once for its class, and once
/// for its class and the label of its route.
pub proof fn law_connect_errors_are_counted(view: MetricsView, class: UpstreamClass, route: Seq<char>)
    requires
        crate::metrics::metrics_wf(view),
    ensures
        ({
            let after = crate::metrics::connect_failed(view, class, route);
            let label = crate::metrics::route_label(view.retained, class, route);
            &&& counted_by(
                view,
                after,
                |id: CounterId|
                    if id == CounterId::ConnectErrors || (class == UpstreamClass::Routed && id
                        == CounterId::RoutedConnectErrors) || (class == UpstreamClass::Fallback && id
                        == CounterId::FallbackConnectErrors) {
                        1
                    } else {
                        0
                    },
            )
            &&& after.set.gauges == view.set.gauges
            &&& errors_told(after, class, label) == (errors_told(view, class, label) + 1)
                % 0x1_0000_0000_0000_0000
            &&& forall|key: u64|
                key != crate::instruments::label_key(label_of(class), label) ==> {
                    &&& #[trigger] crate::metrics::errors_by_route(after).contains_key(key)
                        <==> crate::metrics::errors_by_route(view).contains_key(key)
                    &&& crate::metrics::errors_by_route(view).contains_key(key)
                        ==> crate::metrics::errors_by_route(after)[key]
                        == crate::metrics::errors_by_route(view)[key]
                }
        }),
{
}

/// A route is told under its own name while fewer than 256 pairs of class and
/// route are told apart, and from then on if it is one of them. Any other is
/// told under the overflow label.
pub proof fn law_routes_are_told_by_name(
    retained: Set<Seq<char>>,
    class: UpstreamClass,
    route: Seq<char>,
)
    requires
        retained.finite(),
    ensures
        ({
            let label = crate::metrics::route_label(retained, class, route);
            let after = crate::metrics::retained_after(retained, class, route);
            let key = label_of(class) + seq!['\0'] + route;
            &&& retained.len() < 256 ==> label == route && after == retained.insert(key)
            &&& retained.len() >= 256 ==> after == retained
            &&& retained.len() >= 256 && retained.contains(key) ==> label == route
            &&& retained.len() >= 256 && !retained.contains(key) ==> label == "__overflow__"@
        }),
{
}

/// A class is told under its label.
pub proof fn law_classes_have_labels(class: UpstreamClass)
    ensures
        crate::metrics::class_label(class) == label_of(class),
{
}

} // verus!
