//! The relay's metrics.

use vstd::hash_set::StringHashSet;
use vstd::prelude::*;

use crate::instruments::{Descriptor, FamilyView, MetricSet, MetricSetView};

verus! {

/// How many pairs of class and route are told apart in connect errors.
///
/// Route labels come from validated exact hostnames or are one of the three
/// fixed fallback labels. A reload can nevertheless bring an unlimited sequence
/// of different routes over the lifetime of a process.
pub const MAX_RETAINED_CONNECT_ERROR_ROUTES: usize = 256;

/// The label of all routes past that.
pub const OVERFLOW_ROUTE_LABEL: &'static str = "__overflow__";

/// What kind of upstream a connection goes to.
#[derive(Clone, Copy, Debug, PartialEq, Eq, Structural)]
pub enum UpstreamClass {
    Routed,
    Fallback,
}

/// The label of a class.
pub open spec fn class_label(class: UpstreamClass) -> Seq<char> {
    match class {
        UpstreamClass::Routed => "routed"@,
        UpstreamClass::Fallback => "fallback"@,
    }
}

impl UpstreamClass {
    /// The label under which connect errors are counted.
    pub fn label(self) -> (label: &'static str)
        ensures
            label@ == class_label(self),
    {
        match self {
            UpstreamClass::Routed => "routed",
            UpstreamClass::Fallback => "fallback",
        }
    }
}

/// The counters of the relay.
#[derive(Clone, Copy, Debug, PartialEq, Eq, Structural)]
pub enum CounterId {
    /// Accepted connections.
    Accepted,
    /// Connections rejected because pre-parse admission was full.
    RejectedPreParse,
    /// Exact-SNI connections rejected because routed admission was full.
    RejectedRouted,
    /// Exact-SNI connections rejected by the per-source active-session limit.
    RejectedRoutedSource,
    /// Fallback connections rejected because fallback admission was full.
    RejectedFallback,
    /// Exact SNI route matches.
    Routed,
    /// Connections sent to the unknown-SNI fallback.
    FallbackUnknownSni,
    /// TLS connections sent to the no-SNI fallback.
    FallbackNoSni,
    /// Plain HTTP connections sent to its fallback.
    FallbackPlainHttp,
    /// Rejected initial messages.
    ParseErrors,
    /// Upstream connect failures.
    ConnectErrors,
    /// Successful upstream connections.
    ConnectSuccesses,
    /// Upstream connect failures for exact-SNI routes.
    RoutedConnectErrors,
    /// Successful upstream connections for exact-SNI routes.
    RoutedConnectSuccesses,
    /// Upstream connect failures for fallback routes.
    FallbackConnectErrors,
    /// Successful upstream connections for fallback routes.
    FallbackConnectSuccesses,
    /// Successful SIGHUP reloads.
    ReloadSuccess,
    /// Rejected SIGHUP reloads.
    ReloadErrors,
    /// Bytes relayed from clients to upstreams.
    BytesClientToUpstream,
    /// Bytes relayed from upstreams to clients.
    BytesUpstreamToClient,
}

impl CounterId {
    /// The place in the table in a specification.
    pub open spec fn spec_index(self) -> usize {
        match self {
            CounterId::Accepted => 0,
            CounterId::RejectedPreParse => 1,
            CounterId::RejectedRouted => 2,
            CounterId::RejectedRoutedSource => 3,
            CounterId::RejectedFallback => 4,
            CounterId::Routed => 5,
            CounterId::FallbackUnknownSni => 6,
            CounterId::FallbackNoSni => 7,
            CounterId::FallbackPlainHttp => 8,
            CounterId::ParseErrors => 9,
            CounterId::ConnectErrors => 10,
            CounterId::ConnectSuccesses => 11,
            CounterId::RoutedConnectErrors => 12,
            CounterId::RoutedConnectSuccesses => 13,
            CounterId::FallbackConnectErrors => 14,
            CounterId::FallbackConnectSuccesses => 15,
            CounterId::ReloadSuccess => 16,
            CounterId::ReloadErrors => 17,
            CounterId::BytesClientToUpstream => 18,
            CounterId::BytesUpstreamToClient => 19,
        }
    }

    /// The place in the table.
    #[verifier::when_used_as_spec(spec_index)]
    pub fn index(self) -> (index: usize)
        ensures
            index == self.spec_index(),
            index < 20,
    {
        match self {
            CounterId::Accepted => 0,
            CounterId::RejectedPreParse => 1,
            CounterId::RejectedRouted => 2,
            CounterId::RejectedRoutedSource => 3,
            CounterId::RejectedFallback => 4,
            CounterId::Routed => 5,
            CounterId::FallbackUnknownSni => 6,
            CounterId::FallbackNoSni => 7,
            CounterId::FallbackPlainHttp => 8,
            CounterId::ParseErrors => 9,
            CounterId::ConnectErrors => 10,
            CounterId::ConnectSuccesses => 11,
            CounterId::RoutedConnectErrors => 12,
            CounterId::RoutedConnectSuccesses => 13,
            CounterId::FallbackConnectErrors => 14,
            CounterId::FallbackConnectSuccesses => 15,
            CounterId::ReloadSuccess => 16,
            CounterId::ReloadErrors => 17,
            CounterId::BytesClientToUpstream => 18,
            CounterId::BytesUpstreamToClient => 19,
        }
    }
}

/// The gauges of the relay.
#[derive(Clone, Copy, Debug, PartialEq, Eq, Structural)]
pub enum GaugeId {
    /// Active connections.
    Active,
    /// Connections admitted while awaiting a routing decision.
    ActivePreParse,
    /// Active exact-SNI routed connections.
    ActiveRouted,
    /// Active exact-SNI connections admitted to the relay data path.
    ActiveRoutedEstablished,
    /// Active fallback connections.
    ActiveFallback,
}

impl GaugeId {
    /// The place in the table in a specification.
    pub open spec fn spec_index(self) -> usize {
        match self {
            GaugeId::Active => 0,
            GaugeId::ActivePreParse => 1,
            GaugeId::ActiveRouted => 2,
            GaugeId::ActiveRoutedEstablished => 3,
            GaugeId::ActiveFallback => 4,
        }
    }

    /// The place in the table.
    #[verifier::when_used_as_spec(spec_index)]
    pub fn index(self) -> (index: usize)
        ensures
            index == self.spec_index(),
            index < 5,
    {
        match self {
            GaugeId::Active => 0,
            GaugeId::ActivePreParse => 1,
            GaugeId::ActiveRouted => 2,
            GaugeId::ActiveRoutedEstablished => 3,
            GaugeId::ActiveFallback => 4,
        }
    }
}

/// The counters, in the order of their places.
pub open spec fn counters() -> Seq<Descriptor> {
    seq![
        Descriptor {
            name: "sni_router_connections_accepted_total",
            help: "Accepted connections",
        },
        Descriptor {
            name: "sni_router_admission_rejected_pre_parse_total",
            help: "Connections rejected because pre-parse admission was full",
        },
        Descriptor {
            name: "sni_router_admission_rejected_routed_total",
            help: "Exact-SNI connections rejected because routed admission was full",
        },
        Descriptor {
            name: "sni_router_admission_rejected_routed_source_total",
            help: "Exact-SNI connections rejected by the per-source active-session limit",
        },
        Descriptor {
            name: "sni_router_admission_rejected_fallback_total",
            help: "Fallback connections rejected because fallback admission was full",
        },
        Descriptor {
            name: "sni_router_connections_routed_total",
            help: "Exact SNI route matches",
        },
        Descriptor {
            name: "sni_router_fallback_unknown_sni_total",
            help: "Connections sent to the unknown-SNI fallback",
        },
        Descriptor {
            name: "sni_router_fallback_no_sni_total",
            help: "TLS connections sent to the no-SNI fallback",
        },
        Descriptor {
            name: "sni_router_fallback_plain_http_total",
            help: "Plain HTTP connections sent to its fallback",
        },
        Descriptor {
            name: "sni_router_parse_errors_total",
            help: "Rejected initial messages",
        },
        Descriptor {
            name: "sni_router_connect_errors_total",
            help: "Upstream connect failures",
        },
        Descriptor {
            name: "sni_router_connect_successes_total",
            help: "Successful upstream connections",
        },
        Descriptor {
            name: "sni_router_routed_connect_errors_total",
            help: "Upstream connect failures for exact-SNI routes",
        },
        Descriptor {
            name: "sni_router_routed_connect_successes_total",
            help: "Successful upstream connections for exact-SNI routes",
        },
        Descriptor {
            name: "sni_router_fallback_connect_errors_total",
            help: "Upstream connect failures for fallback routes",
        },
        Descriptor {
            name: "sni_router_fallback_connect_successes_total",
            help: "Successful upstream connections for fallback routes",
        },
        Descriptor {
            name: "sni_router_reload_success_total",
            help: "Successful SIGHUP reloads",
        },
        Descriptor {
            name: "sni_router_reload_errors_total",
            help: "Rejected SIGHUP reloads",
        },
        Descriptor {
            name: "sni_router_bytes_client_to_upstream_total",
            help: "Bytes relayed from clients to upstreams",
        },
        Descriptor {
            name: "sni_router_bytes_upstream_to_client_total",
            help: "Bytes relayed from upstreams to clients",
        },
    ]
}

/// The gauges, in the order of their places.
pub open spec fn gauges() -> Seq<Descriptor> {
    seq![
        Descriptor {
            name: "sni_router_connections_active",
            help: "Active connections",
        },
        Descriptor {
            name: "sni_router_connections_active_pre_parse",
            help: "Connections admitted while awaiting a routing decision",
        },
        Descriptor {
            name: "sni_router_connections_active_routed",
            help: "Active exact-SNI routed connections",
        },
        Descriptor {
            name: "sni_router_connections_active_routed_established",
            help: "Active exact-SNI connections admitted to the relay data path",
        },
        Descriptor {
            name: "sni_router_connections_active_fallback",
            help: "Active fallback connections",
        },
    ]
}

/// The counter of connect errors by class and route.
pub open spec fn connect_errors_by_route() -> Descriptor {
    Descriptor {
        name: "sni_router_connect_errors_by_route_total",
        help: "Upstream connect failures by bounded route label and traffic class",
    }
}

/// The counters, in the order of their places.
fn counter_table() -> (table: Vec<Descriptor>)
    ensures
        table@ == counters(),
{
    let table = vec![
        Descriptor {
            name: "sni_router_connections_accepted_total",
            help: "Accepted connections",
        },
        Descriptor {
            name: "sni_router_admission_rejected_pre_parse_total",
            help: "Connections rejected because pre-parse admission was full",
        },
        Descriptor {
            name: "sni_router_admission_rejected_routed_total",
            help: "Exact-SNI connections rejected because routed admission was full",
        },
        Descriptor {
            name: "sni_router_admission_rejected_routed_source_total",
            help: "Exact-SNI connections rejected by the per-source active-session limit",
        },
        Descriptor {
            name: "sni_router_admission_rejected_fallback_total",
            help: "Fallback connections rejected because fallback admission was full",
        },
        Descriptor {
            name: "sni_router_connections_routed_total",
            help: "Exact SNI route matches",
        },
        Descriptor {
            name: "sni_router_fallback_unknown_sni_total",
            help: "Connections sent to the unknown-SNI fallback",
        },
        Descriptor {
            name: "sni_router_fallback_no_sni_total",
            help: "TLS connections sent to the no-SNI fallback",
        },
        Descriptor {
            name: "sni_router_fallback_plain_http_total",
            help: "Plain HTTP connections sent to its fallback",
        },
        Descriptor {
            name: "sni_router_parse_errors_total",
            help: "Rejected initial messages",
        },
        Descriptor {
            name: "sni_router_connect_errors_total",
            help: "Upstream connect failures",
        },
        Descriptor {
            name: "sni_router_connect_successes_total",
            help: "Successful upstream connections",
        },
        Descriptor {
            name: "sni_router_routed_connect_errors_total",
            help: "Upstream connect failures for exact-SNI routes",
        },
        Descriptor {
            name: "sni_router_routed_connect_successes_total",
            help: "Successful upstream connections for exact-SNI routes",
        },
        Descriptor {
            name: "sni_router_fallback_connect_errors_total",
            help: "Upstream connect failures for fallback routes",
        },
        Descriptor {
            name: "sni_router_fallback_connect_successes_total",
            help: "Successful upstream connections for fallback routes",
        },
        Descriptor {
            name: "sni_router_reload_success_total",
            help: "Successful SIGHUP reloads",
        },
        Descriptor {
            name: "sni_router_reload_errors_total",
            help: "Rejected SIGHUP reloads",
        },
        Descriptor {
            name: "sni_router_bytes_client_to_upstream_total",
            help: "Bytes relayed from clients to upstreams",
        },
        Descriptor {
            name: "sni_router_bytes_upstream_to_client_total",
            help: "Bytes relayed from upstreams to clients",
        },
    ];
    assert(table@ =~= counters());
    table
}

/// The gauges, in the order of their places.
fn gauge_table() -> (table: Vec<Descriptor>)
    ensures
        table@ == gauges(),
{
    let table = vec![
        Descriptor {
            name: "sni_router_connections_active",
            help: "Active connections",
        },
        Descriptor {
            name: "sni_router_connections_active_pre_parse",
            help: "Connections admitted while awaiting a routing decision",
        },
        Descriptor {
            name: "sni_router_connections_active_routed",
            help: "Active exact-SNI routed connections",
        },
        Descriptor {
            name: "sni_router_connections_active_routed_established",
            help: "Active exact-SNI connections admitted to the relay data path",
        },
        Descriptor {
            name: "sni_router_connections_active_fallback",
            help: "Active fallback connections",
        },
    ];
    assert(table@ =~= gauges());
    table
}

/// What a pair of class and route is retained as.
pub open spec fn retained_key(class: UpstreamClass, route: Seq<char>) -> Seq<char> {
    class_label(class) + seq!['\0'] + route
}

/// The label that a route is counted under, when these pairs are retained.
pub open spec fn route_label(
    retained: Set<Seq<char>>,
    class: UpstreamClass,
    route: Seq<char>,
) -> Seq<char> {
    if retained.contains(retained_key(class, route)) || retained.len()
        < MAX_RETAINED_CONNECT_ERROR_ROUTES {
        route
    } else {
        OVERFLOW_ROUTE_LABEL@
    }
}

/// The pairs that are retained once a route was counted.
pub open spec fn retained_after(
    retained: Set<Seq<char>>,
    class: UpstreamClass,
    route: Seq<char>,
) -> Set<Seq<char>> {
    if retained.len() < MAX_RETAINED_CONNECT_ERROR_ROUTES {
        retained.insert(retained_key(class, route))
    } else {
        retained
    }
}

/// The relay's metrics over views: the counters and gauges, with the connect
/// errors by class and route, and the pairs of these that are told apart.
#[verifier::ext_equal]
pub struct MetricsView {
    pub set: MetricSetView,
    pub retained: Set<Seq<char>>,
}

impl MetricsView {
    /// The value of a counter.
    pub open spec fn counter(self, id: CounterId) -> nat {
        self.set.counters[id.index() as int]
    }

    /// The value of a gauge.
    pub open spec fn gauge(self, id: GaugeId) -> int {
        self.set.gauges[id.index() as int]
    }

    /// After so much was added to a counter.
    pub open spec fn count(self, id: CounterId, amount: nat) -> MetricsView {
        MetricsView {
            set: crate::instruments::counted(self.set, id.index() as int, amount),
            ..self
        }
    }

    /// After a gauge moved by so much.
    pub open spec fn shift(self, id: GaugeId, by: int) -> MetricsView {
        MetricsView { set: crate::instruments::moved(self.set, id.index() as int, by), ..self }
    }
}

/// Everything at zero.
pub open spec fn fresh_metrics() -> MetricsView {
    MetricsView {
        set: MetricSetView {
            family: Some(
                crate::instruments::no_children(
                    connect_errors_by_route().name@,
                    connect_errors_by_route().help@,
                    "class"@,
                    "route"@,
                ),
            ),
            ..crate::instruments::at_zero(counters(), gauges())
        },
        retained: Set::empty(),
    }
}

/// The relay's metrics can be exposed by one registry.
pub open spec fn metrics_exposable() -> bool {
    &&& crate::instruments::exposable(counters() + gauges())
    &&& crate::instruments::can_add(
        crate::instruments::at_zero(counters(), gauges()),
        connect_errors_by_route(),
    )
    &&& crate::instruments::are_labels("class"@, "route"@)
}

/// After a connect to an upstream succeeded.
pub open spec fn connect_succeeded(view: MetricsView, class: UpstreamClass) -> MetricsView {
    view.count(CounterId::ConnectSuccesses, 1).count(
        match class {
            UpstreamClass::Routed => CounterId::RoutedConnectSuccesses,
            UpstreamClass::Fallback => CounterId::FallbackConnectSuccesses,
        },
        1,
    )
}

/// After a connect to an upstream failed.
pub open spec fn connect_failed(
    view: MetricsView,
    class: UpstreamClass,
    route: Seq<char>,
) -> MetricsView {
    let counted = view.count(CounterId::ConnectErrors, 1).count(
        match class {
            UpstreamClass::Routed => CounterId::RoutedConnectErrors,
            UpstreamClass::Fallback => CounterId::FallbackConnectErrors,
        },
        1,
    );
    MetricsView {
        set: MetricSetView {
            family: Some(
                error_counted(
                    view.set.family->0,
                    class,
                    route_label(view.retained, class, route),
                ),
            ),
            ..counted.set
        },
        retained: retained_after(view.retained, class, route),
    }
}

/// The key that connect errors are counted under.
pub open spec fn error_key(class: UpstreamClass, label: Seq<char>) -> u64 {
    crate::instruments::label_key(class_label(class), label)
}

/// The connect errors after one was counted for a class under a label.
pub open spec fn error_counted(
    family: FamilyView,
    class: UpstreamClass,
    label: Seq<char>,
) -> FamilyView {
    crate::instruments::child_counted(
        family,
        error_key(class, label),
        class_label(class),
        label,
    )
}

/// The relay's metrics.
pub struct Metrics {
    set: MetricSet,
    retained_connect_error_routes: StringHashSet,
}

impl View for Metrics {
    type V = MetricsView;

    closed spec fn view(&self) -> MetricsView {
        MetricsView { set: self.set@, retained: self.retained_connect_error_routes@ }
    }
}

/// The connect errors by class and route.
pub open spec fn errors_by_route(view: MetricsView) -> Map<
    u64,
    crate::instruments::ChildView,
> {
    view.set.family->0.children
}

/// A key that connect errors may be counted under when these pairs are retained:
/// that of one of them, or of one of the two overflow labels.
pub open spec fn is_known_key(retained: Set<Seq<char>>, key: u64) -> bool {
    ||| key == error_key(UpstreamClass::Routed, OVERFLOW_ROUTE_LABEL@)
    ||| key == error_key(UpstreamClass::Fallback, OVERFLOW_ROUTE_LABEL@)
    ||| exists|class: UpstreamClass, route: Seq<char>|
        retained.contains(#[trigger] retained_key(class, route)) && key == error_key(class, route)
}

/// So many pairs are retained at most, and the counters of connect errors are
/// those of retained pairs and the two overflow counters.
pub open spec fn labels_bounded(view: MetricsView) -> bool {
    &&& view.retained.finite()
    &&& view.retained.len() <= MAX_RETAINED_CONNECT_ERROR_ROUTES
    &&& forall|key: u64| #[trigger]
        errors_by_route(view).contains_key(key) ==> is_known_key(view.retained, key)
}

/// What every operation keeps: the counters and gauges are those of the tables,
/// and the labels are bounded.
pub open spec fn metrics_wf(view: MetricsView) -> bool {
    &&& view.set == (MetricSetView {
        counters: view.set.counters,
        gauges: view.set.gauges,
        family: Some(
            FamilyView {
                children: errors_by_route(view),
                ..fresh_metrics().set.family->0
            },
        ),
        ..fresh_metrics().set
    })
    &&& view.set.counters.len() == 20
    &&& view.set.gauges.len() == 5
    &&& labels_bounded(view)
}

proof fn lemma_key_injective(a: UpstreamClass, x: Seq<char>, b: UpstreamClass, y: Seq<char>)
    requires
        retained_key(a, x) == retained_key(b, y),
    ensures
        a == b,
        x == y,
{
    reveal_strlit("routed");
    reveal_strlit("fallback");
    let k = retained_key(a, x);
    let l = retained_key(b, y);
    assert(k[0] == class_label(a)[0]);
    assert(l[0] == class_label(b)[0]);
    let n = class_label(a).len() + 1;
    assert(x =~= k.skip(n as int));
    assert(y =~= l.skip(n as int));
}

proof fn lemma_known_key_kept(retained: Set<Seq<char>>, added: Seq<char>, key: u64)
    requires
        is_known_key(retained, key),
    ensures
        is_known_key(retained.insert(added), key),
{
    if exists|class: UpstreamClass, route: Seq<char>|
        retained.contains(#[trigger] retained_key(class, route)) && key == error_key(class, route) {
        let (class, route) = choose|class: UpstreamClass, route: Seq<char>|
            retained.contains(#[trigger] retained_key(class, route)) && key == error_key(
                class,
                route,
            );
        assert(retained.insert(added).contains(retained_key(class, route)));
    }
}

/// Retaining a pair keeps the labels bounded, and so does counting under the
/// label that a pair then has.
proof fn lemma_labels_bounded(view: MetricsView, class: UpstreamClass, route: Seq<char>)
    requires
        labels_bounded(view),
    ensures
        labels_bounded(
            MetricsView { retained: retained_after(view.retained, class, route), ..view },
        ),
        labels_bounded(connect_failed(view, class, route)),
{
    let added = retained_key(class, route);
    let retained = retained_after(view.retained, class, route);
    assert forall|key: u64| is_known_key(view.retained, key) implies #[trigger] is_known_key(
        retained,
        key,
    ) by {
        lemma_known_key_kept(view.retained, added, key);
    }
    let label = route_label(view.retained, class, route);
    if label == route {
        assert(retained.contains(added) || label == OVERFLOW_ROUTE_LABEL@);
    }
    assert(is_known_key(retained, error_key(class, label)));
    let before = errors_by_route(view);
    let labeled = MetricsView { retained, ..view };
    let counted = connect_failed(view, class, route);
    assert(errors_by_route(labeled) == before);
    assert(errors_by_route(counted).dom() == before.dom().insert(error_key(class, label)));
    assert forall|key: u64| #[trigger] errors_by_route(counted).contains_key(
        key,
    ) implies is_known_key(retained, key) by {
        assert(before.contains_key(key) || key == error_key(class, label));
    }
}

/// The key that connect errors are counted under for a retained pair.
spec fn key_of_retained(retained: Seq<char>) -> u64 {
    let (class, route) = choose|class: UpstreamClass, route: Seq<char>|
        retained == #[trigger] retained_key(class, route);
    error_key(class, route)
}

/// However many routes come and go, connect errors are told under at most so
/// many label pairs: the retained ones, and one overflow pair for each class.
pub proof fn law_labels_are_bounded(view: MetricsView)
    requires
        metrics_wf(view),
    ensures
        view.retained.len() <= MAX_RETAINED_CONNECT_ERROR_ROUTES,
        errors_by_route(view).dom().finite(),
        errors_by_route(view).len() <= MAX_RETAINED_CONNECT_ERROR_ROUTES + 2,
{
    let f = |retained: Seq<char>| key_of_retained(retained);
    let own = view.retained.map(f);
    let first = error_key(UpstreamClass::Routed, OVERFLOW_ROUTE_LABEL@);
    let second = error_key(UpstreamClass::Fallback, OVERFLOW_ROUTE_LABEL@);
    let known = own.insert(first).insert(second);
    vstd::set_lib::lemma_map_size_bound(view.retained, own, f);
    assert forall|key: u64| #[trigger] errors_by_route(view).dom().contains(
        key,
    ) implies known.contains(key) by {
        assert(errors_by_route(view).contains_key(key));
        if key != first && key != second {
            let (class, route) = choose|class: UpstreamClass, route: Seq<char>|
                view.retained.contains(#[trigger] retained_key(class, route)) && key == error_key(
                    class,
                    route,
                );
            let retained = retained_key(class, route);
            let (c, r) = choose|c: UpstreamClass, r: Seq<char>|
                retained == #[trigger] retained_key(c, r);
            lemma_key_injective(class, route, c, r);
            assert(f(retained) == key);
        }
    }
    vstd::set_lib::lemma_len_subset(errors_by_route(view).dom(), known);
}

/// The pairs that are retained once routes were labeled in turn.
pub open spec fn retained_by(calls: Seq<(UpstreamClass, Seq<char>)>) -> Set<Seq<char>>
    decreases calls.len(),
{
    if calls.len() == 0 {
        Set::empty()
    } else {
        retained_after(retained_by(calls.drop_last()), calls.last().0, calls.last().1)
    }
}

/// The label that the call at a place was given.
pub open spec fn label_at(calls: Seq<(UpstreamClass, Seq<char>)>, i: int) -> Seq<char> {
    route_label(retained_by(calls.take(i)), calls[i].0, calls[i].1)
}

/// However routes are labeled in turn, so many pairs at most are retained, each
/// of them one that was asked for, and no pair leaves. So a pair that is
/// retained by one call is given its own route by that call and by every later
/// one.
pub proof fn law_retained_labels(calls: Seq<(UpstreamClass, Seq<char>)>, i: int, j: int)
    requires
        0 <= i <= j < calls.len(),
    ensures
        retained_by(calls).finite(),
        retained_by(calls).len() <= MAX_RETAINED_CONNECT_ERROR_ROUTES,
        retained_by(calls.take(i + 1)).subset_of(retained_by(calls)),
        forall|class: UpstreamClass, route: Seq<char>|
            retained_by(calls).contains(#[trigger] retained_key(class, route)) ==> calls.contains(
                (class, route),
            ),
        calls[i] == calls[j] && retained_by(calls.take(i + 1)).contains(
            retained_key(calls[i].0, calls[i].1),
        ) ==> label_at(calls, i) == calls[i].1 && label_at(calls, j) == calls[j].1,
{
    lemma_retained_by(calls);
    lemma_retained_grows(calls, i + 1, calls.len() as int);
    assert(calls.take(calls.len() as int) =~= calls);
    assert(calls.take(i + 1).drop_last() =~= calls.take(i));
    lemma_retained_by(calls.take(i));
    if i < j {
        lemma_retained_grows(calls, i + 1, j);
    }
}

proof fn lemma_retained_by(calls: Seq<(UpstreamClass, Seq<char>)>)
    ensures
        retained_by(calls).finite(),
        retained_by(calls).len() <= MAX_RETAINED_CONNECT_ERROR_ROUTES,
        forall|class: UpstreamClass, route: Seq<char>|
            retained_by(calls).contains(#[trigger] retained_key(class, route)) ==> calls.contains(
                (class, route),
            ),
    decreases calls.len(),
{
    if calls.len() > 0 {
        let before = calls.drop_last();
        let (class, route) = calls.last();
        lemma_retained_by(before);
        assert forall|c: UpstreamClass, r: Seq<char>|
            retained_by(calls).contains(#[trigger] retained_key(c, r)) implies calls.contains(
            (c, r),
        ) by {
            if retained_by(before).contains(retained_key(c, r)) {
                let k = choose|k: int| 0 <= k < before.len() && before[k] == (c, r);
                assert(calls[k] == (c, r));
            } else {
                lemma_key_injective(c, r, class, route);
                assert(calls[calls.len() - 1] == (c, r));
            }
        }
    }
}

proof fn lemma_retained_grows(calls: Seq<(UpstreamClass, Seq<char>)>, i: int, j: int)
    requires
        0 <= i <= j <= calls.len(),
    ensures
        retained_by(calls.take(i)).subset_of(retained_by(calls.take(j))),
    decreases j - i,
{
    if i < j {
        lemma_retained_grows(calls, i, j - 1);
        assert(calls.take(j).drop_last() =~= calls.take(j - 1));
    }
}

/// A pair that is told apart stays told apart: once a route is counted under
/// its own label, it always is.
pub proof fn law_labels_are_stable(
    view: MetricsView,
    class: UpstreamClass,
    route: Seq<char>,
    other_class: UpstreamClass,
    other: Seq<char>,
)
    requires
        metrics_wf(view),
        view.retained.contains(retained_key(class, route)),
    ensures
        route_label(view.retained, class, route) == route,
        connect_failed(view, other_class, other).retained.contains(retained_key(class, route)),
{
}

impl Metrics {
    /// What every operation keeps.
    pub open spec fn wf(&self) -> bool {
        metrics_wf(self@) && self.exposed()
    }

    /// The registry exposes these metrics and no others.
    pub closed spec fn exposed(&self) -> bool {
        self.set.wf()
    }

    /// All metrics at zero and exposed.
    pub fn new() -> (metrics: Result<Self, prometheus::Error>)
        ensures
            metrics is Ok,
            metrics matches Ok(m) ==> m.wf() && m@ == fresh_metrics(),
    {
        proof {
            crate::metric_names::law_metrics_are_exposable();
        }
        let counters = counter_table();
        let gauges = gauge_table();
        let mut set = MetricSet::new(counters.as_slice(), gauges.as_slice())?;
        let by_route = Descriptor {
            name: "sni_router_connect_errors_by_route_total",
            help: "Upstream connect failures by bounded route label and traffic class",
        };
        set.add_family(by_route, "class", "route")?;
        let metrics = Metrics { set, retained_connect_error_routes: StringHashSet::new() };
        assert(metrics@ =~= fresh_metrics());
        Ok(metrics)
    }

    /// The text that tells every metric with its value.
    pub fn encode(&self) -> (text: Result<Vec<u8>, prometheus::Error>)
        requires
            self.wf(),
        ensures
            text matches Ok(t) && t@ == crate::instruments::exposition(self@.set),
    {
        self.set.encode()
    }

    /// The value of a counter.
    pub fn counter(&self, id: CounterId) -> (value: u64)
        requires
            self.wf(),
        ensures
            value == self@.counter(id),
    {
        self.set.counter(id.index())
    }

    /// The value of a gauge.
    pub fn gauge(&self, id: GaugeId) -> (value: i64)
        requires
            self.wf(),
        ensures
            value == self@.gauge(id),
    {
        self.set.gauge(id.index())
    }

    /// How many pairs of class and route are told apart.
    pub fn retained_connect_error_routes(&self) -> (n: usize)
        ensures
            n == self@.retained.len(),
    {
        self.retained_connect_error_routes.len()
    }

    /// Adds to a counter.
    pub fn count(&mut self, id: CounterId, amount: u64)
        requires
            old(self).wf(),
        ensures
            final(self).wf(),
            final(self)@ == old(self)@.count(id, amount as nat),
    {
        self.set.count(id.index(), amount);
    }

    /// Adds one to a gauge.
    pub fn raise(&mut self, id: GaugeId)
        requires
            old(self).wf(),
        ensures
            final(self).wf(),
            final(self)@ == old(self)@.shift(id, 1),
    {
        self.set.raise(id.index());
    }

    /// Takes one from a gauge.
    pub fn lower(&mut self, id: GaugeId)
        requires
            old(self).wf(),
        ensures
            final(self).wf(),
            final(self)@ == old(self)@.shift(id, -1),
    {
        self.set.lower(id.index());
    }

    /// Counts a connect to an upstream that succeeded.
    pub fn record_connect_success(&mut self, class: UpstreamClass)
        requires
            old(self).wf(),
        ensures
            final(self).wf(),
            final(self)@ == connect_succeeded(old(self)@, class),
    {
        self.count(CounterId::ConnectSuccesses, 1);
        match class {
            UpstreamClass::Routed => self.count(CounterId::RoutedConnectSuccesses, 1),
            UpstreamClass::Fallback => self.count(CounterId::FallbackConnectSuccesses, 1),
        }
    }

    /// Counts a connect to an upstream that failed, in all, by class, and by
    /// route.
    pub fn record_connect_error(&mut self, class: UpstreamClass, route: &str)
        requires
            old(self).wf(),
        ensures
            final(self).wf(),
            final(self)@ == connect_failed(old(self)@, class, route@),
    {
        self.count(CounterId::ConnectErrors, 1);
        match class {
            UpstreamClass::Routed => self.count(CounterId::RoutedConnectErrors, 1),
            UpstreamClass::Fallback => self.count(CounterId::FallbackConnectErrors, 1),
        }
        let label = self.retained_route_label(class, route);
        self.set.count_labeled(class.label(), label);
        proof {
            lemma_labels_bounded(old(self)@, class, route@);
            assert(self@ =~= connect_failed(old(self)@, class, route@));
        }
    }

    /// The label that a route is counted under, from now on too if there is room
    /// to retain it.
    pub fn retained_route_label<'a>(&mut self, class: UpstreamClass, route: &'a str) -> (label:
        &'a str)
        requires
            old(self).wf(),
        ensures
            final(self).wf(),
            label@ == route_label(old(self)@.retained, class, route@),
            final(self)@ == (MetricsView {
                retained: retained_after(old(self)@.retained, class, route@),
                ..old(self)@
            }),
    {
        proof {
            lemma_labels_bounded(self@, class, route@);
        }
        let mut key = class.label().to_string();
        key.push('\0');
        key.append(route);
        assert(key@ =~= retained_key(class, route@));
        if self.retained_connect_error_routes.contains(key.as_str()) {
            assert(self@.retained.insert(key@) =~= self@.retained);
            return route;
        }
        if self.retained_connect_error_routes.len() < MAX_RETAINED_CONNECT_ERROR_ROUTES {
            self.retained_connect_error_routes.insert(key);
            return route;
        }
        OVERFLOW_ROUTE_LABEL
    }
}

} // verus!
