//! What the checks on a configuration amount to.

use vstd::prelude::*;

use crate::address::{IpAddr, SocketAddr};
use crate::config::{Admission, ConfigDocument, Limits, Route};

verus! {

/// The normal form of the hostname of an entry.
pub open spec fn entry_host(entry: (String, Route)) -> Result<Seq<char>, Seq<char>> {
    crate::hostname::normalized_route_name(entry.0@)
}

/// An entry that is fine by itself.
pub open spec fn entry_fine(entry: (String, Route)) -> bool {
    entry_host(entry) is Ok && crate::config::route_problem(entry.1) is None
}

/// No two entries have the same normal hostname.
pub open spec fn hosts_distinct(routes: Seq<(String, Route)>) -> bool {
    forall|i: int, j: int|
        0 <= i < j < routes.len() ==> #[trigger] entry_host(routes[i]) != #[trigger] entry_host(
            routes[j],
        )
}

/// A table comes of the entries if and only if each is fine by itself and no
/// two have the same normal hostname, whatever their order. The table then
/// holds each entry under its normal hostname, and nothing else.
#[verifier::rlimit(30)]
pub proof fn law_route_table_is_exact(routes: Seq<(String, Route)>)
    ensures
        crate::config::route_table(routes) is Ok <==> (forall|i: int|
            0 <= i < routes.len() ==> entry_fine(#[trigger] routes[i])) && hosts_distinct(routes),
        crate::config::route_table(routes) matches Ok(table) ==> {
            &&& forall|i: int|
                0 <= i < routes.len() ==> {
                    let host = entry_host(#[trigger] routes[i])->Ok_0;
                    table.contains_key(host) && table[host] == routes[i].1
                }
            &&& forall|name: Seq<char>| #[trigger]
                table.contains_key(name) ==> exists|i: int|
                    0 <= i < routes.len() && #[trigger] entry_host(routes[i]) == Ok::<
                        Seq<char>,
                        Seq<char>,
                    >(name)
        },
    decreases routes.len(),
{
    if routes.len() > 0 {
        let rest = routes.drop_last();
        let last = routes.last();
        let n = rest.len() as int;
        law_route_table_is_exact(rest);
        assert(forall|i: int| 0 <= i < n ==> rest[i] == routes[i]);
        if crate::config::route_table(rest) is Ok {
            let table = crate::config::route_table(rest)->Ok_0;
            if entry_fine(last) {
                let host = entry_host(last)->Ok_0;
                if table.contains_key(host) {
                    let i = choose|i: int|
                        0 <= i < rest.len() && #[trigger] entry_host(rest[i]) == Ok::<
                            Seq<char>,
                            Seq<char>,
                        >(host);
                    assert(entry_host(routes[i]) == entry_host(routes[n]));
                } else {
                    assert forall|i: int, j: int| 0 <= i < j < routes.len() implies
                        #[trigger] entry_host(routes[i]) != #[trigger] entry_host(routes[j]) by {
                        if j == n {
                            let other = entry_host(rest[i])->Ok_0;
                            assert(table.contains_key(other));
                        } else {
                            assert(entry_host(rest[i]) != entry_host(rest[j]));
                        }
                    }
                    let grown = table.insert(host, last.1);
                    assert forall|i: int| 0 <= i < routes.len() implies {
                        let h = entry_host(#[trigger] routes[i])->Ok_0;
                        grown.contains_key(h) && grown[h] == routes[i].1
                    } by {
                        if i < n {
                            let h = entry_host(rest[i])->Ok_0;
                            assert(table.contains_key(h));
                        }
                    }
                    assert forall|name: Seq<char>| #[trigger] grown.contains_key(name) implies
                        exists|i: int|
                        0 <= i < routes.len() && #[trigger] entry_host(routes[i]) == Ok::<
                            Seq<char>,
                            Seq<char>,
                        >(name) by {
                        if name == host {
                            assert(entry_host(routes[n]) == Ok::<Seq<char>, Seq<char>>(name));
                        } else {
                            let i = choose|i: int|
                                0 <= i < rest.len() && #[trigger] entry_host(rest[i]) == Ok::<
                                    Seq<char>,
                                    Seq<char>,
                                >(name);
                            assert(entry_host(routes[i]) == Ok::<Seq<char>, Seq<char>>(name));
                        }
                    }
                }
            } else {
                assert(!entry_fine(routes[n]));
            }
        } else {
            if forall|i: int| 0 <= i < routes.len() ==> entry_fine(#[trigger] routes[i]) {
                assert forall|i: int| 0 <= i < rest.len() implies entry_fine(
                    #[trigger] rest[i],
                ) by {
                    assert(entry_fine(routes[i]));
                }
                assert(!hosts_distinct(rest));
                let (i, j) = choose|i: int, j: int|
                    0 <= i < j < rest.len() && #[trigger] entry_host(rest[i])
                        == #[trigger] entry_host(rest[j]);
                assert(entry_host(routes[i]) == entry_host(routes[j]));
            }
        }
    }
}

/// An address of this machine alone, `127.0.0.0/8` or `::1`, with a port.
pub open spec fn stays_home(address: SocketAddr) -> bool {
    match address {
        SocketAddr::V4 { ip, port } => ip / 0x100_0000 == 127 && port > 0,
        SocketAddr::V6 { ip, port, .. } => ip == 1 && port > 0,
    }
}

/// The wildcard address of either family, with an unprivileged port.
pub open spec fn takes_redirects(address: SocketAddr) -> bool {
    match address {
        SocketAddr::V4 { ip, port } => ip == 0 && port >= 1024,
        SocketAddr::V6 { ip, port, .. } => ip == 0 && port >= 1024,
    }
}

/// A route leads to an address of this machine, and if it is marked, then with
/// two different marks, neither of them zero.
pub open spec fn leads_home(route: Route) -> bool {
    match route {
        Route::Plain(upstream) => stays_home(upstream),
        Route::Marked { upstream, socket_marks } => stays_home(upstream) && socket_marks.upload > 0
            && socket_marks.download > 0 && socket_marks.upload != socket_marks.download,
    }
}

/// Every pool has a place, no source may have more than the routed pool holds,
/// and the pools hold at most 75000 connections together.
pub open spec fn pools_fit(admission: Admission) -> bool {
    &&& admission.pre_parse_max_connections > 0
    &&& admission.fallback_max_connections > 0
    &&& 0 < admission.routed_max_connections_per_source <= admission.routed_max_connections
    &&& admission.pre_parse_max_connections + admission.routed_max_connections
        + admission.fallback_max_connections <= 75_000
}

/// A ClientHello may be 4096 to 262144 bytes long, and nothing is to take no
/// time at all.
pub open spec fn bounds_fit(limits: Limits) -> bool {
    &&& 4096 <= limits.client_hello_max_bytes <= 262_144
    &&& limits.client_hello_timeout_ms > 0
    &&& limits.connect_timeout_ms > 0
    &&& limits.half_close_timeout_ms > 0
    &&& limits.fallback_lifetime_timeout_ms > 0
}

/// The relay listens on an address of this machine, or on a wildcard address if
/// that is allowed, and tells its health on another address of this machine.
pub open spec fn listeners_fit(document: ConfigDocument) -> bool {
    &&& if document.allow_redirect_ingress_bind {
        takes_redirects(document.bind)
    } else {
        stays_home(document.bind)
    }
    &&& stays_home(document.health_bind)
    &&& document.bind != document.health_bind
}

/// The loopback addresses are `127.0.0.0/8` and `::1`, and the wildcard ones
/// `0.0.0.0` and `::`.
pub proof fn law_loopback_addresses(address: SocketAddr)
    ensures
        crate::address::loopback(address.ip()) && address.port() != 0 <==> stays_home(address),
        crate::address::unspecified(address.ip()) && address.port() >= 1024 <==> takes_redirects(
            address,
        ),
        match address {
            SocketAddr::V4 { ip, port } => address.ip() == IpAddr::V4(ip) && address.port() == port,
            SocketAddr::V6 { ip, port, .. } => address.ip() == IpAddr::V6(ip) && address.port()
                == port,
        },
{
}

/// A document is taken if and only if its listeners, its routes, its fallbacks,
/// its pools and its limits are what they must be: every route leads to this
/// machine and has a hostname that no other has, in normal form.
pub proof fn law_documents_are_taken(document: ConfigDocument)
    ensures
        crate::config::document_problem(document) is None <==> {
            &&& listeners_fit(document)
            &&& forall|i: int|
                0 <= i < document.routes@.len() ==> entry_host(#[trigger] document.routes@[i]) is Ok
                    && leads_home(document.routes@[i].1)
            &&& hosts_distinct(document.routes@)
            &&& stays_home(document.fallbacks.unknown_sni)
            &&& stays_home(document.fallbacks.no_sni)
            &&& stays_home(document.fallbacks.plain_http)
            &&& pools_fit(document.admission)
            &&& bounds_fit(document.limits)
        },
{
    law_route_table_is_exact(document.routes@);
    assert forall|i: int| 0 <= i < document.routes@.len() implies (entry_fine(
        #[trigger] document.routes@[i],
    ) <==> entry_host(document.routes@[i]) is Ok && leads_home(document.routes@[i].1)) by {}
}

/// A configuration holds what its document says: the routes under their
/// hostnames in normal form, each with its upstream and its marks, and
/// everything else unchanged.
pub proof fn law_configuration_holds_the_document(
    config: crate::config::Config,
    document: ConfigDocument,
    i: int,
    name: Seq<char>,
)
    requires
        crate::config::says(config, document),
        0 <= i < document.routes@.len(),
    ensures
        config.bind == document.bind,
        config.health_bind == document.health_bind,
        config.allow_redirect_ingress_bind == document.allow_redirect_ingress_bind,
        config.fallbacks == document.fallbacks,
        config.admission == document.admission,
        config.limits == document.limits,
        entry_host(document.routes@[i]) matches Ok(host) && config.routes@.contains_key(host)
            && config.routes@[host] == document.routes@[i].1,
        config.routes@.contains_key(name) ==> exists|j: int|
            0 <= j < document.routes@.len() && #[trigger] entry_host(document.routes@[j]) == Ok::<
                Seq<char>,
                Seq<char>,
            >(name) && config.routes@[name] == document.routes@[j].1,
{
    law_route_table_is_exact(document.routes@);
    assert(entry_fine(document.routes@[i]));
    if config.routes@.contains_key(name) {
        let j = choose|j: int|
            0 <= j < document.routes@.len() && #[trigger] entry_host(document.routes@[j]) == Ok::<
                Seq<char>,
                Seq<char>,
            >(name);
        assert(config.routes@[entry_host(document.routes@[j])->Ok_0] == document.routes@[j].1);
    }
}

/// The upstream and the marks of a route are those that it was given.
pub proof fn law_routes_keep_what_they_were_given(
    upstream: SocketAddr,
    socket_marks: crate::config::SocketMarks,
)
    ensures
        Route::Plain(upstream).upstream() == upstream,
        Route::Plain(upstream).socket_marks() is None,
        (Route::Marked { upstream, socket_marks }).upstream() == upstream,
        (Route::Marked { upstream, socket_marks }).socket_marks() == Some(socket_marks),
{
}

/// What is wrong with a part of a document is told in the words for that part.
pub proof fn law_problems_are_told(
    field: Seq<char>,
    address: SocketAddr,
    route: Route,
    admission: Admission,
    limits: Limits,
)
    ensures
        crate::config::loopback_problem(field, address) == if address.port() == 0 {
            Some(field + " must use a non-zero port"@)
        } else if !stays_home(address) {
            Some(field + " must use a loopback IP"@)
        } else {
            None
        },
        !takes_redirects(address) ==> crate::config::redirect_problem(address) == Some(
            "redirect ingress bind must use a wildcard IP and unprivileged port"@,
        ),
        !stays_home(route.upstream()) ==> crate::config::route_problem(route)
            == crate::config::loopback_problem("route upstream"@, route.upstream()),
        leads_home(route) ==> crate::config::route_problem(route) is None,
        route matches Route::Marked { upstream, .. } ==> (stays_home(upstream) && !leads_home(route)
            ==> crate::config::route_problem(route) == Some(
            "marked route requires distinct non-zero socket marks"@,
        )),
        ({
            let sum = admission.pre_parse_max_connections + admission.routed_max_connections
                + admission.fallback_max_connections;
            crate::config::admission_problem(admission) == if pools_fit(admission) {
                None
            } else if admission.pre_parse_max_connections == 0 || admission.routed_max_connections
                == 0 || admission.routed_max_connections_per_source == 0
                || admission.fallback_max_connections == 0 {
                Some("admission limits must be greater than zero"@)
            } else if admission.routed_max_connections_per_source
                > admission.routed_max_connections {
                Some("routed_max_connections_per_source must not exceed routed_max_connections"@)
            } else if sum > usize::MAX {
                Some("admission connection budget overflow"@)
            } else {
                Some("admission connection budget must not exceed 75000"@)
            }
        }),
        crate::config::limits_problem(limits) == if bounds_fit(limits) {
            None
        } else if limits.client_hello_max_bytes < 4096 || limits.client_hello_max_bytes > 262_144 {
            Some("client_hello_max_bytes must be between 4096 and 262144"@)
        } else {
            Some("timeouts must be greater than zero"@)
        },
{
}

/// The first part of a document that is wrong is the one that is told: its
/// listeners, then its routes, its fallbacks, its pools and its limits.
pub proof fn law_first_problem_is_told(document: ConfigDocument)
    ensures
        crate::config::listener_problem(document) is Some ==> crate::config::document_problem(
            document,
        ) == crate::config::listener_problem(document),
        listeners_fit(document) ==> {
            &&& crate::config::listener_problem(document) is None
            &&& crate::config::route_table(document.routes@) matches Err(message)
                ==> crate::config::document_problem(document) == Some(message)
            &&& crate::config::route_table(document.routes@) is Ok ==> {
                &&& crate::config::fallbacks_problem(document.fallbacks) is Some
                    ==> crate::config::document_problem(document)
                    == crate::config::fallbacks_problem(document.fallbacks)
                &&& crate::config::fallbacks_problem(document.fallbacks) is None ==> {
                    crate::config::document_problem(document) == if pools_fit(document.admission) {
                        crate::config::limits_problem(document.limits)
                    } else {
                        crate::config::admission_problem(document.admission)
                    }
                }
            }
        },
        !document.allow_redirect_ingress_bind && !stays_home(document.bind)
            ==> crate::config::listener_problem(document) == crate::config::loopback_problem(
            "bind"@,
            document.bind,
        ),
        document.allow_redirect_ingress_bind && !takes_redirects(document.bind)
            ==> crate::config::listener_problem(document) == crate::config::redirect_problem(
            document.bind,
        ),
        !document.allow_redirect_ingress_bind && stays_home(document.bind) && !stays_home(
            document.health_bind,
        ) ==> crate::config::listener_problem(document) == crate::config::loopback_problem(
            "health_bind"@,
            document.health_bind,
        ),
        stays_home(document.bind) && !document.allow_redirect_ingress_bind && document.bind
            == document.health_bind ==> crate::config::listener_problem(document) == Some(
            "bind and health_bind must be different"@,
        ),
        !stays_home(document.fallbacks.unknown_sni) ==> crate::config::fallbacks_problem(
            document.fallbacks,
        ) == crate::config::loopback_problem(
            "fallbacks.unknown_sni"@,
            document.fallbacks.unknown_sni,
        ),
        stays_home(document.fallbacks.unknown_sni) && !stays_home(document.fallbacks.no_sni)
            ==> crate::config::fallbacks_problem(document.fallbacks)
            == crate::config::loopback_problem("fallbacks.no_sni"@, document.fallbacks.no_sni),
        stays_home(document.fallbacks.unknown_sni) && stays_home(document.fallbacks.no_sni)
            && !stays_home(document.fallbacks.plain_http) ==> crate::config::fallbacks_problem(
            document.fallbacks,
        ) == crate::config::loopback_problem(
            "fallbacks.plain_http"@,
            document.fallbacks.plain_http,
        ),
{
}

/// The pools admit together what each of them admits.
pub proof fn law_budget_is_the_sum(admission: Admission)
    ensures
        crate::config::connection_budget(admission) == admission.pre_parse_max_connections
            + admission.routed_max_connections + admission.fallback_max_connections,
{
}

/// A time of so many milliseconds has a million nanoseconds for each.
pub proof fn law_times_are_in_milliseconds(duration: std::time::Duration, ms: u64)
    ensures
        crate::config::lasts(duration, ms) <==> crate::config::nanoseconds(duration) == 1_000_000
            * ms,
{
}

/// A check finds no problem if and only if it succeeds, and what it finds is
/// what it says.
pub proof fn law_checks_say_what_they_found(
    result: Result<(), crate::config::ConfigError>,
    message: Seq<char>,
)
    requires
        crate::config::is_validation(result),
    ensures
        crate::config::problem_of(result) is None <==> result is Ok,
        crate::config::problem_of(result) == Some(message) <==> (result matches Err(
            crate::config::ConfigError::Validation(text),
        ) && text@ == message),
{
}

/// The first entry of the routes that is wrong is told: for its hostname, for
/// where it leads, or for a hostname that an entry before it has.
pub proof fn law_first_bad_route_is_told(
    good: Seq<(String, Route)>,
    bad: (String, Route),
    rest: Seq<(String, Route)>,
)
    requires
        crate::config::route_table(good) is Ok,
    ensures
        ({
            let table = crate::config::route_table(good)->Ok_0;
            let found = crate::config::route_table(good.push(bad) + rest);
            match entry_host(bad) {
                Err(message) => found == Err::<Map<Seq<char>, Route>, Seq<char>>(
                    message,
                ),
                Ok(host) => {
                    &&& !leads_home(bad.1) ==> (found matches Err(message)
                        && crate::config::route_problem(bad.1) == Some(message))
                    &&& leads_home(bad.1) && table.contains_key(host) ==> found == Err::<
                        Map<Seq<char>, Route>,
                        Seq<char>,
                    >("duplicate hostname after normalization: "@ + host)
                },
            }
        }),
{
    let here = good.push(bad);
    let all = here + rest;
    assert(here.drop_last() =~= good);
    assert(all.take(here.len() as int) =~= here);
    crate::config::lemma_route_table_stops(all, here.len() as int);
}

/// A configuration that the relay works with keeps to this machine, has a
/// hostname in normal form for each route, and has pools and limits that fit.
pub proof fn law_configurations_are_safe(config: crate::config::Config, name: Seq<char>)
    requires
        config.valid(),
    ensures
        config.allow_redirect_ingress_bind ==> takes_redirects(config.bind),
        !config.allow_redirect_ingress_bind ==> stays_home(config.bind),
        stays_home(config.health_bind),
        config.bind != config.health_bind,
        stays_home(config.fallbacks.unknown_sni),
        stays_home(config.fallbacks.no_sni),
        stays_home(config.fallbacks.plain_http),
        config.routes@.contains_key(name) ==> leads_home(config.routes@[name])
            && crate::hostname_laws::spelled(name) && name.len() <= 253
            && crate::hostname_laws::is_small_of(name, name),
        pools_fit(config.admission),
        bounds_fit(config.limits),
{
    if config.routes@.contains_key(name) {
        crate::hostname_laws::law_labels_are_spelled(name);
        crate::hostname_laws::law_lower_case(crate::text::trim_end_dots(name));
        let host = crate::hostname::canonical(name);
        assert(host == name);
        crate::hostname_laws::law_label_characters(name);
        assert(crate::text::trim_end_dots(name) == name);
    }
}

} // verus!
