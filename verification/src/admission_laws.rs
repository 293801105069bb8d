//! What admission is for: a connection is let in while there is room for it, is
//! refused only where there is none, and gives its place back.

use vstd::prelude::*;

use crate::address::IpAddr;
use crate::admission::{AdmissionView, Rejection};
use crate::config::Admission;

verus! {

/// The routed connections of a source that are under way.
pub open spec fn routed_of(view: AdmissionView, source: IpAddr) -> int {
    if view.sources.contains_key(source) {
        view.sources[source] as int
    } else {
        0
    }
}

/// A connection that comes in is let in if and only if fewer connections than
/// configured wait for their routing decision. It then is one of them, and
/// nothing else has changed.
pub proof fn law_room_before_the_decision(view: AdmissionView)
    ensures
        view.has_room() <==> view.pre_parse < view.limits.pre_parse_max_connections,
        view.enter().pre_parse == view.pre_parse + 1,
        view.enter().routed == view.routed,
        view.enter().fallback == view.fallback,
        view.enter().sources == view.sources,
        view.enter().limits == view.limits,
        view.pre_parse > 0 ==> view.abandon().pre_parse == view.pre_parse - 1,
        view.abandon().routed == view.routed,
        view.abandon().fallback == view.fallback,
        view.abandon().sources == view.sources,
        view.abandon().limits == view.limits,
        view.enter().abandon() == view,
{
    assert(view.enter().abandon() =~= view);
}

/// A routed connection is let on wherever its source has fewer connections than
/// a source may have and fewer connections than configured are routed in all.
/// It is refused for its source if and only if the source is at its cap, and
/// for the pool if and only if the source is not but the pool is full.
pub proof fn law_routed_connections_are_let_on(view: AdmissionView, source: IpAddr)
    ensures
        view.admit_routed(source).1 is None <==> routed_of(view, source)
            < view.limits.routed_max_connections_per_source && view.routed
            < view.limits.routed_max_connections,
        view.admit_routed(source).1 == Some(Rejection::RoutedSource) <==> routed_of(view, source)
            >= view.limits.routed_max_connections_per_source,
        view.admit_routed(source).1 == Some(Rejection::Routed) <==> routed_of(view, source)
            < view.limits.routed_max_connections_per_source && view.routed
            >= view.limits.routed_max_connections,
{
}

/// A routed connection that is let on moves from the pool before the decision
/// to the routed one, and counts for its source and for no other. One that is
/// refused leaves the first pool and is counted nowhere.
pub proof fn law_routed_connections_are_counted(
    view: AdmissionView,
    source: IpAddr,
    other: IpAddr,
)
    requires
        view.pre_parse > 0,
        source != other,
    ensures
        ({
            let (after, rejection) = view.admit_routed(source);
            let one: int = if rejection is None {
                1
            } else {
                0
            };
            &&& after.limits == view.limits
            &&& after.pre_parse == view.pre_parse - 1
            &&& after.fallback == view.fallback
            &&& after.routed == view.routed + one
            &&& routed_of(after, source) == routed_of(view, source) + one
            &&& routed_of(after, other) == routed_of(view, other)
        }),
{
}

/// A connection to a fallback is let on if and only if fewer connections than
/// configured go to fallbacks, whatever is routed. It moves from the pool before
/// the decision to that of the fallbacks; a refused one just leaves the first.
pub proof fn law_fallback_connections_are_let_on(view: AdmissionView)
    requires
        view.pre_parse > 0,
    ensures
        view.admit_fallback().1 is None <==> view.fallback < view.limits.fallback_max_connections,
        view.admit_fallback().1 is Some ==> view.admit_fallback().1 == Some(Rejection::Fallback),
        ({
            let (after, rejection) = view.admit_fallback();
            &&& after.limits == view.limits
            &&& after.pre_parse == view.pre_parse - 1
            &&& after.routed == view.routed
            &&& after.sources == view.sources
            &&& after.fallback == view.fallback + if rejection is None {
                1int
            } else {
                0int
            }
        }),
{
}

/// A connection that ends gives back its place in its pool, and a routed one
/// that of its source; no other place changes.
pub proof fn law_places_are_given_back(view: AdmissionView, source: IpAddr, other: IpAddr)
    requires
        source != other,
    ensures
        view.routed > 0 && routed_of(view, source) > 0 ==> {
            let after = view.finish_routed(source);
            &&& after.limits == view.limits
            &&& after.pre_parse == view.pre_parse
            &&& after.fallback == view.fallback
            &&& after.routed == view.routed - 1
            &&& routed_of(after, source) == routed_of(view, source) - 1
            &&& routed_of(after, other) == routed_of(view, other)
        },
        view.fallback > 0 ==> {
            let after = view.finish_fallback();
            &&& after.limits == view.limits
            &&& after.pre_parse == view.pre_parse
            &&& after.routed == view.routed
            &&& after.sources == view.sources
            &&& after.fallback == view.fallback - 1
        },
{
}

/// So many connections of one source came in one after the other, and each was
/// sent on to its route before the next.
pub open spec fn routed_in_turn(view: AdmissionView, source: IpAddr, n: nat) -> AdmissionView
    decreases n,
{
    if n == 0 {
        view
    } else {
        routed_in_turn(view, source, (n - 1) as nat).enter().admit_routed(source).0
    }
}

/// A source gets all the connections that it may have: as long as it stays
/// under its cap and the pool has room, one connection after the other is let
/// on, and one more is refused once the cap is reached.
pub proof fn law_source_gets_its_share(view: AdmissionView, source: IpAddr, n: nat)
    requires
        routed_of(view, source) + n <= view.limits.routed_max_connections_per_source,
        view.routed + n <= view.limits.routed_max_connections,
    ensures
        ({
            let after = routed_in_turn(view, source, n);
            &&& after.limits == view.limits
            &&& after.pre_parse == view.pre_parse
            &&& after.routed == view.routed + n
            &&& routed_of(after, source) == routed_of(view, source) + n
            &&& routed_of(after, source) < view.limits.routed_max_connections_per_source
                && after.routed < view.limits.routed_max_connections ==> after.enter().admit_routed(
                source,
            ).1 is None
            &&& routed_of(after, source) == view.limits.routed_max_connections_per_source
                ==> after.enter().admit_routed(source).1 == Some(Rejection::RoutedSource)
        }),
    decreases n,
{
    if n > 0 {
        law_source_gets_its_share(view, source, (n - 1) as nat);
    }
}

/// A relay that has just started has no connection anywhere.
pub proof fn law_pools_start_empty(limits: Admission, source: IpAddr)
    ensures
        ({
            let view = AdmissionView::idle(limits);
            &&& view.limits == limits
            &&& view.pre_parse == 0
            &&& view.routed == 0
            &&& view.fallback == 0
            &&& routed_of(view, source) == 0
        }),
{
}

/// Within its limits, a relay has no more connections in a pool than the pool
/// may hold, and no more of a source than a source may have.
pub proof fn law_limits_are_those_configured(view: AdmissionView, source: IpAddr)
    requires
        view.wf(),
    ensures
        view.pre_parse <= view.limits.pre_parse_max_connections,
        view.routed <= view.limits.routed_max_connections,
        view.fallback <= view.limits.fallback_max_connections,
        routed_of(view, source) <= view.limits.routed_max_connections_per_source,
        routed_of(view, source) <= view.routed,
{
    if view.sources.contains_key(source) {
        crate::admission::lemma_total_remove(view.sources, source);
    }
}

/// Pools are set up if and only if the process may have all the connections
/// that they admit together.
pub proof fn law_budget_is_that_of_the_process(limits: Admission, process_max: usize)
    ensures
        crate::admission::budget_problem(limits, process_max) is None
            <==> limits.pre_parse_max_connections + limits.routed_max_connections
            + limits.fallback_max_connections <= process_max,
        crate::admission::budget_problem(limits, process_max) matches Some(message) ==> {
            let sum = limits.pre_parse_max_connections + limits.routed_max_connections
                + limits.fallback_max_connections;
            if sum <= usize::MAX {
                message == "scoped admission budget "@ + crate::number::decimal_digits(sum as nat)
                    + " exceeds --max-connections "@ + crate::number::decimal_digits(
                    process_max as nat,
                )
            } else {
                message == "admission budget overflow"@
            }
        },
{
}

/// The connections of a source are counted up as they come in and down as they
/// end, each source by itself. A source that was never seen has none.
pub proof fn law_sources_are_counted(counts: Map<IpAddr, nat>, source: IpAddr, other: IpAddr)
    requires
        source != other,
    ensures
        counts.contains_key(source) ==> crate::admission::source_count(counts, source)
            == counts[source],
        !counts.contains_key(source) ==> crate::admission::source_count(counts, source) == 0,
        ({
            let more = crate::admission::source_entered(counts, source);
            let fewer = crate::admission::source_left(counts, source);
            let count = crate::admission::source_count(counts, source);
            &&& more.contains_key(source) && more[source] == count + 1
            &&& more.contains_key(other) <==> counts.contains_key(other)
            &&& counts.contains_key(other) ==> more[other] == counts[other]
            &&& count > 1 ==> fewer.contains_key(source) && fewer[source] == count - 1
            &&& count == 1 ==> !fewer.contains_key(source)
            &&& !counts.contains_key(source) ==> fewer == counts
            &&& fewer.contains_key(other) <==> counts.contains_key(other)
            &&& counts.contains_key(other) ==> fewer[other] == counts[other]
        }),
{
}

/// A connection that is refused is told which limit it met.
pub proof fn law_rejections_name_their_limit()
    ensures
        crate::admission::rejection_message(Rejection::RoutedSource)
            == "per-source routed admission limit reached"@,
        crate::admission::rejection_message(Rejection::Routed)
            == "routed admission limit reached"@,
        crate::admission::rejection_message(Rejection::Fallback)
            == "fallback admission limit reached"@,
{
}

} // verus!
