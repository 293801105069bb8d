//! How many connections may be where: one pool for connections whose first
//! bytes are not read yet, one for routed connections with a cap for each
//! source, and one for connections to a fallback.

use std::collections::HashMap;

use vstd::prelude::*;

use crate::address::IpAddr;
use crate::config::Admission;
use crate::error::{ErrorKind, RelayError};
use crate::number::decimal;

verus! {

broadcast use vstd::std_specs::hash::group_hash_axioms;

/// A semaphore of the tokio crate.
#[verifier::external_type_specification]
#[verifier::external_body]
pub struct ExSemaphore(tokio::sync::Semaphore);

/// The most permits that a semaphore of the tokio crate can have.
pub open spec fn max_permits() -> int {
    usize::MAX as int / 8
}

/// The permits that a semaphore has left.
pub uninterp spec fn permits(semaphore: tokio::sync::Semaphore) -> nat;

/// The semaphore has not been closed, and nobody waits for it.
pub uninterp spec fn is_open(semaphore: tokio::sync::Semaphore) -> bool;

/// `tokio::sync::Semaphore::new` makes a semaphore with so many permits. It
/// panics on more than `max_permits`.
#[verifier::external_body]
pub(crate) fn new_semaphore(count: usize) -> (semaphore: tokio::sync::Semaphore)
    requires
        count <= max_permits(),
    ensures
        is_open(semaphore),
        permits(semaphore) == count,
{
    tokio::sync::Semaphore::new(count)
}

/// `tokio::sync::Semaphore::try_acquire` takes a permit if there is one, and
/// `tokio::sync::SemaphorePermit::forget` keeps it from coming back by itself.
#[verifier::external_body]
pub(crate) fn take_permit(semaphore: &mut tokio::sync::Semaphore) -> (taken: bool)
    requires
        is_open(*old(semaphore)),
    ensures
        is_open(*final(semaphore)),
        taken == (permits(*old(semaphore)) > 0),
        permits(*final(semaphore)) == permits(*old(semaphore)) - if taken {
            1int
        } else {
            0int
        },
{
    match semaphore.try_acquire() {
        Ok(permit) => {
            permit.forget();
            true
        },
        Err(_) => false,
    }
}

/// `tokio::sync::Semaphore::add_permits` puts a permit back. It panics where
/// that makes more than `max_permits`.
#[verifier::external_body]
pub(crate) fn give_permit(semaphore: &mut tokio::sync::Semaphore)
    requires
        is_open(*old(semaphore)),
        permits(*old(semaphore)) < max_permits(),
    ensures
        is_open(*final(semaphore)),
        permits(*final(semaphore)) == permits(*old(semaphore)) + 1,
{
    semaphore.add_permits(1)
}

/// The connections of all sources together.
pub open spec fn total(counts: Map<IpAddr, nat>) -> nat
    decreases counts.dom().len(),
    when counts.dom().finite()
{
    if counts.dom().len() == 0 {
        0
    } else {
        let source = counts.dom().choose();
        counts[source] + total(counts.remove(source))
    }
}

/// The counts once a connection of a source was let in.
pub open spec fn source_entered(counts: Map<IpAddr, nat>, source: IpAddr) -> Map<IpAddr, nat> {
    counts.insert(source, source_count(counts, source) + 1)
}

/// The counts once a connection of a source has ended. A source without
/// connections is forgotten.
pub open spec fn source_left(counts: Map<IpAddr, nat>, source: IpAddr) -> Map<IpAddr, nat> {
    if !counts.contains_key(source) {
        counts
    } else if counts[source] == 1 {
        counts.remove(source)
    } else {
        counts.insert(source, (counts[source] - 1) as nat)
    }
}

/// The connections of a source.
pub open spec fn source_count(counts: Map<IpAddr, nat>, source: IpAddr) -> nat {
    if counts.contains_key(source) {
        counts[source]
    } else {
        0
    }
}

/// Caps the connections of each source.
pub struct SourceAdmission {
    max_connections: usize,
    active_v4: HashMap<u32, usize>,
    active_v6: HashMap<u128, usize>,
}

impl View for SourceAdmission {
    type V = Map<IpAddr, nat>;

    closed spec fn view(&self) -> Map<IpAddr, nat> {
        Map::new(
            |source: IpAddr|
                match source {
                    IpAddr::V4(bits) => self.active_v4@.contains_key(bits),
                    IpAddr::V6(bits) => self.active_v6@.contains_key(bits),
                },
            |source: IpAddr|
                match source {
                    IpAddr::V4(bits) => self.active_v4@[bits] as nat,
                    IpAddr::V6(bits) => self.active_v6@[bits] as nat,
                },
        )
    }
}

impl SourceAdmission {
    /// The most connections of one source.
    pub closed spec fn max(&self) -> nat {
        self.max_connections as nat
    }

    /// No source has connections yet.
    pub fn new(max_connections: usize) -> (admission: Self)
        ensures
            admission.max() == max_connections,
            admission@ == Map::<IpAddr, nat>::empty(),
    {
        let admission = SourceAdmission {
            max_connections,
            active_v4: HashMap::new(),
            active_v6: HashMap::new(),
        };
        assert(admission@ =~= Map::<IpAddr, nat>::empty());
        admission
    }

    fn count_of(&self, source: IpAddr) -> (count: Option<usize>)
        ensures
            count is Some <==> self@.contains_key(source),
            count matches Some(n) ==> n == self@[source],
    {
        match source {
            IpAddr::V4(bits) => match self.active_v4.get(&bits) {
                Some(n) => Some(*n),
                None => None,
            },
            IpAddr::V6(bits) => match self.active_v6.get(&bits) {
                Some(n) => Some(*n),
                None => None,
            },
        }
    }

    fn set_count(&mut self, source: IpAddr, count: usize)
        ensures
            final(self).max() == old(self).max(),
            final(self)@ == old(self)@.insert(source, count as nat),
    {
        match source {
            IpAddr::V4(bits) => {
                self.active_v4.insert(bits, count);
            },
            IpAddr::V6(bits) => {
                self.active_v6.insert(bits, count);
            },
        }
        assert(self@ =~= old(self)@.insert(source, count as nat));
    }

    fn forget(&mut self, source: IpAddr)
        ensures
            final(self).max() == old(self).max(),
            final(self)@ == old(self)@.remove(source),
    {
        match source {
            IpAddr::V4(bits) => {
                self.active_v4.remove(&bits);
            },
            IpAddr::V6(bits) => {
                self.active_v6.remove(&bits);
            },
        }
        assert(self@ =~= old(self)@.remove(source));
    }

    /// Lets in a connection of a source, if the source has not reached its cap.
    /// A refused source is remembered, with no connection if it had none.
    pub fn try_acquire(&mut self, source: IpAddr) -> (entered: bool)
        ensures
            final(self).max() == old(self).max(),
            entered == (source_count(old(self)@, source) < old(self).max()),
            final(self)@ == if entered {
                source_entered(old(self)@, source)
            } else {
                old(self)@.insert(source, source_count(old(self)@, source))
            },
    {
        let known = self.count_of(source);
        let count = match known {
            Some(n) => n,
            None => 0,
        };
        if count >= self.max_connections {
            if known.is_none() {
                self.set_count(source, 0);
            }
            assert(self@ =~= old(self)@.insert(source, source_count(old(self)@, source)));
            return false;
        }
        self.set_count(source, count + 1);
        true
    }

    /// Lets out a connection of a source.
    pub fn release(&mut self, source: IpAddr)
        requires
            old(self)@.contains_key(source) ==> old(self)@[source] > 0,
        ensures
            final(self).max() == old(self).max(),
            final(self)@ == source_left(old(self)@, source),
    {
        if let Some(count) = self.count_of(source) {
            if count == 1 {
                self.forget(source);
            } else {
                self.set_count(source, count - 1);
            }
        }
    }
}

/// Why a connection is not let on.
#[derive(Clone, Copy, Debug, PartialEq, Eq, Structural)]
pub enum Rejection {
    RoutedSource,
    Routed,
    Fallback,
}

/// What a rejected connection is closed with.
pub open spec fn rejection_message(rejection: Rejection) -> Seq<char> {
    match rejection {
        Rejection::RoutedSource => "per-source routed admission limit reached"@,
        Rejection::Routed => "routed admission limit reached"@,
        Rejection::Fallback => "fallback admission limit reached"@,
    }
}

impl Rejection {
    /// The error that a rejected connection is closed with.
    pub fn error(self) -> (error: RelayError)
        ensures
            error.is(ErrorKind::WouldBlock, rejection_message(self)),
    {
        match self {
            Rejection::RoutedSource => RelayError::new(
                ErrorKind::WouldBlock,
                "per-source routed admission limit reached",
            ),
            Rejection::Routed => RelayError::new(
                ErrorKind::WouldBlock,
                "routed admission limit reached",
            ),
            Rejection::Fallback => RelayError::new(
                ErrorKind::WouldBlock,
                "fallback admission limit reached",
            ),
        }
    }
}

/// How many connections are where: before the routing decision, routed, to a
/// fallback, and the routed ones by source.
#[verifier::ext_equal]
pub struct AdmissionView {
    pub limits: Admission,
    pub pre_parse: nat,
    pub routed: nat,
    pub fallback: nat,
    pub sources: Map<IpAddr, nat>,
}

impl AdmissionView {
    /// What every operation keeps: no pool and no source is over its limit, and
    /// each routed connection is counted for one source.
    pub open spec fn wf(self) -> bool {
        &&& self.pre_parse <= self.limits.pre_parse_max_connections <= max_permits()
        &&& self.routed <= self.limits.routed_max_connections <= max_permits()
        &&& self.fallback <= self.limits.fallback_max_connections <= max_permits()
        &&& self.sources.dom().finite()
        &&& total(self.sources) == self.routed
        &&& forall|source: IpAddr| #[trigger]
            self.sources.contains_key(source) ==> self.sources[source]
                <= self.limits.routed_max_connections_per_source
        &&& self.limits.routed_max_connections_per_source > 0 ==> forall|source: IpAddr| #[trigger]
            self.sources.contains_key(source) ==> self.sources[source] > 0
    }

    /// No connection anywhere.
    pub open spec fn idle(limits: Admission) -> AdmissionView {
        AdmissionView { limits, pre_parse: 0, routed: 0, fallback: 0, sources: Map::empty() }
    }

    /// The pool before the routing decision has room.
    pub open spec fn has_room(self) -> bool {
        self.pre_parse < self.limits.pre_parse_max_connections
    }

    /// After a connection came in.
    pub open spec fn enter(self) -> AdmissionView {
        AdmissionView { pre_parse: self.pre_parse + 1, ..self }
    }

    /// After a connection left before the routing decision.
    pub open spec fn abandon(self) -> AdmissionView {
        AdmissionView { pre_parse: (self.pre_parse - 1) as nat, ..self }
    }

    /// After the routing decision for a connection of a source was a route.
    pub open spec fn admit_routed(self, source: IpAddr) -> (AdmissionView, Option<Rejection>) {
        let left = self.abandon();
        let count = source_count(self.sources, source);
        if count >= self.limits.routed_max_connections_per_source {
            (
                AdmissionView { sources: self.sources.insert(source, count), ..left },
                Some(Rejection::RoutedSource),
            )
        } else if self.routed >= self.limits.routed_max_connections {
            (left, Some(Rejection::Routed))
        } else {
            (
                AdmissionView {
                    routed: self.routed + 1,
                    sources: source_entered(self.sources, source),
                    ..left
                },
                None,
            )
        }
    }

    /// After the routing decision for a connection was a fallback.
    pub open spec fn admit_fallback(self) -> (AdmissionView, Option<Rejection>) {
        let left = self.abandon();
        if self.fallback >= self.limits.fallback_max_connections {
            (left, Some(Rejection::Fallback))
        } else {
            (AdmissionView { fallback: self.fallback + 1, ..left }, None)
        }
    }

    /// After a routed connection of a source has ended.
    pub open spec fn finish_routed(self, source: IpAddr) -> AdmissionView {
        AdmissionView {
            routed: (self.routed - 1) as nat,
            sources: source_left(self.sources, source),
            ..self
        }
    }

    /// After a connection to a fallback has ended.
    pub open spec fn finish_fallback(self) -> AdmissionView {
        AdmissionView { fallback: (self.fallback - 1) as nat, ..self }
    }
}

pub proof fn lemma_total_remove(counts: Map<IpAddr, nat>, source: IpAddr)
    requires
        counts.dom().finite(),
        counts.contains_key(source),
    ensures
        total(counts) == counts[source] + total(counts.remove(source)),
    decreases counts.dom().len(),
{
    let first = counts.dom().choose();
    assert(counts.dom().len() > 0);
    assert(counts.contains_key(first));
    if first != source {
        let rest = counts.remove(first);
        assert(rest.dom() =~= counts.dom().remove(first));
        lemma_total_remove(rest, source);
        let both = counts.remove(source);
        assert(both.dom() =~= counts.dom().remove(source));
        lemma_total_remove(both, first);
        assert(rest.remove(source) =~= both.remove(first));
    }
}

proof fn lemma_total_insert(counts: Map<IpAddr, nat>, source: IpAddr, count: nat)
    requires
        counts.dom().finite(),
    ensures
        counts.insert(source, count).dom().finite(),
        total(counts.insert(source, count)) + source_count(counts, source) == total(counts) + count,
{
    let after = counts.insert(source, count);
    assert(after.dom() =~= counts.dom().insert(source));
    lemma_total_remove(after, source);
    if counts.contains_key(source) {
        lemma_total_remove(counts, source);
        assert(after.remove(source) =~= counts.remove(source));
    } else {
        assert(after.remove(source) =~= counts);
    }
}

proof fn lemma_total_left(counts: Map<IpAddr, nat>, source: IpAddr)
    requires
        counts.dom().finite(),
        counts.contains_key(source),
        counts[source] > 0,
    ensures
        source_left(counts, source).dom().finite(),
        total(source_left(counts, source)) == total(counts) - 1,
{
    if counts[source] == 1 {
        lemma_total_remove(counts, source);
        assert(counts.remove(source).dom() =~= counts.dom().remove(source));
    } else {
        lemma_total_insert(counts, source, (counts[source] - 1) as nat);
    }
}

/// Whatever happens to connections, no pool and no source goes over its limit,
/// and each routed connection is counted for one source.
pub proof fn law_limits_hold(view: AdmissionView, source: IpAddr)
    requires
        view.wf(),
    ensures
        AdmissionView::idle(view.limits).wf(),
        view.has_room() ==> view.enter().wf(),
        view.pre_parse > 0 ==> view.abandon().wf() && view.admit_routed(source).0.wf()
            && view.admit_fallback().0.wf(),
        source_count(view.sources, source) > 0 ==> view.finish_routed(source).wf(),
        view.fallback > 0 ==> view.finish_fallback().wf(),
{
    let counts = view.sources;
    assert(Map::<IpAddr, nat>::empty().dom() =~= Set::empty());
    lemma_total_insert(counts, source, source_count(counts, source));
    lemma_total_insert(counts, source, source_count(counts, source) + 1);
    if source_count(counts, source) > 0 {
        lemma_total_left(counts, source);
        lemma_total_remove(counts, source);
    }
}

/// A connection that comes in, is routed and ends leaves everything as it was.
pub proof fn law_routed_connection_leaves_no_trace(view: AdmissionView, source: IpAddr)
    requires
        view.wf(),
        view.enter().admit_routed(source).1 is None,
    ensures
        view.enter().admit_routed(source).0.finish_routed(source) == view,
{
    let after = view.enter().admit_routed(source).0.finish_routed(source);
    assert(after.sources =~= view.sources);
    assert(after =~= view);
}

/// A connection that comes in, goes to a fallback and ends leaves everything as
/// it was.
pub proof fn law_fallback_connection_leaves_no_trace(view: AdmissionView)
    requires
        view.wf(),
        view.enter().admit_fallback().1 is None,
    ensures
        view.enter().admit_fallback().0.finish_fallback() == view,
{
    assert(view.enter().admit_fallback().0.finish_fallback() =~= view);
}

/// A rejected connection leaves everything as it was.
pub proof fn law_rejected_connection_leaves_no_trace(view: AdmissionView, source: IpAddr)
    requires
        view.wf(),
        view.limits.routed_max_connections_per_source > 0,
    ensures
        view.enter().admit_routed(source).1 is Some ==> view.enter().admit_routed(source).0 == view,
        view.enter().admit_fallback().1 is Some ==> view.enter().admit_fallback().0 == view,
{
    let count = source_count(view.sources, source);
    if count >= view.limits.routed_max_connections_per_source {
        assert(view.sources.insert(source, count) =~= view.sources);
    }
    if view.enter().admit_routed(source).1 is Some {
        assert(view.enter().admit_routed(source).0 =~= view);
    }
    if view.enter().admit_fallback().1 is Some {
        assert(view.enter().admit_fallback().0 =~= view);
    }
}

/// Connections to a fallback take nothing from routed ones: whether a route is
/// open to a source does not depend on them, and the other way round.
pub proof fn law_pools_are_separate(view: AdmissionView, other: AdmissionView, source: IpAddr)
    requires
        view.limits == other.limits,
    ensures
        view.routed == other.routed && view.sources == other.sources ==> view.admit_routed(source).1
            == other.admit_routed(source).1,
        view.fallback == other.fallback ==> view.admit_fallback().1 == other.admit_fallback().1,
        view.admit_fallback().0.routed == view.routed,
        view.admit_fallback().0.sources == view.sources,
        view.admit_routed(source).0.fallback == view.fallback,
{
}

/// One source at its cap keeps no other source out.
pub proof fn law_sources_are_separate(view: AdmissionView, source: IpAddr, other: IpAddr)
    requires
        source != other,
    ensures
        source_count(view.admit_routed(source).0.sources, other) == source_count(
            view.sources,
            other,
        ),
{
}

/// The three pools and the cap for each source.
pub struct AdmissionControl {
    configured: Admission,
    pre_parse: tokio::sync::Semaphore,
    routed: tokio::sync::Semaphore,
    routed_sources: SourceAdmission,
    fallback: tokio::sync::Semaphore,
}

impl View for AdmissionControl {
    type V = AdmissionView;

    closed spec fn view(&self) -> AdmissionView {
        AdmissionView {
            limits: self.configured,
            pre_parse: (self.configured.pre_parse_max_connections - permits(
                self.pre_parse,
            )) as nat,
            routed: (self.configured.routed_max_connections - permits(self.routed)) as nat,
            fallback: (self.configured.fallback_max_connections - permits(self.fallback)) as nat,
            sources: self.routed_sources@,
        }
    }
}

/// Why pools of these sizes cannot be set up in a process with this limit.
pub open spec fn budget_problem(limits: Admission, process_max: usize) -> Option<Seq<char>> {
    let budget = crate::config::connection_budget(limits);
    if budget > usize::MAX {
        Some("admission budget overflow"@)
    } else if budget > process_max {
        Some(
            "scoped admission budget "@ + crate::number::decimal_digits(budget as nat)
                + " exceeds --max-connections "@ + crate::number::decimal_digits(
                process_max as nat,
            ),
        )
    } else {
        None
    }
}

impl AdmissionControl {
    /// What every operation keeps.
    pub closed spec fn wf(&self) -> bool {
        &&& is_open(self.pre_parse)
        &&& is_open(self.routed)
        &&& is_open(self.fallback)
        &&& permits(self.pre_parse) <= self.configured.pre_parse_max_connections
        &&& permits(self.routed) <= self.configured.routed_max_connections
        &&& permits(self.fallback) <= self.configured.fallback_max_connections
        &&& self.routed_sources.max() == self.configured.routed_max_connections_per_source
        &&& self@.wf()
    }

    /// The view keeps within its limits.
    pub proof fn lemma_wf(&self)
        requires
            self.wf(),
        ensures
            self@.wf(),
    {
    }

    /// Pools without connections, where the process may have that many.
    pub fn new(scoped: Admission, process_max_connections: usize) -> (control: Result<
        Self,
        RelayError,
    >)
        requires
            budget_problem(scoped, process_max_connections) is None
                ==> scoped.pre_parse_max_connections <= max_permits()
                && scoped.routed_max_connections <= max_permits()
                && scoped.fallback_max_connections <= max_permits(),
        ensures
            match control {
                Ok(c) => {
                    &&& budget_problem(scoped, process_max_connections) is None
                    &&& c.wf()
                    &&& c@ == AdmissionView::idle(scoped)
                },
                Err(error) => budget_problem(scoped, process_max_connections) matches Some(message)
                    && error.is(ErrorKind::InvalidInput, message),
            },
    {
        let configured = match scoped.pre_parse_max_connections.checked_add(
            scoped.routed_max_connections,
        ) {
            Some(two) => two.checked_add(scoped.fallback_max_connections),
            None => None,
        };
        let budget = match configured {
            Some(budget) => budget,
            None => {
                return Err(RelayError::new(ErrorKind::InvalidInput, "admission budget overflow"));
            },
        };
        if budget > process_max_connections {
            let mut message = "scoped admission budget ".to_string();
            message.append(decimal(budget as u64).as_str());
            message.append(" exceeds --max-connections ");
            message.append(decimal(process_max_connections as u64).as_str());
            return Err(RelayError { kind: ErrorKind::InvalidInput, message });
        }
        let control = AdmissionControl {
            configured: scoped,
            pre_parse: new_semaphore(scoped.pre_parse_max_connections),
            routed: new_semaphore(scoped.routed_max_connections),
            routed_sources: SourceAdmission::new(scoped.routed_max_connections_per_source),
            fallback: new_semaphore(scoped.fallback_max_connections),
        };
        assert(Map::<IpAddr, nat>::empty().dom() =~= Set::empty());
        assert(control@ =~= AdmissionView::idle(scoped));
        Ok(control)
    }

    /// The limits that the pools were set up with.
    pub fn configured(&self) -> (limits: Admission)
        ensures
            limits == self@.limits,
    {
        self.configured
    }

    /// Lets in a connection, if there is room before the routing decision.
    pub fn enter(&mut self) -> (entered: bool)
        requires
            old(self).wf(),
        ensures
            final(self).wf(),
            entered == old(self)@.has_room(),
            final(self)@ == if entered {
                old(self)@.enter()
            } else {
                old(self)@
            },
    {
        let entered = take_permit(&mut self.pre_parse);
        assert(self@ =~= if entered { old(self)@.enter() } else { old(self)@ });
        entered
    }

    /// Lets out a connection before the routing decision.
    pub fn abandon(&mut self)
        requires
            old(self).wf(),
            old(self)@.pre_parse > 0,
        ensures
            final(self).wf(),
            final(self)@ == old(self)@.abandon(),
    {
        give_permit(&mut self.pre_parse);
        assert(self@ =~= old(self)@.abandon());
    }

    /// Lets a connection of a source on to its route. In any case it has left
    /// the pool before the routing decision.
    pub fn admit_routed(&mut self, source: IpAddr) -> (result: Result<(), Rejection>)
        requires
            old(self).wf(),
            old(self)@.pre_parse > 0,
        ensures
            final(self).wf(),
            final(self)@ == old(self)@.admit_routed(source).0,
            result == match old(self)@.admit_routed(source).1 {
                Some(rejection) => Err::<(), Rejection>(rejection),
                None => Ok::<(), Rejection>(()),
            },
    {
        proof {
            law_limits_hold(self@, source);
        }
        let ghost counts = self@.sources;
        give_permit(&mut self.pre_parse);
        if !self.routed_sources.try_acquire(source) {
            assert(self@ =~= old(self)@.admit_routed(source).0);
            return Err(Rejection::RoutedSource);
        }
        if !take_permit(&mut self.routed) {
            self.routed_sources.release(source);
            assert(self.routed_sources@ =~= counts);
            assert(self@ =~= old(self)@.admit_routed(source).0);
            return Err(Rejection::Routed);
        }
        assert(self@ =~= old(self)@.admit_routed(source).0);
        Ok(())
    }

    /// Lets a connection on to a fallback. In any case it has left the pool
    /// before the routing decision.
    pub fn admit_fallback(&mut self) -> (result: Result<(), Rejection>)
        requires
            old(self).wf(),
            old(self)@.pre_parse > 0,
        ensures
            final(self).wf(),
            final(self)@ == old(self)@.admit_fallback().0,
            result == match old(self)@.admit_fallback().1 {
                Some(rejection) => Err::<(), Rejection>(rejection),
                None => Ok::<(), Rejection>(()),
            },
    {
        give_permit(&mut self.pre_parse);
        if !take_permit(&mut self.fallback) {
            assert(self@ =~= old(self)@.admit_fallback().0);
            return Err(Rejection::Fallback);
        }
        assert(self@ =~= old(self)@.admit_fallback().0);
        Ok(())
    }

    /// Lets out a routed connection of a source.
    pub fn finish_routed(&mut self, source: IpAddr)
        requires
            old(self).wf(),
            source_count(old(self)@.sources, source) > 0,
        ensures
            final(self).wf(),
            final(self)@ == old(self)@.finish_routed(source),
    {
        proof {
            law_limits_hold(self@, source);
            lemma_total_remove(self@.sources, source);
        }
        give_permit(&mut self.routed);
        self.routed_sources.release(source);
        assert(self@ =~= old(self)@.finish_routed(source));
    }

    /// Lets out a connection to a fallback.
    pub fn finish_fallback(&mut self)
        requires
            old(self).wf(),
            old(self)@.fallback > 0,
        ensures
            final(self).wf(),
            final(self)@ == old(self)@.finish_fallback(),
    {
        give_permit(&mut self.fallback);
        assert(self@ =~= old(self)@.finish_fallback());
    }
}

} // verus!
