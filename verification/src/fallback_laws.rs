//! What the TLS fallback does with a connection, and what it tells of it.

use vstd::prelude::*;

use crate::address::SocketAddr;
use crate::error::ErrorKind;
use crate::fallback::{
    FallbackAction, FallbackCounter, FallbackEventView, FallbackServiceAction, FallbackServiceEvent,
    FallbackState, FallbackView, HandshakeFailure,
};
use crate::service::ServicePhase;
use crate::sni_policy::PolicyView;

verus! {

/// The name under which a counter is told.
pub open spec fn counter_name(counter: FallbackCounter) -> Seq<char> {
    match counter {
        FallbackCounter::Accepted => "sni_fallback_connections_accepted_total"@,
        FallbackCounter::AdmissionRejected => "sni_fallback_admission_rejected_total"@,
        FallbackCounter::HandshakeErrors => "sni_fallback_handshake_errors_total"@,
        FallbackCounter::HandshakeTimeouts => "sni_fallback_handshake_timeouts_total"@,
        FallbackCounter::SniRejected => "sni_fallback_sni_rejected_total"@,
        FallbackCounter::BackendErrors => "sni_fallback_backend_errors_total"@,
        FallbackCounter::BackendConnectTimeouts => "sni_fallback_backend_connect_timeouts_total"@,
        FallbackCounter::ReloadSuccess => "sni_fallback_certificate_reload_success_total"@,
        FallbackCounter::ReloadFailure => "sni_fallback_certificate_reload_failure_total"@,
        FallbackCounter::GracefulShutdowns => "sni_fallback_graceful_shutdown_total"@,
        FallbackCounter::ForcedShutdownConnections => "sni_fallback_forced_shutdown_connections_total"@,
    }
}

/// The value of a counter.
pub open spec fn told(view: FallbackView, counter: FallbackCounter) -> nat {
    view.metrics.counters[counter.index() as int]
}

/// The value that is told under the name of a counter is that of the counter,
/// and the number of connections is told under its own name.
pub proof fn law_values_stand_under_their_names(view: FallbackView, counter: FallbackCounter)
    requires
        view.wf(),
    ensures
        exists|i: int|
            0 <= i < view.metrics.counters.len() && #[trigger] view.metrics.counter_names[i]
                == counter_name(counter) && view.metrics.counters[i] == told(view, counter),
        view.metrics.gauge_names[0] == "sni_fallback_connections_active"@,
        view.metrics.gauges[0] == view.held,
{
    let i = counter.index() as int;
    assert(view.metrics.counter_names[i] == crate::fallback::counters()[i].name@);
    assert(view.metrics.gauge_names[0] == crate::fallback::gauges()[0].name@);
}

/// What is counted for one counter is counted for no other.
pub proof fn law_counters_are_separate(view: FallbackView, counter: FallbackCounter, amount: nat)
    requires
        view.metrics.counters.len() == 11,
    ensures
        ({
            let after = view.count(counter, amount);
            &&& told(after, counter) == (told(view, counter) + amount) % 0x1_0000_0000_0000_0000
            &&& forall|other: FallbackCounter|
                other != counter ==> #[trigger] told(after, other) == told(view, other)
            &&& after.metrics.gauges == view.metrics.gauges
            &&& after.held == view.held
            &&& after.max == view.max
        }),
{
}

/// Every connection is counted as it comes. It is let in if and only if there
/// are fewer than the limit, and is then one of them; otherwise it is counted as
/// rejected.
pub proof fn law_accepted_connections_are_counted(view: FallbackView)
    requires
        view.wf(),
    ensures
        ({
            let after = view.accept();
            &&& told(after, FallbackCounter::Accepted) == (told(view, FallbackCounter::Accepted)
                + 1) % 0x1_0000_0000_0000_0000
            &&& view.held < view.max ==> after.held == view.held + 1 && told(
                after,
                FallbackCounter::AdmissionRejected,
            ) == told(view, FallbackCounter::AdmissionRejected)
            &&& view.held >= view.max ==> after.held == view.held && told(
                after,
                FallbackCounter::AdmissionRejected,
            ) == (told(view, FallbackCounter::AdmissionRejected) + 1) % 0x1_0000_0000_0000_0000
            &&& after.metrics.gauges[0] == after.held
            &&& after.max == view.max
            &&& forall|other: FallbackCounter|
                other != FallbackCounter::Accepted && other != FallbackCounter::AdmissionRejected
                    ==> #[trigger] told(after, other) == told(view, other)
        }),
        view.held > 0 ==> {
            let after = view.close();
            &&& after.held == view.held - 1
            &&& after.metrics.gauges[0] == after.held
            &&& after.metrics.counters == view.metrics.counters
            &&& after.max == view.max
        },
{
}

/// A connection whose ClientHello asks for an allowed name goes on to its
/// handshake; one that asks for another name, or for none, is closed before any
/// key exchange and counted as that.
pub proof fn law_names_decide_on_the_handshake(policy: PolicyView, name: Option<Seq<char>>)
    ensures
        crate::fallback::fallback_step(
            FallbackState::AwaitingHello,
            FallbackEventView::Hello(name),
            policy,
        ) == if crate::sni_policy::policy_allows(policy, name) {
            (FallbackState::Handshaking, FallbackAction::Handshake, None::<FallbackCounter>)
        } else {
            (FallbackState::Over, FallbackAction::Close, Some(FallbackCounter::SniRejected))
        },
        !crate::sni_policy::policy_allows(policy, None),
{
}

/// A connection that is let in by its name is connected to the backend once its
/// handshake is done, relayed once it is connected, and closed without a word
/// once the relay has ended.
pub proof fn law_steps_are_in_order(policy: PolicyView)
    ensures
        crate::fallback::fallback_step(
            FallbackState::Handshaking,
            FallbackEventView::Done,
            policy,
        ) == (FallbackState::Connecting, FallbackAction::Connect, None::<FallbackCounter>),
        crate::fallback::fallback_step(
            FallbackState::Connecting,
            FallbackEventView::Done,
            policy,
        ) == (FallbackState::Relaying, FallbackAction::Relay, None::<FallbackCounter>),
        crate::fallback::fallback_step(
            FallbackState::Relaying,
            FallbackEventView::Done,
            policy,
        ) == (FallbackState::Over, FallbackAction::Close, None::<FallbackCounter>),
{
}

/// A step that fails or takes too long closes the connection and is counted for
/// what it is: a handshake as failed or timed out, a connect as a fault of the
/// backend or timed out, and a relay as a fault of the backend unless the peer
/// went away.
pub proof fn law_failures_are_counted(policy: PolicyView, kind: ErrorKind, state: FallbackState)
    requires
        state == FallbackState::AwaitingHello || state == FallbackState::Handshaking,
    ensures
        crate::fallback::fallback_step(state, FallbackEventView::Failed(kind), policy) == (
            FallbackState::Over,
            FallbackAction::Close,
            Some(FallbackCounter::HandshakeErrors),
        ),
        crate::fallback::fallback_step(state, FallbackEventView::TimedOut, policy) == (
            FallbackState::Over,
            FallbackAction::Close,
            Some(FallbackCounter::HandshakeTimeouts),
        ),
        crate::fallback::fallback_step(
            FallbackState::Connecting,
            FallbackEventView::Failed(kind),
            policy,
        ) == (FallbackState::Over, FallbackAction::Close, Some(FallbackCounter::BackendErrors)),
        crate::fallback::fallback_step(
            FallbackState::Connecting,
            FallbackEventView::TimedOut,
            policy,
        ) == (
            FallbackState::Over,
            FallbackAction::Close,
            Some(FallbackCounter::BackendConnectTimeouts),
        ),
        crate::fallback::fallback_step(
            FallbackState::Relaying,
            FallbackEventView::Failed(kind),
            policy,
        ) == (
            FallbackState::Over,
            FallbackAction::Close,
            match kind {
                ErrorKind::BrokenPipe
                | ErrorKind::ConnectionAborted
                | ErrorKind::ConnectionReset
                | ErrorKind::NotConnected
                | ErrorKind::UnexpectedEof => None,
                _ => Some(FallbackCounter::BackendErrors),
            },
        ),
{
}

/// An event that is counted is counted once, and no other counter moves.
pub proof fn law_events_are_counted_once(view: FallbackView, counter: Option<FallbackCounter>)
    ensures
        counter is None ==> view.count_one(counter) == view,
        counter is Some ==> view.count_one(counter) == view.count(counter->0, 1),
{
}

/// The fallback does about an event what the event asks for: it serves a
/// connection while there is room, takes over a certificate that has loaded,
/// and once it is asked to stop drains for as long as it is told and then aborts
/// what is left.
pub proof fn law_service_events_are_answered(
    view: FallbackView,
    phase: ServicePhase,
    drain_seconds: u64,
    event: FallbackServiceEvent,
)
    ensures
        ({
            let action = crate::fallback::service_action(view, phase, drain_seconds, event);
            match event {
                FallbackServiceEvent::Accepted => if view.held < view.max {
                    action == FallbackServiceAction::Serve
                } else {
                    action == FallbackServiceAction::DropConnection
                },
                FallbackServiceEvent::AcceptFailed => action == FallbackServiceAction::FailAsEvent,
                FallbackServiceEvent::Hangup(Ok(config)) => action
                    == FallbackServiceAction::Store(config),
                FallbackServiceEvent::Hangup(Err(error)) => action
                    == FallbackServiceAction::LogRefusal(error),
                FallbackServiceEvent::Stop => action == FallbackServiceAction::Drain(drain_seconds),
                FallbackServiceEvent::TaskEnded(true) => action == FallbackServiceAction::Continue,
                FallbackServiceEvent::TaskEnded(false) => if phase == ServicePhase::Draining {
                    action == FallbackServiceAction::Continue
                } else {
                    action == FallbackServiceAction::LogTask
                },
                FallbackServiceEvent::Drained => action == FallbackServiceAction::Finish,
                FallbackServiceEvent::DrainTimedOut(_) => action == FallbackServiceAction::AbortAll,
            }
        }),
        ({
            let next = crate::fallback::service_phase(phase, event);
            &&& event is Stop ==> next == ServicePhase::Draining
            &&& event is AcceptFailed || event is Drained || event is DrainTimedOut ==> next
                == ServicePhase::Stopped
            &&& event is Accepted || event is Hangup || event is TaskEnded ==> next == phase
        }),
        ({
            let after = crate::fallback::service_counted(view, event);
            match event {
                FallbackServiceEvent::Accepted => after == view.accept(),
                FallbackServiceEvent::Hangup(Ok(_)) => after == view.count(
                    FallbackCounter::ReloadSuccess,
                    1,
                ),
                FallbackServiceEvent::Hangup(Err(_)) => after == view.count(
                    FallbackCounter::ReloadFailure,
                    1,
                ),
                FallbackServiceEvent::Stop => after == view.count(
                    FallbackCounter::GracefulShutdowns,
                    1,
                ),
                FallbackServiceEvent::DrainTimedOut(left) => after == view.count(
                    FallbackCounter::ForcedShutdownConnections,
                    left as nat,
                ),
                _ => after == view,
            }
        }),
{
}

/// Connections, reloads and the request to stop are taken while serving, and
/// draining ends while draining.
pub proof fn law_events_come_in_their_phase(phase: ServicePhase, event: FallbackServiceEvent)
    ensures
        phase == ServicePhase::Serving ==> (crate::fallback::service_can(phase, event) <==> !(event
            is Drained) && !(event is DrainTimedOut)),
        phase == ServicePhase::Draining ==> (crate::fallback::service_can(phase, event) <==> event
            is TaskEnded || event is Drained || event is DrainTimedOut),
        phase == ServicePhase::Stopped ==> !crate::fallback::service_can(phase, event),
{
}

/// The fallback runs if and only if all its addresses are of this machine, and
/// names the first that is not.
pub proof fn law_addresses_are_local(listen: SocketAddr, backend: SocketAddr, metrics: SocketAddr)
    ensures
        ({
            let a = crate::address::loopback(listen.ip());
            let b = crate::address::loopback(backend.ip());
            let c = crate::address::loopback(metrics.ip());
            let foreign = crate::fallback::foreign_address(listen, backend, metrics);
            &&& foreign is None <==> a && b && c
            &&& !a ==> foreign == Some("listen"@)
            &&& a && !b ==> foreign == Some("backend"@)
            &&& a && b && !c ==> foreign == Some("metrics"@)
        }),
{
}

/// The numbers on the command line: up to a million connections, five minutes of
/// time and 256 workers, and at least one of each.
pub proof fn law_numbers_are_bounded(value: Seq<char>, n: nat)
    requires
        crate::number::decimal_value(value) == Some(n),
    ensures
        crate::fallback::max_connections_value(value) == Ok::<nat, Seq<char>>(n) <==> 1 <= n
            <= 1_000_000,
        crate::fallback::timeout_ms_value(value) == Ok::<nat, Seq<char>>(n) <==> 1 <= n <= 300_000,
        crate::fallback::runtime_workers_value(value) == Ok::<nat, Seq<char>>(n) <==> 1 <= n <= 256,
        n <= usize::MAX && !(1 <= n <= 1_000_000) ==> crate::fallback::max_connections_value(value)
            == Err::<nat, Seq<char>>("max-connections must be between 1 and 1000000"@),
        n <= u64::MAX && !(1 <= n <= 300_000) ==> crate::fallback::timeout_ms_value(value) == Err::<
            nat,
            Seq<char>,
        >("timeout must be between 1 and 300000 milliseconds"@),
        n <= usize::MAX && !(1 <= n <= 256) ==> crate::fallback::runtime_workers_value(value)
            == Err::<nat, Seq<char>>("runtime-workers must be between 1 and 256"@),
{
}

/// What is no number on the command line is refused as that.
pub proof fn law_other_values_are_refused(value: Seq<char>)
    requires
        crate::number::decimal_value(value) is None,
    ensures
        crate::fallback::max_connections_value(value) == Err::<nat, Seq<char>>(
            "max-connections must be an integer"@,
        ),
        crate::fallback::timeout_ms_value(value) == Err::<nat, Seq<char>>(
            "timeout must be an integer number of milliseconds"@,
        ),
        crate::fallback::runtime_workers_value(value) == Err::<nat, Seq<char>>(
            "runtime-workers must be an integer"@,
        ),
{
}

/// Before its handshake is done a connection fails by its name, by an error or by
/// its deadline, and by nothing else; after that it does not fail so.
pub proof fn law_handshakes_fail_for_a_reason(
    state: FallbackState,
    name: Option<Seq<char>>,
    kind: ErrorKind,
    policy: PolicyView,
)
    ensures
        ({
            let early = state == FallbackState::AwaitingHello || state
                == FallbackState::Handshaking;
            &&& crate::fallback::handshake_failure(state, FallbackEventView::Hello(name), policy)
                == if early && !crate::sni_policy::policy_allows(policy, name) {
                Some(HandshakeFailure::SniRejected)
            } else {
                None
            }
            &&& crate::fallback::handshake_failure(state, FallbackEventView::Failed(kind), policy)
                == if early {
                Some(HandshakeFailure::Protocol)
            } else {
                None
            }
            &&& crate::fallback::handshake_failure(state, FallbackEventView::TimedOut, policy)
                == if early {
                Some(HandshakeFailure::Timeout)
            } else {
                None
            }
            &&& crate::fallback::handshake_failure(state, FallbackEventView::Done, policy) is None
        }),
{
}

/// A ClientHello comes first; then each step may succeed, fail or, but for the
/// relay, take too long, and nothing comes once the connection is over.
pub proof fn law_events_come_at_their_step(
    state: FallbackState,
    name: Option<Seq<char>>,
    kind: ErrorKind,
)
    ensures
        crate::fallback::can_happen(state, FallbackEventView::Hello(name)) <==> state
            == FallbackState::AwaitingHello,
        crate::fallback::can_happen(state, FallbackEventView::Done) <==> state
            != FallbackState::AwaitingHello && state != FallbackState::Over,
        crate::fallback::can_happen(state, FallbackEventView::Failed(kind)) <==> state
            != FallbackState::Over,
        crate::fallback::can_happen(state, FallbackEventView::TimedOut) <==> state
            != FallbackState::Relaying && state != FallbackState::Over,
{
}

/// A fallback starts with nothing counted.
pub proof fn law_metrics_start_at_zero(counter: FallbackCounter)
    ensures
        ({
            let set = crate::instruments::at_zero(
                crate::fallback::counters(),
                crate::fallback::gauges(),
            );
            &&& set.counters.len() == 11
            &&& set.counters[counter.index() as int] == 0
            &&& set.counter_names[counter.index() as int] == counter_name(counter)
            &&& set.gauges.len() == 1
            &&& set.gauges[0] == 0
            &&& set.family is None
        }),
{
    let i = counter.index() as int;
    assert(crate::instruments::at_zero(
        crate::fallback::counters(),
        crate::fallback::gauges(),
    ).counter_names[i] == crate::fallback::counters()[i].name@);
}

/// An event of a connection is seen as what it is.
pub proof fn law_events_are_seen(event: crate::fallback::FallbackEvent<'_>)
    ensures
        match event {
            crate::fallback::FallbackEvent::Hello(Some(name)) => event@
                == FallbackEventView::Hello(Some(name@)),
            crate::fallback::FallbackEvent::Hello(None) => event@ == FallbackEventView::Hello(None),
            crate::fallback::FallbackEvent::Done => event@ == FallbackEventView::Done,
            crate::fallback::FallbackEvent::Failed(kind) => event@ == FallbackEventView::Failed(
                kind,
            ),
            crate::fallback::FallbackEvent::TimedOut => event@ == FallbackEventView::TimedOut,
        },
{
}

} // verus!
