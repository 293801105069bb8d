//! The life of the service: serving, then draining, then stopped.

use vstd::prelude::*;

use crate::address::SocketAddr;
use crate::config::{Config, ConfigError};
use crate::number::parse_positive;
use crate::relay::{Relay, ReloadAction, ReloadRefusal};

verus! {

/// A proxied connection owns two TCP sockets. This keeps ample headroom below a
/// typical high limit on open files.
pub const DEFAULT_MAX_CONCURRENT_CONNECTIONS: usize = 75_000;

/// How long connections may go on once the service stops, in seconds.
pub const MAX_DRAIN_SECONDS: u64 = 10;

/// Reads the limit on connections from the command line.
pub fn parse_max_connections(value: &str) -> (limit: Result<usize, String>)
    ensures
        match limit {
            Ok(n) => max_connections_value(value@) == Ok::<nat, Seq<char>>(n as nat),
            Err(message) => max_connections_value(value@) == Err::<nat, Seq<char>>(message@),
        },
{
    match parse_positive(
        value,
        usize::MAX as u64,
        DEFAULT_MAX_CONCURRENT_CONNECTIONS as u64,
        "max-connections must be an integer",
        "max-connections must be between 1 and 75000",
    ) {
        Ok(n) => Ok(n as usize),
        Err(message) => Err(message),
    }
}

/// The limit on connections that a text gives.
pub open spec fn max_connections_value(value: Seq<char>) -> Result<nat, Seq<char>> {
    crate::number::positive_value(
        value,
        usize::MAX as nat,
        DEFAULT_MAX_CONCURRENT_CONNECTIONS as nat,
        "max-connections must be an integer"@,
        "max-connections must be between 1 and 75000"@,
    )
}

/// The backlog to ask the listener for: the limit on connections, as far as the
/// system call can be told it.
pub fn listener_backlog(max_concurrent_connections: usize) -> (backlog: i32)
    ensures
        backlog == if max_concurrent_connections <= i32::MAX {
            max_concurrent_connections as int
        } else {
            i32::MAX as int
        },
{
    if max_concurrent_connections <= i32::MAX as usize {
        max_concurrent_connections as i32
    } else {
        i32::MAX
    }
}

/// Where the service is in its life.
#[derive(Clone, Copy, Debug, PartialEq, Eq, Structural)]
pub enum ServicePhase {
    Serving,
    Draining,
    Stopped,
}

/// What happened to the service.
pub enum ServiceEvent {
    /// A connection was accepted.
    Accepted,
    /// Accepting failed.
    AcceptFailed,
    /// A reload was asked for, and this is what the configuration reads now.
    Hangup(Result<Config, ConfigError>),
    /// The service was asked to stop.
    Stop,
    /// A connection's task ended, in order or not.
    TaskEnded(bool),
    /// No connection is left.
    Drained,
    /// Connections are left at the end of the time to drain.
    DrainTimedOut,
}

/// What to do about it.
pub enum ServiceAction {
    /// Go on.
    Continue,
    /// Serve the connection, with the present configuration.
    Serve,
    /// Drop the connection.
    DropConnection,
    /// End with the error that accepting failed with.
    FailAsEvent,
    /// Serve connections with this configuration from now on.
    Store(Config),
    /// Tell the log that the reload was refused.
    LogRefusal(ReloadRefusal),
    /// Tell the log that a task failed, while serving or while draining.
    LogTask(ServicePhase),
    /// Close the listeners, and wait so many seconds for connections to end.
    Drain(u64),
    /// Abort the connections that are left.
    AbortAll,
    /// End without an error.
    Finish,
}

/// What the service is bound to, and where it is in its life.
pub struct Service {
    pub listen: SocketAddr,
    pub health: SocketAddr,
    pub phase: ServicePhase,
}

/// The phase after an event.
pub open spec fn next_phase(phase: ServicePhase, event: ServiceEvent) -> ServicePhase {
    match event {
        ServiceEvent::Stop => ServicePhase::Draining,
        ServiceEvent::AcceptFailed => ServicePhase::Stopped,
        ServiceEvent::Drained => ServicePhase::Stopped,
        ServiceEvent::DrainTimedOut => ServicePhase::Stopped,
        _ => phase,
    }
}

impl Service {
    /// An event that can come now: connections, reloads and the request to stop
    /// only while serving, the end of draining only while draining.
    pub open spec fn can(&self, event: ServiceEvent) -> bool {
        match event {
            ServiceEvent::Accepted => self.phase == ServicePhase::Serving,
            ServiceEvent::AcceptFailed => self.phase == ServicePhase::Serving,
            ServiceEvent::Hangup(_) => self.phase == ServicePhase::Serving,
            ServiceEvent::Stop => self.phase == ServicePhase::Serving,
            ServiceEvent::TaskEnded(_) => self.phase != ServicePhase::Stopped,
            ServiceEvent::Drained => self.phase == ServicePhase::Draining,
            ServiceEvent::DrainTimedOut => self.phase == ServicePhase::Draining,
        }
    }

    /// A service that listens on these addresses.
    pub fn new(listen: SocketAddr, health: SocketAddr) -> (service: Self)
        ensures
            service == (Service { listen, health, phase: ServicePhase::Serving }),
    {
        Service { listen, health, phase: ServicePhase::Serving }
    }

    /// What to do about an event.
    pub fn on_event(&mut self, relay: &mut Relay, event: ServiceEvent) -> (action: ServiceAction)
        requires
            old(relay).wf(),
            old(self).can(event),
        ensures
            final(relay).wf(),
            *final(self) == (Service {
                phase: next_phase(old(self).phase, event),
                ..*old(self)
            }),
            match event {
                ServiceEvent::Accepted => {
                    &&& action == if old(relay)@.admission.has_room() {
                        ServiceAction::Serve
                    } else {
                        ServiceAction::DropConnection
                    }
                    &&& final(relay)@ == old(relay)@.accept()
                },
                ServiceEvent::AcceptFailed => action == ServiceAction::FailAsEvent
                    && final(relay)@ == old(relay)@,
                ServiceEvent::Hangup(reloaded) => {
                    let answer = crate::relay::reload_answer(
                        reloaded,
                        old(relay)@.admission.limits,
                        old(self).listen,
                        old(self).health,
                    );
                    &&& action == match answer {
                        ReloadAction::Store(config) => ServiceAction::Store(config),
                        ReloadAction::Refuse(refusal) => ServiceAction::LogRefusal(refusal),
                    }
                    &&& final(relay)@.admission == old(relay)@.admission
                    &&& final(relay)@.metrics == old(relay)@.metrics.count(
                        if answer is Store {
                            crate::metrics::CounterId::ReloadSuccess
                        } else {
                            crate::metrics::CounterId::ReloadErrors
                        },
                        1,
                    )
                },
                ServiceEvent::Stop => action == ServiceAction::Drain(MAX_DRAIN_SECONDS) && action
                    == ServiceAction::Drain(10) && final(relay)@ == old(relay)@,
                ServiceEvent::TaskEnded(in_order) => {
                    &&& action == if in_order {
                        ServiceAction::Continue
                    } else {
                        ServiceAction::LogTask(old(self).phase)
                    }
                    &&& final(relay)@ == old(relay)@
                },
                ServiceEvent::Drained => action == ServiceAction::Finish && final(relay)@ == old(
                    relay,
                )@,
                ServiceEvent::DrainTimedOut => action == ServiceAction::AbortAll && final(relay)@
                    == old(relay)@,
            },
    {
        match event {
            ServiceEvent::Accepted => {
                if relay.on_accept() {
                    ServiceAction::Serve
                } else {
                    ServiceAction::DropConnection
                }
            },
            ServiceEvent::AcceptFailed => {
                self.phase = ServicePhase::Stopped;
                ServiceAction::FailAsEvent
            },
            ServiceEvent::Hangup(reloaded) => {
                match relay.on_reload(reloaded, self.listen, self.health) {
                    ReloadAction::Store(config) => ServiceAction::Store(config),
                    ReloadAction::Refuse(refusal) => ServiceAction::LogRefusal(refusal),
                }
            },
            ServiceEvent::Stop => {
                self.phase = ServicePhase::Draining;
                ServiceAction::Drain(MAX_DRAIN_SECONDS)
            },
            ServiceEvent::TaskEnded(in_order) => {
                if in_order {
                    ServiceAction::Continue
                } else {
                    ServiceAction::LogTask(self.phase)
                }
            },
            ServiceEvent::Drained => {
                self.phase = ServicePhase::Stopped;
                ServiceAction::Finish
            },
            ServiceEvent::DrainTimedOut => {
                self.phase = ServicePhase::Stopped;
                ServiceAction::AbortAll
            },
        }
    }
}

/// Once a service stops, it takes no connection and no configuration any more:
/// no such event can come, whatever else does.
pub proof fn law_stopping_is_final(service: Service, event: ServiceEvent)
    requires
        service.phase != ServicePhase::Serving,
        service.can(event),
    ensures
        !(event is Accepted),
        !(event is Hangup),
        next_phase(service.phase, event) != ServicePhase::Serving,
{
}

/// What the pools admit together stays within the limit of the process, and so
/// within the greatest limit that the command line takes.
pub proof fn law_admission_is_within_the_process_limit(
    value: Seq<char>,
    limits: crate::config::Admission,
    process_max: usize,
    view: crate::admission::AdmissionView,
)
    requires
        max_connections_value(value) == Ok::<nat, Seq<char>>(process_max as nat),
        crate::admission::budget_problem(limits, process_max) is None,
        view.wf(),
        view.limits == limits,
    ensures
        view.pre_parse + view.routed + view.fallback <= process_max,
        process_max <= DEFAULT_MAX_CONCURRENT_CONNECTIONS,
{
}

/// A service serves until it is asked to stop, then drains, and has stopped once
/// no connection is left or the time is over. Where accepting fails it stops at
/// once. Nothing else changes its phase.
pub proof fn law_phases_are_in_order(phase: ServicePhase, event: ServiceEvent)
    ensures
        event is Stop ==> next_phase(phase, event) == ServicePhase::Draining,
        event is AcceptFailed || event is Drained || event is DrainTimedOut ==> next_phase(
            phase,
            event,
        ) == ServicePhase::Stopped,
        event is Accepted || event is Hangup || event is TaskEnded ==> next_phase(phase, event)
            == phase,
{
}

/// Connections, reloads and the request to stop are taken while serving, and
/// draining ends while draining.
pub proof fn law_events_come_in_their_phase(service: Service, event: ServiceEvent)
    ensures
        service.phase == ServicePhase::Serving ==> (service.can(event) <==> !(event is Drained)
            && !(event is DrainTimedOut)),
        service.phase == ServicePhase::Draining ==> (service.can(event) <==> event is TaskEnded
            || event is Drained || event is DrainTimedOut),
        service.phase == ServicePhase::Stopped ==> !service.can(event),
{
}

/// The limit on connections is a number from 1 to 75000.
pub proof fn law_connection_limit(value: Seq<char>, n: nat)
    ensures
        crate::number::decimal_value(value) == Some(n) ==> (max_connections_value(value) == Ok::<
            nat,
            Seq<char>,
        >(n) <==> 1 <= n <= 75_000),
        crate::number::decimal_value(value) == Some(n) && n <= usize::MAX && !(1 <= n <= 75_000)
            ==> max_connections_value(value) == Err::<nat, Seq<char>>(
            "max-connections must be between 1 and 75000"@,
        ),
        crate::number::decimal_value(value) is None ==> max_connections_value(value) == Err::<
            nat,
            Seq<char>,
        >("max-connections must be an integer"@),
{
}

} // verus!
