//! The loopback TLS fallback: its command line, its bookkeeping, and the steps
//! of its connections.

use tokio_rustls::rustls;
use vstd::prelude::*;

use crate::address::SocketAddr;
use crate::admission::{give_permit, new_semaphore, take_permit};
use crate::error::{is_benign_kind, ErrorKind, RelayError};
use crate::http::{make_response, Response};
use crate::instruments::{Descriptor, MetricSet, MetricSetView};
use crate::number::parse_positive;
use crate::service::ServicePhase;
use crate::sni_policy::SniPolicy;

verus! {

/// The greatest limit on connections.
pub const MAX_FALLBACK_CONNECTIONS: usize = 1_000_000;

/// The longest timeout, in milliseconds.
pub const MAX_TIMEOUT_MS: u64 = 300_000;

/// The most runtime workers.
pub const MAX_RUNTIME_WORKERS: usize = 256;

/// The limit on connections that a text gives.
pub open spec fn max_connections_value(value: Seq<char>) -> Result<nat, Seq<char>> {
    crate::number::positive_value(
        value,
        usize::MAX as nat,
        MAX_FALLBACK_CONNECTIONS as nat,
        "max-connections must be an integer"@,
        "max-connections must be between 1 and 1000000"@,
    )
}

/// Reads the limit on connections from the command line.
pub fn parse_max_connections(value: &str) -> (limit: Result<usize, String>)
    ensures
        match limit {
            Ok(n) => max_connections_value(value@) == Ok::<nat, Seq<char>>(n as nat),
            Err(message) => max_connections_value(value@) == Err::<nat, Seq<char>>(message@),
        },
{
    match parse_positive(
        value,
        usize::MAX as u64,
        MAX_FALLBACK_CONNECTIONS as u64,
        "max-connections must be an integer",
        "max-connections must be between 1 and 1000000",
    ) {
        Ok(n) => Ok(n as usize),
        Err(message) => Err(message),
    }
}

/// The timeout that a text gives.
pub open spec fn timeout_ms_value(value: Seq<char>) -> Result<nat, Seq<char>> {
    crate::number::positive_value(
        value,
        u64::MAX as nat,
        MAX_TIMEOUT_MS as nat,
        "timeout must be an integer number of milliseconds"@,
        "timeout must be between 1 and 300000 milliseconds"@,
    )
}

/// Reads a timeout from the command line.
pub fn parse_timeout_ms(value: &str) -> (timeout: Result<u64, String>)
    ensures
        match timeout {
            Ok(n) => timeout_ms_value(value@) == Ok::<nat, Seq<char>>(n as nat),
            Err(message) => timeout_ms_value(value@) == Err::<nat, Seq<char>>(message@),
        },
{
    parse_positive(
        value,
        u64::MAX,
        MAX_TIMEOUT_MS,
        "timeout must be an integer number of milliseconds",
        "timeout must be between 1 and 300000 milliseconds",
    )
}

/// The number of runtime workers that a text gives.
pub open spec fn runtime_workers_value(value: Seq<char>) -> Result<nat, Seq<char>> {
    crate::number::positive_value(
        value,
        usize::MAX as nat,
        MAX_RUNTIME_WORKERS as nat,
        "runtime-workers must be an integer"@,
        "runtime-workers must be between 1 and 256"@,
    )
}

/// Reads the number of runtime workers from the command line.
pub fn parse_runtime_workers(value: &str) -> (workers: Result<usize, String>)
    ensures
        match workers {
            Ok(n) => runtime_workers_value(value@) == Ok::<nat, Seq<char>>(n as nat),
            Err(message) => runtime_workers_value(value@) == Err::<nat, Seq<char>>(message@),
        },
{
    match parse_positive(
        value,
        usize::MAX as u64,
        MAX_RUNTIME_WORKERS as u64,
        "runtime-workers must be an integer",
        "runtime-workers must be between 1 and 256",
    ) {
        Ok(n) => Ok(n as usize),
        Err(message) => Err(message),
    }
}

/// Refuses an address that is not a loopback one.
pub fn ensure_loopback(name: &str, address: SocketAddr) -> (result: Result<(), RelayError>)
    ensures
        match result {
            Ok(()) => crate::address::loopback(address.ip()),
            Err(error) => !crate::address::loopback(address.ip()) && error.is(
                ErrorKind::InvalidInput,
                name@ + " must be a literal loopback address"@,
            ),
        },
{
    if address.ip().is_loopback() {
        Ok(())
    } else {
        let mut message = name.to_string();
        message.append(" must be a literal loopback address");
        Err(RelayError { kind: ErrorKind::InvalidInput, message })
    }
}

/// Refuses to run on addresses that are not all loopback ones. The first that is
/// not is named.
pub fn check_addresses(listen: SocketAddr, backend: SocketAddr, metrics: SocketAddr) -> (result:
    Result<(), RelayError>)
    ensures
        match result {
            Ok(()) => foreign_address(listen, backend, metrics) is None,
            Err(error) => foreign_address(listen, backend, metrics) matches Some(name) && error.is(
                ErrorKind::InvalidInput,
                name + " must be a literal loopback address"@,
            ),
        },
{
    ensure_loopback("listen", listen)?;
    ensure_loopback("backend", backend)?;
    ensure_loopback("metrics", metrics)
}

/// The name of the first address that is not a loopback one.
pub open spec fn foreign_address(
    listen: SocketAddr,
    backend: SocketAddr,
    metrics: SocketAddr,
) -> Option<Seq<char>> {
    if !crate::address::loopback(listen.ip()) {
        Some("listen"@)
    } else if !crate::address::loopback(backend.ip()) {
        Some("backend"@)
    } else if !crate::address::loopback(metrics.ip()) {
        Some("metrics"@)
    } else {
        None
    }
}

/// The counters of the TLS fallback.
#[derive(Clone, Copy, Debug, PartialEq, Eq, Structural)]
pub enum FallbackCounter {
    /// Accepted TLS fallback connections.
    Accepted,
    /// Connections rejected before task allocation because the admission limit was full.
    AdmissionRejected,
    /// Failed TLS handshakes.
    HandshakeErrors,
    /// TLS handshakes closed after the configured deadline.
    HandshakeTimeouts,
    /// ClientHello messages rejected before key exchange due to missing or foreign SNI.
    SniRejected,
    /// Backend connection or relay failures.
    BackendErrors,
    /// Loopback backend connects closed after the configured deadline.
    BackendConnectTimeouts,
    /// Successful atomic SIGHUP certificate reloads.
    ReloadSuccess,
    /// Rejected SIGHUP certificate reloads.
    ReloadFailure,
    /// Graceful shutdowns requested.
    GracefulShutdowns,
    /// Connections aborted after the drain deadline.
    ForcedShutdownConnections,
}

impl FallbackCounter {
    /// The place in the table in a specification.
    pub open spec fn spec_index(self) -> usize {
        match self {
            FallbackCounter::Accepted => 0,
            FallbackCounter::AdmissionRejected => 1,
            FallbackCounter::HandshakeErrors => 2,
            FallbackCounter::HandshakeTimeouts => 3,
            FallbackCounter::SniRejected => 4,
            FallbackCounter::BackendErrors => 5,
            FallbackCounter::BackendConnectTimeouts => 6,
            FallbackCounter::ReloadSuccess => 7,
            FallbackCounter::ReloadFailure => 8,
            FallbackCounter::GracefulShutdowns => 9,
            FallbackCounter::ForcedShutdownConnections => 10,
        }
    }

    /// The place in the table.
    #[verifier::when_used_as_spec(spec_index)]
    pub fn index(self) -> (index: usize)
        ensures
            index == self.spec_index(),
            index < 11,
    {
        match self {
            FallbackCounter::Accepted => 0,
            FallbackCounter::AdmissionRejected => 1,
            FallbackCounter::HandshakeErrors => 2,
            FallbackCounter::HandshakeTimeouts => 3,
            FallbackCounter::SniRejected => 4,
            FallbackCounter::BackendErrors => 5,
            FallbackCounter::BackendConnectTimeouts => 6,
            FallbackCounter::ReloadSuccess => 7,
            FallbackCounter::ReloadFailure => 8,
            FallbackCounter::GracefulShutdowns => 9,
            FallbackCounter::ForcedShutdownConnections => 10,
        }
    }
}

/// The counters, in the order of their places.
pub open spec fn counters() -> Seq<Descriptor> {
    seq![
        Descriptor {
            name: "sni_fallback_connections_accepted_total",
            help: "Accepted TLS fallback connections",
        },
        Descriptor {
            name: "sni_fallback_admission_rejected_total",
            help: "Connections rejected before task allocation because the admission limit was full",
        },
        Descriptor {
            name: "sni_fallback_handshake_errors_total",
            help: "Failed TLS handshakes",
        },
        Descriptor {
            name: "sni_fallback_handshake_timeouts_total",
            help: "TLS handshakes closed after the configured deadline",
        },
        Descriptor {
            name: "sni_fallback_sni_rejected_total",
            help: "ClientHello messages rejected before key exchange due to missing or foreign SNI",
        },
        Descriptor {
            name: "sni_fallback_backend_errors_total",
            help: "Backend connection or relay failures",
        },
        Descriptor {
            name: "sni_fallback_backend_connect_timeouts_total",
            help: "Loopback backend connects closed after the configured deadline",
        },
        Descriptor {
            name: "sni_fallback_certificate_reload_success_total",
            help: "Successful atomic SIGHUP certificate reloads",
        },
        Descriptor {
            name: "sni_fallback_certificate_reload_failure_total",
            help: "Rejected SIGHUP certificate reloads",
        },
        Descriptor {
            name: "sni_fallback_graceful_shutdown_total",
            help: "Graceful shutdowns requested",
        },
        Descriptor {
            name: "sni_fallback_forced_shutdown_connections_total",
            help: "Connections aborted after the drain deadline",
        },
    ]
}

/// The gauges: that of the active connections.
pub open spec fn gauges() -> Seq<Descriptor> {
    seq![
        Descriptor {
            name: "sni_fallback_connections_active",
            help: "Active TLS fallback connections",
        },
    ]
}

/// The counters, in the order of their places.
fn counter_table() -> (table: Vec<Descriptor>)
    ensures
        table@ == counters(),
{
    let table = vec![
        Descriptor {
            name: "sni_fallback_connections_accepted_total",
            help: "Accepted TLS fallback connections",
        },
        Descriptor {
            name: "sni_fallback_admission_rejected_total",
            help: "Connections rejected before task allocation because the admission limit was full",
        },
        Descriptor {
            name: "sni_fallback_handshake_errors_total",
            help: "Failed TLS handshakes",
        },
        Descriptor {
            name: "sni_fallback_handshake_timeouts_total",
            help: "TLS handshakes closed after the configured deadline",
        },
        Descriptor {
            name: "sni_fallback_sni_rejected_total",
            help: "ClientHello messages rejected before key exchange due to missing or foreign SNI",
        },
        Descriptor {
            name: "sni_fallback_backend_errors_total",
            help: "Backend connection or relay failures",
        },
        Descriptor {
            name: "sni_fallback_backend_connect_timeouts_total",
            help: "Loopback backend connects closed after the configured deadline",
        },
        Descriptor {
            name: "sni_fallback_certificate_reload_success_total",
            help: "Successful atomic SIGHUP certificate reloads",
        },
        Descriptor {
            name: "sni_fallback_certificate_reload_failure_total",
            help: "Rejected SIGHUP certificate reloads",
        },
        Descriptor {
            name: "sni_fallback_graceful_shutdown_total",
            help: "Graceful shutdowns requested",
        },
        Descriptor {
            name: "sni_fallback_forced_shutdown_connections_total",
            help: "Connections aborted after the drain deadline",
        },
    ];
    assert(table@ =~= counters());
    table
}

/// The gauge of the active connections.
fn gauge_table() -> (table: Vec<Descriptor>)
    ensures
        table@ == gauges(),
{
    let table = vec![
        Descriptor {
            name: "sni_fallback_connections_active",
            help: "Active TLS fallback connections",
        },
    ];
    assert(table@ =~= gauges());
    table
}

/// Why a TLS handshake did not come about.
#[derive(Clone, Copy, Debug, PartialEq, Eq, Structural)]
pub enum HandshakeFailure {
    Protocol,
    Timeout,
    SniRejected,
}

/// The step that a connection is at.
#[derive(Clone, Copy, Debug, PartialEq, Eq, Structural)]
pub enum FallbackState {
    AwaitingHello,
    Handshaking,
    Connecting,
    Relaying,
    Over,
}

/// How the step came out.
#[derive(Clone, Copy, Debug)]
pub enum FallbackEvent<'a> {
    /// A ClientHello was read, with or without a server name.
    Hello(Option<&'a str>),
    /// The step succeeded.
    Done,
    /// The step failed.
    Failed(ErrorKind),
    /// The step's deadline passed.
    TimedOut,
}

/// `FallbackEvent` over views.
pub enum FallbackEventView {
    Hello(Option<Seq<char>>),
    Done,
    Failed(ErrorKind),
    TimedOut,
}

impl<'a> View for FallbackEvent<'a> {
    type V = FallbackEventView;

    open spec fn view(&self) -> FallbackEventView {
        match self {
            FallbackEvent::Hello(Some(name)) => FallbackEventView::Hello(Some(name@)),
            FallbackEvent::Hello(None) => FallbackEventView::Hello(None),
            FallbackEvent::Done => FallbackEventView::Done,
            FallbackEvent::Failed(kind) => FallbackEventView::Failed(*kind),
            FallbackEvent::TimedOut => FallbackEventView::TimedOut,
        }
    }
}

/// The next step of a connection.
#[derive(Clone, Copy, Debug, PartialEq, Eq, Structural)]
pub enum FallbackAction {
    /// Go on with the handshake, under the same deadline.
    Handshake,
    /// Connect to the backend.
    Connect,
    /// Relay in both directions.
    Relay,
    /// Close the connection.
    Close,
}

/// An event that can come at a step.
pub open spec fn can_happen(state: FallbackState, event: FallbackEventView) -> bool {
    match event {
        FallbackEventView::Hello(_) => state == FallbackState::AwaitingHello,
        FallbackEventView::Done => state == FallbackState::Handshaking || state
            == FallbackState::Connecting || state == FallbackState::Relaying,
        FallbackEventView::Failed(_) => state != FallbackState::Over,
        FallbackEventView::TimedOut => state == FallbackState::AwaitingHello || state
            == FallbackState::Handshaking || state == FallbackState::Connecting,
    }
}

/// Why the handshake does not come about after an event, if it does not.
pub open spec fn handshake_failure(
    state: FallbackState,
    event: FallbackEventView,
    policy: crate::sni_policy::PolicyView,
) -> Option<HandshakeFailure> {
    if state == FallbackState::AwaitingHello || state == FallbackState::Handshaking {
        match event {
            FallbackEventView::Hello(name) => if crate::sni_policy::policy_allows(policy, name) {
                None
            } else {
                Some(HandshakeFailure::SniRejected)
            },
            FallbackEventView::Failed(_) => Some(HandshakeFailure::Protocol),
            FallbackEventView::TimedOut => Some(HandshakeFailure::Timeout),
            FallbackEventView::Done => None,
        }
    } else {
        None
    }
}

/// The counter of handshakes that fail so.
pub open spec fn failure_counter(failure: HandshakeFailure) -> FallbackCounter {
    match failure {
        HandshakeFailure::Protocol => FallbackCounter::HandshakeErrors,
        HandshakeFailure::Timeout => FallbackCounter::HandshakeTimeouts,
        HandshakeFailure::SniRejected => FallbackCounter::SniRejected,
    }
}

/// The step after an event, and what is counted.
pub open spec fn fallback_step(
    state: FallbackState,
    event: FallbackEventView,
    policy: crate::sni_policy::PolicyView,
) -> (FallbackState, FallbackAction, Option<FallbackCounter>) {
    let over = (FallbackState::Over, FallbackAction::Close);
    match handshake_failure(state, event, policy) {
        Some(failure) => (over.0, over.1, Some(failure_counter(failure))),
        None => match (state, event) {
            (FallbackState::AwaitingHello, _) => (
                FallbackState::Handshaking,
                FallbackAction::Handshake,
                None,
            ),
            (FallbackState::Handshaking, _) => (
                FallbackState::Connecting,
                FallbackAction::Connect,
                None,
            ),
            (FallbackState::Connecting, FallbackEventView::Done) => (
                FallbackState::Relaying,
                FallbackAction::Relay,
                None,
            ),
            (FallbackState::Connecting, FallbackEventView::TimedOut) => (
                over.0,
                over.1,
                Some(FallbackCounter::BackendConnectTimeouts),
            ),
            (FallbackState::Connecting, _) => (
                over.0,
                over.1,
                Some(FallbackCounter::BackendErrors),
            ),
            (FallbackState::Relaying, FallbackEventView::Failed(kind)) => (
                over.0,
                over.1,
                if crate::error::is_disconnect(kind) {
                    None
                } else {
                    Some(FallbackCounter::BackendErrors)
                },
            ),
            _ => (over.0, over.1, None),
        },
    }
}

/// The handshake after a ClientHello was read, or why it does not come about. A
/// name that is missing or not allowed is refused before any cryptography.
pub fn accept_allowed_tls(
    state: FallbackState,
    event: &FallbackEvent<'_>,
    policy: &SniPolicy,
) -> (failure: Option<HandshakeFailure>)
    ensures
        failure == handshake_failure(state, event@, policy@),
{
    match state {
        FallbackState::AwaitingHello | FallbackState::Handshaking => match event {
            FallbackEvent::Hello(name) => {
                if policy.allows(*name) {
                    None
                } else {
                    Some(HandshakeFailure::SniRejected)
                }
            },
            FallbackEvent::Failed(_) => Some(HandshakeFailure::Protocol),
            FallbackEvent::TimedOut => Some(HandshakeFailure::Timeout),
            FallbackEvent::Done => None,
        },
        _ => None,
    }
}

/// The fallback over views: its metrics, how many connections it has and how
/// many it may have.
#[verifier::ext_equal]
pub struct FallbackView {
    pub metrics: MetricSetView,
    pub held: nat,
    pub max: nat,
}

impl FallbackView {
    /// What every event keeps: the connections are within their limit, and the
    /// gauge tells how many there are.
    pub open spec fn wf(self) -> bool {
        &&& self.metrics == (MetricSetView {
            counters: self.metrics.counters,
            gauges: self.metrics.gauges,
            ..crate::instruments::at_zero(counters(), gauges())
        })
        &&& self.metrics.counters.len() == 11
        &&& self.metrics.gauges.len() == 1
        &&& self.metrics.gauges[0] == self.held
        &&& self.held <= self.max <= crate::admission::max_permits()
    }

    /// After so much was added to a counter.
    pub open spec fn count(self, counter: FallbackCounter, amount: nat) -> FallbackView {
        FallbackView {
            metrics: crate::instruments::counted(self.metrics, counter.index() as int, amount),
            ..self
        }
    }

    /// After something was counted, if anything.
    pub open spec fn count_one(self, counter: Option<FallbackCounter>) -> FallbackView {
        match counter {
            Some(counter) => self.count(counter, 1),
            None => self,
        }
    }

    /// After a connection was accepted.
    pub open spec fn accept(self) -> FallbackView {
        let counted = self.count(FallbackCounter::Accepted, 1);
        if self.held < self.max {
            FallbackView {
                metrics: crate::instruments::moved(counted.metrics, 0, 1),
                held: self.held + 1,
                ..counted
            }
        } else {
            counted.count(FallbackCounter::AdmissionRejected, 1)
        }
    }

    /// After a connection was closed.
    pub open spec fn close(self) -> FallbackView {
        FallbackView {
            metrics: crate::instruments::moved(self.metrics, 0, -1),
            held: (self.held - 1) as nat,
            ..self
        }
    }
}

/// What comes of loading the certificate again.
pub enum CertificateReload {
    /// Serve with this configuration from now on.
    Store(rustls::ServerConfig),
    /// Keep serving as before, and tell the log.
    Keep(RelayError),
}

/// The bookkeeping of the TLS fallback.
pub struct Fallback {
    metrics: MetricSet,
    admission: tokio::sync::Semaphore,
    max_connections: usize,
}

impl View for Fallback {
    type V = FallbackView;

    closed spec fn view(&self) -> FallbackView {
        FallbackView {
            metrics: self.metrics@,
            held: (self.max_connections - crate::admission::permits(self.admission)) as nat,
            max: self.max_connections as nat,
        }
    }
}

impl Fallback {
    /// What every event keeps.
    pub closed spec fn wf(&self) -> bool {
        &&& crate::admission::is_open(self.admission)
        &&& crate::admission::permits(self.admission) <= self.max_connections
        &&& self.metrics.wf()
        &&& self@.wf()
    }

    /// A fallback without connections.
    pub fn new(max_connections: usize) -> (fallback: Result<Self, prometheus::Error>)
        requires
            max_connections <= crate::admission::max_permits(),
        ensures
            fallback is Ok,
            fallback matches Ok(f) ==> f.wf() && f@ == (FallbackView {
                metrics: crate::instruments::at_zero(counters(), gauges()),
                held: 0,
                max: max_connections as nat,
            }),
    {
        proof {
            crate::metric_names::law_fallback_metrics_are_exposable();
        }
        let counters = counter_table();
        let gauges = gauge_table();
        let metrics = MetricSet::new(counters.as_slice(), gauges.as_slice())?;
        Ok(Fallback { metrics, admission: new_semaphore(max_connections), max_connections })
    }

    /// The value of a counter.
    pub fn counter(&self, counter: FallbackCounter) -> (value: u64)
        requires
            self.wf(),
        ensures
            value == self@.metrics.counters[counter.index() as int],
    {
        self.metrics.counter(counter.index())
    }

    /// How many connections there are.
    pub fn active(&self) -> (value: i64)
        requires
            self.wf(),
        ensures
            value == self@.held,
    {
        self.metrics.gauge(0)
    }

    fn count(&mut self, counter: FallbackCounter, amount: u64)
        requires
            old(self).wf(),
        ensures
            final(self).wf(),
            final(self)@ == old(self)@.count(counter, amount as nat),
    {
        self.metrics.count(counter.index(), amount);
    }

    /// A connection was accepted. It is dropped, without a task or a handshake,
    /// where this answers `false`.
    pub fn on_accept(&mut self) -> (admitted: bool)
        requires
            old(self).wf(),
        ensures
            final(self).wf(),
            admitted == (old(self)@.held < old(self)@.max),
            final(self)@ == old(self)@.accept(),
    {
        self.count(FallbackCounter::Accepted, 1);
        let ghost counted = self@;
        let admitted = take_permit(&mut self.admission);
        if admitted {
            self.metrics.raise(0);
            assert(self@ =~= (FallbackView {
                metrics: crate::instruments::moved(counted.metrics, 0, 1),
                held: counted.held + 1,
                ..counted
            }));
        } else {
            assert(self@ =~= counted);
            self.count(FallbackCounter::AdmissionRejected, 1);
        }
        admitted
    }

    /// A step of a connection came out.
    pub fn on_event(
        &mut self,
        state: &mut FallbackState,
        event: FallbackEvent<'_>,
        policy: &SniPolicy,
    ) -> (action: FallbackAction)
        requires
            old(self).wf(),
            can_happen(*old(state), event@),
        ensures
            final(self).wf(),
            (*final(state), action) == (
                fallback_step(*old(state), event@, policy@).0,
                fallback_step(*old(state), event@, policy@).1,
            ),
            final(self)@ == old(self)@.count_one(
                fallback_step(*old(state), event@, policy@).2,
            ),
    {
        let before = *state;
        if let Some(failure) = accept_allowed_tls(before, &event, policy) {
            match failure {
                HandshakeFailure::Protocol => self.count(FallbackCounter::HandshakeErrors, 1),
                HandshakeFailure::Timeout => self.count(FallbackCounter::HandshakeTimeouts, 1),
                HandshakeFailure::SniRejected => self.count(FallbackCounter::SniRejected, 1),
            }
            *state = FallbackState::Over;
            return FallbackAction::Close;
        }
        match before {
            FallbackState::AwaitingHello => {
                *state = FallbackState::Handshaking;
                FallbackAction::Handshake
            },
            FallbackState::Handshaking => {
                *state = FallbackState::Connecting;
                FallbackAction::Connect
            },
            FallbackState::Connecting => match event {
                FallbackEvent::Done => {
                    *state = FallbackState::Relaying;
                    FallbackAction::Relay
                },
                FallbackEvent::TimedOut => {
                    self.count(FallbackCounter::BackendConnectTimeouts, 1);
                    *state = FallbackState::Over;
                    FallbackAction::Close
                },
                _ => {
                    self.count(FallbackCounter::BackendErrors, 1);
                    *state = FallbackState::Over;
                    FallbackAction::Close
                },
            },
            _ => {
                if let FallbackEvent::Failed(kind) = event {
                    if !is_benign_kind(kind) {
                        self.count(FallbackCounter::BackendErrors, 1);
                    }
                }
                *state = FallbackState::Over;
                FallbackAction::Close
            },
        }
    }

    /// A connection was closed.
    pub fn on_closed(&mut self)
        requires
            old(self).wf(),
            old(self)@.held > 0,
        ensures
            final(self).wf(),
            final(self)@ == old(self)@.close(),
    {
        give_permit(&mut self.admission);
        self.metrics.lower(0);
        assert(self@ =~= old(self)@.close());
    }

    /// The certificate was loaded again. Only one that loaded replaces the
    /// present one.
    pub fn on_reload(&mut self, loaded: Result<rustls::ServerConfig, RelayError>) -> (reload:
        CertificateReload)
        requires
            old(self).wf(),
        ensures
            final(self).wf(),
            match loaded {
                Ok(config) => reload == CertificateReload::Store(config),
                Err(error) => reload == CertificateReload::Keep(error),
            },
            final(self)@ == old(self)@.count(
                if loaded is Ok {
                    FallbackCounter::ReloadSuccess
                } else {
                    FallbackCounter::ReloadFailure
                },
                1,
            ),
    {
        match loaded {
            Ok(config) => {
                self.count(FallbackCounter::ReloadSuccess, 1);
                CertificateReload::Store(config)
            },
            Err(error) => {
                self.count(FallbackCounter::ReloadFailure, 1);
                CertificateReload::Keep(error)
            },
        }
    }

    /// The fallback was asked to stop, and has closed its listener.
    pub fn on_stop(&mut self)
        requires
            old(self).wf(),
        ensures
            final(self).wf(),
            final(self)@ == old(self)@.count(
                FallbackCounter::GracefulShutdowns,
                1,
            ),
    {
        self.count(FallbackCounter::GracefulShutdowns, 1);
    }

    /// So many connections are left at the end of the time to drain, and are to
    /// be aborted.
    pub fn on_drain_timed_out(&mut self, left: u64)
        requires
            old(self).wf(),
        ensures
            final(self).wf(),
            final(self)@ == old(self)@.count(
                FallbackCounter::ForcedShutdownConnections,
                left as nat,
            ),
    {
        self.count(FallbackCounter::ForcedShutdownConnections, left);
    }

    /// The text that tells every metric with its value.
    pub fn render(&self) -> (text: Result<Vec<u8>, prometheus::Error>)
        requires
            self.wf(),
        ensures
            text matches Ok(t) && t@ == crate::instruments::exposition(self@.metrics),
    {
        self.metrics.encode()
    }
}

/// What happened to the fallback as a whole.
pub enum FallbackServiceEvent {
    /// A connection was accepted.
    Accepted,
    /// Accepting failed.
    AcceptFailed,
    /// A reload was asked for, and this is what loading the certificate came to.
    Hangup(Result<rustls::ServerConfig, RelayError>),
    /// The fallback was asked to stop.
    Stop,
    /// A connection's task ended, in order or not.
    TaskEnded(bool),
    /// No connection is left.
    Drained,
    /// So many connections are left at the end of the time to drain.
    DrainTimedOut(u64),
}

/// What to do about it.
pub enum FallbackServiceAction {
    /// Go on.
    Continue,
    /// Serve the connection.
    Serve,
    /// Drop the connection.
    DropConnection,
    /// End with the error that accepting failed with.
    FailAsEvent,
    /// Serve with this configuration from now on.
    Store(rustls::ServerConfig),
    /// Tell the log that the certificate was refused.
    LogRefusal(RelayError),
    /// Tell the log that a task failed.
    LogTask,
    /// Close the listeners, and wait so many seconds for connections to end.
    Drain(u64),
    /// Abort the connections that are left.
    AbortAll,
    /// End without an error.
    Finish,
}

/// An event that can come in a phase.
pub open spec fn service_can(phase: ServicePhase, event: FallbackServiceEvent) -> bool {
    match event {
        FallbackServiceEvent::Accepted => phase == ServicePhase::Serving,
        FallbackServiceEvent::AcceptFailed => phase == ServicePhase::Serving,
        FallbackServiceEvent::Hangup(_) => phase == ServicePhase::Serving,
        FallbackServiceEvent::Stop => phase == ServicePhase::Serving,
        FallbackServiceEvent::TaskEnded(_) => phase != ServicePhase::Stopped,
        FallbackServiceEvent::Drained => phase == ServicePhase::Draining,
        FallbackServiceEvent::DrainTimedOut(_) => phase == ServicePhase::Draining,
    }
}

/// The phase after an event.
pub open spec fn service_phase(phase: ServicePhase, event: FallbackServiceEvent) -> ServicePhase {
    match event {
        FallbackServiceEvent::Stop => ServicePhase::Draining,
        FallbackServiceEvent::AcceptFailed => ServicePhase::Stopped,
        FallbackServiceEvent::Drained => ServicePhase::Stopped,
        FallbackServiceEvent::DrainTimedOut(_) => ServicePhase::Stopped,
        _ => phase,
    }
}

/// What to do about an event.
pub open spec fn service_action(
    view: FallbackView,
    phase: ServicePhase,
    drain_seconds: u64,
    event: FallbackServiceEvent,
) -> FallbackServiceAction {
    match event {
        FallbackServiceEvent::Accepted => if view.held < view.max {
            FallbackServiceAction::Serve
        } else {
            FallbackServiceAction::DropConnection
        },
        FallbackServiceEvent::AcceptFailed => FallbackServiceAction::FailAsEvent,
        FallbackServiceEvent::Hangup(Ok(config)) => FallbackServiceAction::Store(config),
        FallbackServiceEvent::Hangup(Err(error)) => FallbackServiceAction::LogRefusal(error),
        FallbackServiceEvent::Stop => FallbackServiceAction::Drain(drain_seconds),
        FallbackServiceEvent::TaskEnded(in_order) => if in_order || phase
            == ServicePhase::Draining {
            FallbackServiceAction::Continue
        } else {
            FallbackServiceAction::LogTask
        },
        FallbackServiceEvent::Drained => FallbackServiceAction::Finish,
        FallbackServiceEvent::DrainTimedOut(_) => FallbackServiceAction::AbortAll,
    }
}

/// The bookkeeping after an event.
pub open spec fn service_counted(view: FallbackView, event: FallbackServiceEvent) -> FallbackView {
    match event {
        FallbackServiceEvent::Accepted => view.accept(),
        FallbackServiceEvent::Hangup(Ok(_)) => view.count(FallbackCounter::ReloadSuccess, 1),
        FallbackServiceEvent::Hangup(Err(_)) => view.count(FallbackCounter::ReloadFailure, 1),
        FallbackServiceEvent::Stop => view.count(FallbackCounter::GracefulShutdowns, 1),
        FallbackServiceEvent::DrainTimedOut(left) => view.count(
            FallbackCounter::ForcedShutdownConnections,
            left as nat,
        ),
        _ => view,
    }
}

impl Fallback {
    /// What to do about an event, with so many seconds to drain.
    pub fn on_service_event(
        &mut self,
        phase: &mut ServicePhase,
        drain_seconds: u64,
        event: FallbackServiceEvent,
    ) -> (action: FallbackServiceAction)
        requires
            old(self).wf(),
            service_can(*old(phase), event),
        ensures
            final(self).wf(),
            *final(phase) == service_phase(*old(phase), event),
            action == service_action(old(self)@, *old(phase), drain_seconds, event),
            final(self)@ == service_counted(old(self)@, event),
    {
        match event {
            FallbackServiceEvent::Accepted => {
                if self.on_accept() {
                    FallbackServiceAction::Serve
                } else {
                    FallbackServiceAction::DropConnection
                }
            },
            FallbackServiceEvent::AcceptFailed => {
                *phase = ServicePhase::Stopped;
                FallbackServiceAction::FailAsEvent
            },
            FallbackServiceEvent::Hangup(loaded) => match self.on_reload(loaded) {
                CertificateReload::Store(config) => FallbackServiceAction::Store(config),
                CertificateReload::Keep(error) => FallbackServiceAction::LogRefusal(error),
            },
            FallbackServiceEvent::Stop => {
                *phase = ServicePhase::Draining;
                self.on_stop();
                FallbackServiceAction::Drain(drain_seconds)
            },
            FallbackServiceEvent::TaskEnded(in_order) => {
                if in_order || *phase == ServicePhase::Draining {
                    FallbackServiceAction::Continue
                } else {
                    FallbackServiceAction::LogTask
                }
            },
            FallbackServiceEvent::Drained => {
                *phase = ServicePhase::Stopped;
                FallbackServiceAction::Finish
            },
            FallbackServiceEvent::DrainTimedOut(left) => {
                *phase = ServicePhase::Stopped;
                self.on_drain_timed_out(left);
                FallbackServiceAction::AbortAll
            },
        }
    }
}

/// Once the fallback stops, it takes no connection and no certificate any more:
/// no such event can come, whatever else does.
pub proof fn law_stopping_is_final(phase: ServicePhase, event: FallbackServiceEvent)
    requires
        phase != ServicePhase::Serving,
        service_can(phase, event),
    ensures
        !(event is Accepted),
        !(event is Hangup),
        service_phase(phase, event) != ServicePhase::Serving,
{
}

/// The TLS configuration after an event.
pub open spec fn config_after(
    current: rustls::ServerConfig,
    action: FallbackServiceAction,
) -> rustls::ServerConfig {
    match action {
        FallbackServiceAction::Store(config) => config,
        _ => current,
    }
}

/// A reload replaces the certificate whole, once it has loaded, or leaves the
/// present one in place.
pub proof fn law_reload_is_all_or_nothing(
    view: FallbackView,
    current: rustls::ServerConfig,
    loaded: Result<rustls::ServerConfig, RelayError>,
    drain_seconds: u64,
)
    ensures
        config_after(
            current,
            service_action(
                view,
                ServicePhase::Serving,
                drain_seconds,
                FallbackServiceEvent::Hangup(loaded),
            ),
        ) == match loaded {
            Ok(config) => config,
            Err(_) => current,
        },
{
}

/// The response that tells the metrics.
pub fn metrics_response(text: Vec<u8>) -> (made: Response)
    ensures
        made@ == crate::http::response("200 OK"@, "text/plain; version=0.0.4"@, text@),
{
    make_response("200 OK", "text/plain; version=0.0.4", text)
}

/// A connection gets to the handshake only with a server name that the policy
/// allows, and to the backend only after the handshake.
pub proof fn law_only_allowed_names_reach_the_backend(
    state: FallbackState,
    event: FallbackEventView,
    policy: crate::sni_policy::PolicyView,
)
    requires
        can_happen(state, event),
    ensures
        fallback_step(state, event, policy).1 == FallbackAction::Handshake ==> (event matches
            FallbackEventView::Hello(name) && crate::sni_policy::policy_allows(policy, name)),
        fallback_step(state, event, policy).1 == FallbackAction::Connect ==> state
            == FallbackState::Handshaking,
        fallback_step(state, event, policy).1 == FallbackAction::Relay ==> state
            == FallbackState::Connecting,
{
}

/// A relay that fails is counted as a fault of the backend, unless the peer went
/// away.
pub proof fn law_disconnects_are_not_backend_faults(
    kind: ErrorKind,
    policy: crate::sni_policy::PolicyView,
)
    ensures
        fallback_step(FallbackState::Relaying, FallbackEventView::Failed(kind), policy).2
            == Some(FallbackCounter::BackendErrors) <==> !crate::error::is_disconnect(kind),
{
}

/// A connection that is accepted and closed leaves the pool and the gauge as
/// they were, and no more connections are held than the limit allows.
pub proof fn law_closed_connection_leaves_no_trace(view: FallbackView)
    requires
        view.wf(),
        view.held < view.max,
    ensures
        view.accept().wf(),
        view.accept().close().held == view.held,
        view.accept().close().metrics.gauges == view.metrics.gauges,
{
    assert(view.accept().close().metrics.gauges =~= view.metrics.gauges);
}

} // verus!
