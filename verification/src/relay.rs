//! The relay's bookkeeping: what each event in the life of a connection does to
//! the admission pools and to the metrics, and what is to be done next.

use std::time::Duration;

use vstd::prelude::*;

use crate::address::{IpAddr, SocketAddr};
use crate::admission::{AdmissionControl, AdmissionView, Rejection};
use crate::config::{Admission, Config, ConfigError, SocketMarks};
use crate::error::RelayError;
use crate::proxy::{Proxy, ProxyAction, ProxyEvent, ProxyState};
use crate::metrics::{CounterId, GaugeId, Metrics, MetricsView, UpstreamClass};
use crate::routing::{classify_target, ClassifiedTarget, TargetView};
use crate::tls::{Classification, ClassificationView};

verus! {

/// The relay over views.
#[verifier::ext_equal]
pub struct RelayView {
    pub admission: AdmissionView,
    pub metrics: MetricsView,
}

impl RelayView {
    /// What every event keeps: the pools are within their limits, and the
    /// gauges tell how many connections are in them.
    pub open spec fn wf(self) -> bool {
        &&& self.admission.wf()
        &&& crate::metrics::metrics_wf(self.metrics)
        &&& self.metrics.gauge(GaugeId::ActivePreParse) == self.admission.pre_parse
        &&& self.metrics.gauge(GaugeId::ActiveRouted) == self.admission.routed
        &&& self.metrics.gauge(GaugeId::ActiveRoutedEstablished) == self.admission.routed
        &&& self.metrics.gauge(GaugeId::ActiveFallback) == self.admission.fallback
        &&& self.metrics.gauge(GaugeId::Active) == self.admission.pre_parse + self.admission.routed
            + self.admission.fallback
    }

    /// After a connection was accepted.
    pub open spec fn accept(self) -> RelayView {
        if self.admission.has_room() {
            RelayView {
                admission: self.admission.enter(),
                metrics: self.metrics.count(CounterId::Accepted, 1).shift(
                    GaugeId::Active,
                    1,
                ).shift(GaugeId::ActivePreParse, 1),
            }
        } else {
            RelayView { metrics: self.metrics.count(CounterId::RejectedPreParse, 1), ..self }
        }
    }

    /// After a connection was closed before the routing decision.
    pub open spec fn close_early(self) -> RelayView {
        RelayView {
            admission: self.admission.abandon(),
            metrics: self.metrics.shift(GaugeId::ActivePreParse, -1).shift(GaugeId::Active, -1),
        }
    }

    /// After a connection of a source was classified.
    pub open spec fn classified(
        self,
        classification: ClassificationView,
        config: Config,
        source: IpAddr,
    ) -> (RelayView, Option<Rejection>) {
        let counted = self.metrics.count(
            crate::routing::target_counter(classification, config),
            1,
        );
        match crate::routing::target_of(classification, config) {
            TargetView::Routed { .. } => {
                let (admission, rejection) = self.admission.admit_routed(source);
                (
                    RelayView {
                        admission,
                        metrics: match rejection {
                            None => counted.shift(GaugeId::ActivePreParse, -1).shift(
                                GaugeId::ActiveRouted,
                                1,
                            ).shift(GaugeId::ActiveRoutedEstablished, 1),
                            Some(rejection) => rejected(counted, rejection),
                        },
                    },
                    rejection,
                )
            },
            TargetView::Fallback { .. } => {
                let (admission, rejection) = self.admission.admit_fallback();
                (
                    RelayView {
                        admission,
                        metrics: match rejection {
                            None => counted.shift(GaugeId::ActivePreParse, -1).shift(
                                GaugeId::ActiveFallback,
                                1,
                            ),
                            Some(rejection) => rejected(counted, rejection),
                        },
                    },
                    rejection,
                )
            },
        }
    }

    /// After a session has ended.
    pub open spec fn finish(self, class: UpstreamClass, source: IpAddr) -> RelayView {
        match class {
            UpstreamClass::Routed => RelayView {
                admission: self.admission.finish_routed(source),
                metrics: self.metrics.shift(GaugeId::ActiveRoutedEstablished, -1).shift(
                    GaugeId::ActiveRouted,
                    -1,
                ).shift(GaugeId::Active, -1),
            },
            UpstreamClass::Fallback => RelayView {
                admission: self.admission.finish_fallback(),
                metrics: self.metrics.shift(GaugeId::ActiveFallback, -1).shift(
                    GaugeId::Active,
                    -1,
                ),
            },
        }
    }
}

/// The metrics after a connection that was rejected has been closed.
pub open spec fn rejected(metrics: MetricsView, rejection: Rejection) -> MetricsView {
    let counted = match rejection {
        Rejection::RoutedSource => metrics.count(CounterId::RejectedRouted, 1).count(
            CounterId::RejectedRoutedSource,
            1,
        ),
        Rejection::Routed => metrics.count(CounterId::RejectedRouted, 1),
        Rejection::Fallback => metrics.count(CounterId::RejectedFallback, 1),
    };
    counted.shift(GaugeId::ActivePreParse, -1).shift(GaugeId::Active, -1)
}

/// A connection that was let on to its upstream.
#[derive(Debug)]
pub struct Session {
    pub class: UpstreamClass,
    pub source: IpAddr,
    pub upstream: SocketAddr,
    pub socket_marks: Option<SocketMarks>,
    pub route_label: String,
    /// How long the session may last, in all.
    pub lifetime: Option<Duration>,
}

/// The session is the one for this target.
pub open spec fn session_for(
    session: Session,
    target: TargetView,
    config: Config,
    source: IpAddr,
) -> bool {
    &&& session.source == source
    &&& match target {
        TargetView::Routed { target, socket_marks, route_label } => {
            &&& session.class == UpstreamClass::Routed
            &&& session.upstream == target
            &&& session.socket_marks == socket_marks
            &&& session.route_label@ == route_label
            &&& session.lifetime is None
        },
        TargetView::Fallback { target, route_label } => {
            &&& session.class == UpstreamClass::Fallback
            &&& session.upstream == target
            &&& session.socket_marks is None
            &&& session.route_label@ == route_label
            &&& session.lifetime matches Some(lifetime) && crate::config::lasts(
                lifetime,
                config.limits.fallback_lifetime_timeout_ms,
            )
        },
    }
}

/// The admission pools and the metrics of a relay.
pub struct Relay {
    admission: AdmissionControl,
    metrics: Metrics,
}

impl View for Relay {
    type V = RelayView;

    closed spec fn view(&self) -> RelayView {
        RelayView { admission: self.admission@, metrics: self.metrics@ }
    }
}

impl Relay {
    /// What every event keeps.
    pub closed spec fn wf(&self) -> bool {
        &&& self.admission.wf()
        &&& self.metrics.wf()
        &&& self@.wf()
    }

    /// The view is well-formed.
    pub proof fn lemma_wf(&self)
        requires
            self.wf(),
        ensures
            self@.wf(),
    {
    }

    /// A relay without connections.
    pub fn new(admission: AdmissionControl, metrics: Metrics) -> (relay: Self)
        requires
            admission.wf(),
            metrics@ == crate::metrics::fresh_metrics(),
            metrics.wf(),
            admission@ == AdmissionView::idle(admission@.limits),
        ensures
            relay.wf(),
            relay@ == (RelayView { admission: admission@, metrics: metrics@ }),
    {
        proof {
            admission.lemma_wf();
        }
        Relay { admission, metrics }
    }

    /// The metrics.
    pub fn metrics(&self) -> (metrics: &Metrics)
        ensures
            metrics@ == self@.metrics,
            self.wf() ==> metrics.wf(),
    {
        &self.metrics
    }

    /// A connection was accepted. It is dropped where this answers `false`.
    pub fn on_accept(&mut self) -> (admitted: bool)
        requires
            old(self).wf(),
        ensures
            final(self).wf(),
            admitted == old(self)@.admission.has_room(),
            final(self)@ == old(self)@.accept(),
    {
        let admitted = self.admission.enter();
        if admitted {
            self.metrics.count(CounterId::Accepted, 1);
            self.metrics.raise(GaugeId::Active);
            self.metrics.raise(GaugeId::ActivePreParse);
        } else {
            self.metrics.count(CounterId::RejectedPreParse, 1);
        }
        admitted
    }

    /// A connection was closed before the routing decision, without a fault in
    /// what the client sent.
    pub fn on_closed_early(&mut self)
        requires
            old(self).wf(),
            old(self)@.admission.pre_parse > 0,
        ensures
            final(self).wf(),
            final(self)@ == old(self)@.close_early(),
    {
        proof {
            self.admission.lemma_wf();
        }
        self.admission.abandon();
        self.metrics.lower(GaugeId::ActivePreParse);
        self.metrics.lower(GaugeId::Active);
    }

    /// The first bytes of a connection could not be read or were refused, and it
    /// was closed.
    pub fn on_hello_failed(&mut self)
        requires
            old(self).wf(),
            old(self)@.admission.pre_parse > 0,
        ensures
            final(self).wf(),
            final(self)@ == (RelayView {
                metrics: old(self)@.metrics.count(CounterId::ParseErrors, 1),
                ..old(self)@
            }).close_early(),
    {
        self.metrics.count(CounterId::ParseErrors, 1);
        self.on_closed_early();
    }

    /// A connection of a source was classified. It goes on as the session that
    /// this answers, or is closed with the error.
    pub fn on_classified(
        &mut self,
        classification: Classification,
        config: &Config,
        source: IpAddr,
    ) -> (session: Result<Session, RelayError>)
        requires
            old(self).wf(),
            old(self)@.admission.pre_parse > 0,
        ensures
            final(self).wf(),
            final(self)@ == old(self)@.classified(
                classification@,
                *config,
                source,
            ).0,
            match session {
                Ok(s) => {
                    &&& old(self)@.classified(classification@, *config, source).1 is None
                    &&& session_for(
                        s,
                        crate::routing::target_of(classification@, *config),
                        *config,
                        source,
                    )
                    &&& session_held(final(self)@, s)
                },
                Err(error) => old(self)@.classified(classification@, *config, source).1 matches Some(
                    rejection,
                ) && error.is(
                    crate::error::ErrorKind::WouldBlock,
                    crate::admission::rejection_message(rejection),
                ),
            },
    {
        proof {
            self.admission.lemma_wf();
            crate::admission::law_limits_hold(self@.admission, source);
        }
        let (target, counter) = classify_target(classification, config);
        self.metrics.count(counter, 1);
        match target {
            ClassifiedTarget::Routed { target, socket_marks, route_label } => {
                match self.admission.admit_routed(source) {
                    Ok(()) => {},
                    Err(rejection) => {
                        self.on_rejected(rejection);
                        return Err(rejection.error());
                    },
                }
                self.metrics.lower(GaugeId::ActivePreParse);
                self.metrics.raise(GaugeId::ActiveRouted);
                self.metrics.raise(GaugeId::ActiveRoutedEstablished);
                Ok(
                    Session {
                        class: UpstreamClass::Routed,
                        source,
                        upstream: target,
                        socket_marks,
                        route_label,
                        lifetime: None,
                    },
                )
            },
            ClassifiedTarget::Fallback { target, route_label } => {
                match self.admission.admit_fallback() {
                    Ok(()) => {},
                    Err(rejection) => {
                        self.on_rejected(rejection);
                        return Err(rejection.error());
                    },
                }
                self.metrics.lower(GaugeId::ActivePreParse);
                self.metrics.raise(GaugeId::ActiveFallback);
                Ok(
                    Session {
                        class: UpstreamClass::Fallback,
                        source,
                        upstream: target,
                        socket_marks: None,
                        route_label: route_label.to_string(),
                        lifetime: Some(config.fallback_lifetime_timeout()),
                    },
                )
            },
        }
    }

    /// Counts a rejected connection, which has left the pools.
    fn on_rejected(&mut self, rejection: Rejection)
        requires
            old(self).metrics.wf(),
        ensures
            final(self).admission == old(self).admission,
            final(self).metrics.wf(),
            final(self)@.metrics == rejected(old(self)@.metrics, rejection),
    {
        match rejection {
            Rejection::RoutedSource => {
                self.metrics.count(CounterId::RejectedRouted, 1);
                self.metrics.count(CounterId::RejectedRoutedSource, 1);
            },
            Rejection::Routed => self.metrics.count(CounterId::RejectedRouted, 1),
            Rejection::Fallback => self.metrics.count(CounterId::RejectedFallback, 1),
        }
        self.metrics.lower(GaugeId::ActivePreParse);
        self.metrics.lower(GaugeId::Active);
    }

    /// A session has ended.
    pub fn on_finished(&mut self, session: &Session)
        requires
            old(self).wf(),
            session_held(old(self)@, *session),
        ensures
            final(self).wf(),
            final(self)@ == old(self)@.finish(session.class, session.source),
    {
        proof {
            self.admission.lemma_wf();
            crate::admission::law_limits_hold(self@.admission, session.source);
        }
        match session.class {
            UpstreamClass::Routed => {
                self.admission.finish_routed(session.source);
                self.metrics.lower(GaugeId::ActiveRoutedEstablished);
                self.metrics.lower(GaugeId::ActiveRouted);
            },
            UpstreamClass::Fallback => {
                self.admission.finish_fallback();
                self.metrics.lower(GaugeId::ActiveFallback);
            },
        }
        self.metrics.lower(GaugeId::Active);
    }

    /// A step of a session came out.
    pub fn on_proxy(&mut self, proxy: &mut Proxy, event: ProxyEvent) -> (action: ProxyAction)
        requires
            old(self).wf(),
            old(proxy).can(event),
        ensures
            final(self).wf(),
            final(self)@.admission == old(self)@.admission,
            final(self)@.metrics == crate::proxy::counted_step(
                old(self)@.metrics,
                *old(proxy),
                event,
            ),
            (final(proxy).state, action@) == crate::proxy::next_step(*old(proxy), event),
            *final(proxy) == (Proxy { state: final(proxy).state, ..*old(proxy) }),
    {
        match (proxy.state, event) {
            (ProxyState::Connecting, ProxyEvent::Done) => {
                self.metrics.record_connect_success(proxy.class);
            },
            (ProxyState::Connecting, ProxyEvent::Failed)
            | (ProxyState::Connecting, ProxyEvent::ConnectTimedOut) => {
                self.metrics.record_connect_error(proxy.class, proxy.route_label.as_str());
            },
            (ProxyState::Replaying, ProxyEvent::Done) => {
                self.metrics.count(CounterId::BytesClientToUpstream, proxy.replay_len);
            },
            _ => {},
        }
        proxy.advance(event)
    }

    /// So many bytes of a direction have been delivered.
    pub fn on_delivered(&mut self, side: DirectionSide, bytes: u64)
        requires
            old(self).wf(),
        ensures
            final(self).wf(),
            final(self)@.admission == old(self)@.admission,
            final(self)@.metrics == old(self)@.metrics.count(
                bytes_counter(side),
                bytes as nat,
            ),
    {
        match side {
            DirectionSide::ClientToUpstream => self.metrics.count(
                CounterId::BytesClientToUpstream,
                bytes,
            ),
            DirectionSide::UpstreamToClient => self.metrics.count(
                CounterId::BytesUpstreamToClient,
                bytes,
            ),
        }
    }

    /// The configuration was read again.
    pub fn on_reload(
        &mut self,
        reloaded: Result<Config, ConfigError>,
        listen: SocketAddr,
        health: SocketAddr,
    ) -> (action: ReloadAction)
        requires
            old(self).wf(),
        ensures
            final(self).wf(),
            final(self)@.admission == old(self)@.admission,
            action == reload_answer(reloaded, old(self)@.admission.limits, listen, health),
            final(self)@.metrics == old(self)@.metrics.count(
                if action is Store {
                    CounterId::ReloadSuccess
                } else {
                    CounterId::ReloadErrors
                },
                1,
            ),
    {
        match reloaded {
            Ok(config) => {
                if config.bind == listen && config.health_bind == health {
                    if config.admission == self.admission.configured() {
                        self.metrics.count(CounterId::ReloadSuccess, 1);
                        ReloadAction::Store(config)
                    } else {
                        self.metrics.count(CounterId::ReloadErrors, 1);
                        ReloadAction::Refuse(ReloadRefusal::AdmissionChanged)
                    }
                } else {
                    self.metrics.count(CounterId::ReloadErrors, 1);
                    ReloadAction::Refuse(ReloadRefusal::AddressesChanged)
                }
            },
            Err(error) => {
                self.metrics.count(CounterId::ReloadErrors, 1);
                ReloadAction::Refuse(ReloadRefusal::Invalid(error))
            },
        }
    }
}

/// A direction of a relay.
#[derive(Clone, Copy, Debug, PartialEq, Eq, Structural)]
pub enum DirectionSide {
    ClientToUpstream,
    UpstreamToClient,
}

/// The counter of the bytes of a direction.
pub open spec fn bytes_counter(side: DirectionSide) -> CounterId {
    match side {
        DirectionSide::ClientToUpstream => CounterId::BytesClientToUpstream,
        DirectionSide::UpstreamToClient => CounterId::BytesUpstreamToClient,
    }
}

/// Why a configuration is not taken over.
#[derive(Debug)]
pub enum ReloadRefusal {
    AddressesChanged,
    AdmissionChanged,
    Invalid(ConfigError),
}

/// What to do with a configuration that was read again.
pub enum ReloadAction {
    Store(Config),
    Refuse(ReloadRefusal),
}

/// The answer to a configuration that was read again, by a relay that listens
/// on these addresses: it is taken over whole, or not at all.
pub open spec fn reload_answer(
    reloaded: Result<Config, ConfigError>,
    limits: Admission,
    listen: SocketAddr,
    health: SocketAddr,
) -> ReloadAction {
    match reloaded {
        Err(error) => ReloadAction::Refuse(ReloadRefusal::Invalid(error)),
        Ok(config) => if config.bind != listen || config.health_bind != health {
            ReloadAction::Refuse(ReloadRefusal::AddressesChanged)
        } else if config.admission != limits {
            ReloadAction::Refuse(ReloadRefusal::AdmissionChanged)
        } else {
            ReloadAction::Store(config)
        },
    }
}

impl ReloadRefusal {
    /// The refusal as a text for the log, but for the error of a configuration
    /// that could not be read.
    pub fn reason(&self) -> (reason: Option<&'static str>)
        ensures
            match (self, reason) {
                (ReloadRefusal::AddressesChanged, Some(text)) => text@
                    == "bind and health_bind cannot change without a restart"@,
                (ReloadRefusal::AdmissionChanged, Some(text)) => text@
                    == "admission limits cannot change without a restart"@,
                (ReloadRefusal::Invalid(_), None) => true,
                _ => false,
            },
    {
        match self {
            ReloadRefusal::AddressesChanged => Some(
                "bind and health_bind cannot change without a restart",
            ),
            ReloadRefusal::AdmissionChanged => Some(
                "admission limits cannot change without a restart",
            ),
            ReloadRefusal::Invalid(_) => None,
        }
    }
}

/// The configuration after a reload was answered.
pub open spec fn config_after(current: Config, answer: ReloadAction) -> Config {
    match answer {
        ReloadAction::Store(config) => config,
        ReloadAction::Refuse(_) => current,
    }
}

/// A reload takes over a valid configuration for the addresses and limits that
/// the relay runs with, or leaves the present one in place.
pub proof fn law_reload_is_all_or_nothing(current: Config, reloaded: Result<Config, ConfigError>)
    requires
        current.valid(),
        reloaded matches Ok(config) ==> config.valid(),
    ensures
        ({
            let answer = reload_answer(
                reloaded,
                current.admission,
                current.bind,
                current.health_bind,
            );
            let after = config_after(current, answer);
            &&& after.valid()
            &&& after.bind == current.bind
            &&& after.health_bind == current.health_bind
            &&& after.admission == current.admission
            &&& answer is Refuse ==> after == current
            &&& reloaded is Err ==> after == current
            &&& reloaded == Ok::<Config, ConfigError>(current) ==> after == current
        }),
{
}

/// A connection that is accepted, routed and finished leaves the pools and the
/// gauges as they were.
pub proof fn law_finished_session_leaves_no_trace(
    view: RelayView,
    classification: ClassificationView,
    config: Config,
    source: IpAddr,
)
    requires
        view.wf(),
        view.admission.has_room(),
        view.accept().classified(classification, config, source).1 is None,
    ensures
        ({
            let class = match crate::routing::target_of(classification, config) {
                TargetView::Routed { .. } => UpstreamClass::Routed,
                TargetView::Fallback { .. } => UpstreamClass::Fallback,
            };
            let after = view.accept().classified(classification, config, source).0.finish(
                class,
                source,
            );
            after.admission == view.admission && after.metrics.set.gauges
                == view.metrics.set.gauges
        }),
{
    match crate::routing::target_of(classification, config) {
        TargetView::Routed { .. } => {
            crate::admission::law_routed_connection_leaves_no_trace(view.admission, source);
            let after = view.accept().classified(classification, config, source).0.finish(
                UpstreamClass::Routed,
                source,
            );
            assert(after.metrics.set.gauges =~= view.metrics.set.gauges);
        },
        TargetView::Fallback { .. } => {
            crate::admission::law_fallback_connection_leaves_no_trace(view.admission);
            let after = view.accept().classified(classification, config, source).0.finish(
                UpstreamClass::Fallback,
                source,
            );
            assert(after.metrics.set.gauges =~= view.metrics.set.gauges);
        },
    }
}

/// The pools hold a place for the session.
pub open spec fn session_held(view: RelayView, session: Session) -> bool {
    match session.class {
        UpstreamClass::Routed => crate::admission::source_count(
            view.admission.sources,
            session.source,
        ) > 0,
        UpstreamClass::Fallback => view.admission.fallback > 0,
    }
}

} // verus!
