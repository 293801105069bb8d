//! The steps of a session: mark the client's socket, connect to the upstream,
//! send on the bytes that were read for the routing decision, and relay.

use vstd::prelude::*;

use crate::address::SocketAddr;
use crate::config::SocketMarks;
use crate::error::{ErrorKind, RelayError};
use crate::metrics::{CounterId, MetricsView, UpstreamClass};
use crate::relay::Session;

verus! {

/// The step that a session is at.
#[derive(Clone, Copy, Debug, PartialEq, Eq, Structural)]
pub enum ProxyState {
    Marking,
    Connecting,
    Replaying,
    Relaying,
    Over,
}

/// How the step that a session is at came out.
#[derive(Clone, Copy, Debug, PartialEq, Eq, Structural)]
pub enum ProxyEvent {
    /// It succeeded.
    Done,
    /// It failed with an I/O error.
    Failed,
    /// The connect took too long.
    ConnectTimedOut,
    /// The session took too long.
    LifetimeOver,
}

/// The next step of a session.
#[derive(Debug)]
pub enum ProxyAction {
    /// Set this mark on the client's socket.
    MarkClient(u32),
    /// Connect, with this mark on the socket where there is one.
    Connect(SocketAddr, Option<u32>),
    /// Send the bytes that were read for the routing decision.
    Replay,
    /// Relay in both directions.
    Relay,
    /// End without an error.
    Finish,
    /// End with the error that the step failed with.
    FailAsEvent,
    /// End with this error.
    Fail(RelayError),
}

/// `ProxyAction` over views.
pub enum ProxyActionView {
    MarkClient(u32),
    Connect(SocketAddr, Option<u32>),
    Replay,
    Relay,
    Finish,
    FailAsEvent,
    Fail(ErrorKind, Seq<char>),
}

impl View for ProxyAction {
    type V = ProxyActionView;

    open spec fn view(&self) -> ProxyActionView {
        match self {
            ProxyAction::MarkClient(mark) => ProxyActionView::MarkClient(*mark),
            ProxyAction::Connect(address, mark) => ProxyActionView::Connect(*address, *mark),
            ProxyAction::Replay => ProxyActionView::Replay,
            ProxyAction::Relay => ProxyActionView::Relay,
            ProxyAction::Finish => ProxyActionView::Finish,
            ProxyAction::FailAsEvent => ProxyActionView::FailAsEvent,
            ProxyAction::Fail(error) => ProxyActionView::Fail(error.kind, error.message@),
        }
    }
}

/// A session on its way.
#[derive(Debug)]
pub struct Proxy {
    pub state: ProxyState,
    pub class: UpstreamClass,
    pub upstream: SocketAddr,
    pub socket_marks: Option<SocketMarks>,
    pub route_label: String,
    /// How many bytes were read for the routing decision.
    pub replay_len: u64,
    /// The session may last so long only.
    pub bounded: bool,
}

/// The mark of the socket to the upstream: that of uploads.
pub open spec fn upload_mark(marks: Option<SocketMarks>) -> Option<u32> {
    match marks {
        Some(marks) => Some(marks.upload),
        None => None,
    }
}

/// The first step: a marked session marks the client's socket with the mark of
/// downloads.
pub open spec fn first_step(
    upstream: SocketAddr,
    marks: Option<SocketMarks>,
) -> (ProxyState, ProxyActionView) {
    match marks {
        Some(marks) => (ProxyState::Marking, ProxyActionView::MarkClient(marks.download)),
        None => (ProxyState::Connecting, ProxyActionView::Connect(upstream, None)),
    }
}

/// The step after an event.
pub open spec fn next_step(proxy: Proxy, event: ProxyEvent) -> (ProxyState, ProxyActionView) {
    match event {
        ProxyEvent::Failed => (ProxyState::Over, ProxyActionView::FailAsEvent),
        ProxyEvent::ConnectTimedOut => (
            ProxyState::Over,
            ProxyActionView::Fail(ErrorKind::TimedOut, "upstream connect timeout"@),
        ),
        ProxyEvent::LifetimeOver => (
            ProxyState::Over,
            ProxyActionView::Fail(
                ErrorKind::TimedOut,
                "fallback connection lifetime exceeded"@,
            ),
        ),
        ProxyEvent::Done => match proxy.state {
            ProxyState::Marking => (
                ProxyState::Connecting,
                ProxyActionView::Connect(proxy.upstream, upload_mark(proxy.socket_marks)),
            ),
            ProxyState::Connecting => (ProxyState::Replaying, ProxyActionView::Replay),
            ProxyState::Replaying => (ProxyState::Relaying, ProxyActionView::Relay),
            ProxyState::Relaying => (ProxyState::Over, ProxyActionView::Finish),
            ProxyState::Over => (ProxyState::Over, ProxyActionView::Finish),
        },
    }
}

/// The metrics after an event: connects are counted by their outcome, and the
/// bytes sent on once they are delivered.
pub open spec fn counted_step(
    metrics: MetricsView,
    proxy: Proxy,
    event: ProxyEvent,
) -> MetricsView {
    if proxy.state == ProxyState::Connecting && event == ProxyEvent::Done {
        crate::metrics::connect_succeeded(metrics, proxy.class)
    } else if proxy.state == ProxyState::Connecting && event != ProxyEvent::LifetimeOver {
        crate::metrics::connect_failed(metrics, proxy.class, proxy.route_label@)
    } else if proxy.state == ProxyState::Replaying && event == ProxyEvent::Done {
        metrics.count(CounterId::BytesClientToUpstream, proxy.replay_len as nat)
    } else {
        metrics
    }
}

impl Proxy {
    /// An event that can come now.
    pub open spec fn can(&self, event: ProxyEvent) -> bool {
        &&& self.state != ProxyState::Over
        &&& event == ProxyEvent::ConnectTimedOut ==> self.state == ProxyState::Connecting
        &&& event == ProxyEvent::LifetimeOver ==> self.bounded
    }

    /// The first step of a session.
    pub fn start(session: &Session, replay_len: u64) -> (started: (Self, ProxyAction))
        ensures
            started.0.class == session.class,
            started.0.upstream == session.upstream,
            started.0.socket_marks == session.socket_marks,
            started.0.route_label@ == session.route_label@,
            started.0.replay_len == replay_len,
            started.0.bounded == (session.lifetime is Some),
            (started.0.state, started.1@) == first_step(session.upstream, session.socket_marks),
    {
        let (state, action) = match session.socket_marks {
            Some(marks) => (ProxyState::Marking, ProxyAction::MarkClient(marks.download)),
            None => (ProxyState::Connecting, ProxyAction::Connect(session.upstream, None)),
        };
        let proxy = Proxy {
            state,
            class: session.class,
            upstream: session.upstream,
            socket_marks: session.socket_marks,
            route_label: session.route_label.as_str().to_string(),
            replay_len,
            bounded: session.lifetime.is_some(),
        };
        (proxy, action)
    }

    /// The next step of the session.
    pub fn advance(&mut self, event: ProxyEvent) -> (action: ProxyAction)
        requires
            old(self).can(event),
        ensures
            (final(self).state, action@) == next_step(*old(self), event),
            *final(self) == (Proxy { state: final(self).state, ..*old(self) }),
    {
        match event {
            ProxyEvent::Failed => {
                self.state = ProxyState::Over;
                ProxyAction::FailAsEvent
            },
            ProxyEvent::ConnectTimedOut => {
                self.state = ProxyState::Over;
                ProxyAction::Fail(RelayError::new(ErrorKind::TimedOut, "upstream connect timeout"))
            },
            ProxyEvent::LifetimeOver => {
                self.state = ProxyState::Over;
                ProxyAction::Fail(
                    RelayError::new(
                        ErrorKind::TimedOut,
                        "fallback connection lifetime exceeded",
                    ),
                )
            },
            ProxyEvent::Done => match self.state {
                ProxyState::Marking => {
                    self.state = ProxyState::Connecting;
                    let mark = match self.socket_marks {
                        Some(marks) => Some(marks.upload),
                        None => None,
                    };
                    ProxyAction::Connect(self.upstream, mark)
                },
                ProxyState::Connecting => {
                    self.state = ProxyState::Replaying;
                    ProxyAction::Replay
                },
                ProxyState::Replaying => {
                    self.state = ProxyState::Relaying;
                    ProxyAction::Relay
                },
                ProxyState::Relaying => {
                    self.state = ProxyState::Over;
                    ProxyAction::Finish
                },
                ProxyState::Over => ProxyAction::Finish,
            },
        }
    }
}

/// Where a session is after so many steps that succeeded.
pub open spec fn after_steps(proxy: Proxy, steps: nat) -> Proxy
    decreases steps,
{
    if steps == 0 {
        proxy
    } else {
        let before = after_steps(proxy, (steps - 1) as nat);
        Proxy { state: next_step(before, ProxyEvent::Done).0, ..before }
    }
}

/// A session whose steps succeed sends on the bytes that were read for the
/// routing decision, once, after the upstream is connected and before anything
/// is relayed, and the bytes are counted then.
pub proof fn law_bytes_are_replayed_before_the_relay(proxy: Proxy, metrics: MetricsView)
    requires
        proxy.state == ProxyState::Connecting,
    ensures
        next_step(proxy, ProxyEvent::Done).1 == ProxyActionView::Replay,
        next_step(after_steps(proxy, 1), ProxyEvent::Done).1 == ProxyActionView::Relay,
        counted_step(metrics, after_steps(proxy, 1), ProxyEvent::Done) == metrics.count(
            CounterId::BytesClientToUpstream,
            proxy.replay_len as nat,
        ),
        next_step(after_steps(proxy, 2), ProxyEvent::Done) == (
            ProxyState::Over,
            ProxyActionView::Finish,
        ),
{
    reveal_with_fuel(after_steps, 3);
}

/// A marked session marks the client's socket first, with the mark of
/// downloads, and then connects with the mark of uploads; another session marks
/// neither socket.
pub proof fn law_marks_are_by_direction(proxy: Proxy, upstream: SocketAddr, marks: SocketMarks)
    requires
        proxy.state == ProxyState::Marking,
        proxy.upstream == upstream,
        proxy.socket_marks == Some(marks),
    ensures
        first_step(upstream, Some(marks)) == (
            ProxyState::Marking,
            ProxyActionView::MarkClient(marks.download),
        ),
        next_step(proxy, ProxyEvent::Done) == (
            ProxyState::Connecting,
            ProxyActionView::Connect(upstream, Some(marks.upload)),
        ),
        first_step(upstream, None) == (
            ProxyState::Connecting,
            ProxyActionView::Connect(upstream, None),
        ),
{
}

/// A session goes through its steps in one order: mark, connect, send on, relay
/// and end. A session that is not marked starts with the connect.
pub proof fn law_steps_are_in_order(proxy: Proxy, upstream: SocketAddr, marks: Option<SocketMarks>)
    ensures
        first_step(upstream, marks) == match marks {
            Some(marks) => (ProxyState::Marking, ProxyActionView::MarkClient(marks.download)),
            None => (ProxyState::Connecting, ProxyActionView::Connect(upstream, None)),
        },
        next_step(proxy, ProxyEvent::Done) == match proxy.state {
            ProxyState::Marking => (
                ProxyState::Connecting,
                ProxyActionView::Connect(
                    proxy.upstream,
                    if proxy.socket_marks is Some {
                        Some((proxy.socket_marks->0).upload)
                    } else {
                        None
                    },
                ),
            ),
            ProxyState::Connecting => (ProxyState::Replaying, ProxyActionView::Replay),
            ProxyState::Replaying => (ProxyState::Relaying, ProxyActionView::Relay),
            ProxyState::Relaying => (ProxyState::Over, ProxyActionView::Finish),
            ProxyState::Over => (ProxyState::Over, ProxyActionView::Finish),
        },
{
}

/// Whatever step fails or takes too long ends the session, with the error of
/// the step or with that of the deadline.
pub proof fn law_failures_end_the_session(proxy: Proxy)
    ensures
        next_step(proxy, ProxyEvent::Failed) == (ProxyState::Over, ProxyActionView::FailAsEvent),
        next_step(proxy, ProxyEvent::ConnectTimedOut) == (
            ProxyState::Over,
            ProxyActionView::Fail(ErrorKind::TimedOut, "upstream connect timeout"@),
        ),
        next_step(proxy, ProxyEvent::LifetimeOver) == (
            ProxyState::Over,
            ProxyActionView::Fail(ErrorKind::TimedOut, "fallback connection lifetime exceeded"@),
        ),
        proxy.can(ProxyEvent::Done) <==> proxy.state != ProxyState::Over,
        proxy.can(ProxyEvent::Failed) <==> proxy.state != ProxyState::Over,
        proxy.can(ProxyEvent::ConnectTimedOut) <==> proxy.state == ProxyState::Connecting,
        proxy.can(ProxyEvent::LifetimeOver) <==> proxy.bounded && proxy.state != ProxyState::Over,
{
}

/// What a session is to do is seen as what it is.
pub proof fn law_actions_are_seen(action: ProxyAction)
    ensures
        match action {
            ProxyAction::MarkClient(mark) => action@ == ProxyActionView::MarkClient(mark),
            ProxyAction::Connect(address, mark) => action@ == ProxyActionView::Connect(
                address,
                mark,
            ),
            ProxyAction::Replay => action@ == ProxyActionView::Replay,
            ProxyAction::Relay => action@ == ProxyActionView::Relay,
            ProxyAction::Finish => action@ == ProxyActionView::Finish,
            ProxyAction::FailAsEvent => action@ == ProxyActionView::FailAsEvent,
            ProxyAction::Fail(error) => action@ == ProxyActionView::Fail(
                error.kind,
                error.message@,
            ),
        },
{
}

} // verus!
