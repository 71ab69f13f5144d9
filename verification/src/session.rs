//! Life of one relayed session, from the accepted TCP connection to its
//! close.
//!
//! A session is `Accepted`, then `PortBinding` while it takes a local UDP
//! port and connects the socket to the remote target, then `Relaying` while
//! its two directions run, then `Closed`. The caller reports what happened
//! as an event and is told what to do next. Nothing here touches a socket,
//! and nothing that happens in one session reaches another.

use vstd::prelude::*;
use crate::error::{CloseReason, SessionError};
use crate::pipe::{Direction, IoFailure};

verus! {

/// Where a session stands.
#[derive(Clone, Copy, Debug, PartialEq, Eq, Structural)]
pub enum SessionState {
    /// A TCP stream was accepted. Nothing has been done with it yet.
    Accepted,
    /// The session is taking a local UDP port and connecting its socket.
    PortBinding,
    /// The UDP socket is bound to `port` and connected to the remote
    /// target. Both directions forward.
    Relaying { port: u16 },
    /// The session is over. No further I/O is made for it.
    Closed(CloseReason),
}

/// What the caller reports.
#[derive(Clone, Copy, Debug, PartialEq, Eq, Structural)]
pub enum SessionEvent {
    /// The handler took over the accepted stream.
    Start,
    /// A socket was bound to this port and connected to the remote target.
    Bound(u16),
    /// No port could be bound, or the bound socket could not be connected.
    BindFailed(SessionError),
    /// The loop of one direction ended.
    Stopped(Direction, CloseReason),
}

impl SessionEvent {
    /// The event that ends the binding phase once `port` is bound: `Bound`
    /// where the socket was connected to the remote target, `BindFailed`
    /// with `BindFailure` where it could not be.
    pub open spec fn connected(port: u16, connect: Result<(), IoFailure>) -> SessionEvent {
        match connect {
            Ok(_) => SessionEvent::Bound(port),
            Err(_) => SessionEvent::BindFailed(SessionError::BindFailure),
        }
    }

    /// Computes [`SessionEvent::connected`].
    pub fn after_connect(port: u16, connect: Result<(), IoFailure>) -> (event: SessionEvent)
        ensures
            event == SessionEvent::connected(port, connect),
    {
        match connect {
            Ok(_) => SessionEvent::Bound(port),
            Err(_) => SessionEvent::BindFailed(SessionError::BindFailure),
        }
    }
}

/// What the caller does next.
#[derive(Clone, Copy, Debug, PartialEq, Eq, Structural)]
pub enum SessionAction {
    /// Acquire a port of the configured range and connect the socket to
    /// the remote target.
    Bind,
    /// Apply the configured timeout to the reads of both sockets and run
    /// both directions, each in a context of its own.
    Relay,
    /// Release the stream and the socket.
    Release,
    /// Nothing. The event changes nothing in this state.
    Idle,
}

/// The state that follows `state` on `event`, and what the caller does
/// next. An event that has no place in a state leaves it as it is.
pub open spec fn step(state: SessionState, event: SessionEvent) -> (SessionState, SessionAction) {
    match (state, event) {
        (SessionState::Accepted, SessionEvent::Start) => (
            SessionState::PortBinding,
            SessionAction::Bind,
        ),
        (SessionState::PortBinding, SessionEvent::Bound(port)) => (
            SessionState::Relaying { port },
            SessionAction::Relay,
        ),
        (SessionState::PortBinding, SessionEvent::BindFailed(_)) => (
            SessionState::Closed(CloseReason::BindFailure),
            SessionAction::Release,
        ),
        (SessionState::Relaying { .. }, SessionEvent::Stopped(_, reason)) => (
            SessionState::Closed(reason),
            SessionAction::Release,
        ),
        _ => (state, SessionAction::Idle),
    }
}

/// The state that a session in `state` reaches over `events`.
pub open spec fn run(state: SessionState, events: Seq<SessionEvent>) -> SessionState
    decreases events.len(),
{
    if events.len() == 0 {
        state
    } else {
        run(step(state, events.first()).0, events.drop_first())
    }
}

/// One session.
#[derive(Clone, Copy, Debug, PartialEq, Eq, Structural)]
pub struct Session {
    /// Where the session stands.
    pub state: SessionState,
}

impl Session {
    /// The session of a stream that was just accepted.
    pub fn new() -> (session: Session)
        ensures
            session.state == SessionState::Accepted,
    {
        Session { state: SessionState::Accepted }
    }

    /// The session is over.
    pub fn is_closed(&self) -> (closed: bool)
        ensures
            closed == (self.state is Closed),
    {
        match self.state {
            SessionState::Closed(_) => true,
            _ => false,
        }
    }

    /// Takes `event` and says what to do next.
    pub fn handle(&mut self, event: SessionEvent) -> (action: SessionAction)
        ensures
            (final(self).state, action) == step(old(self).state, event),
    {
        let (next, action) = match (self.state, event) {
            (SessionState::Accepted, SessionEvent::Start) => (
                SessionState::PortBinding,
                SessionAction::Bind,
            ),
            (SessionState::PortBinding, SessionEvent::Bound(port)) => (
                SessionState::Relaying { port },
                SessionAction::Relay,
            ),
            (SessionState::PortBinding, SessionEvent::BindFailed(_)) => (
                SessionState::Closed(CloseReason::BindFailure),
                SessionAction::Release,
            ),
            (SessionState::Relaying { .. }, SessionEvent::Stopped(_, reason)) => (
                SessionState::Closed(reason),
                SessionAction::Release,
            ),
            (state, _) => (state, SessionAction::Idle),
        };
        self.state = next;
        action
    }
}

/// A closed session stays closed, for the same reason, and every event is
/// answered with `Idle`: no further I/O is asked for.
pub proof fn lemma_closed_is_terminal(reason: CloseReason, events: Seq<SessionEvent>)
    ensures
        run(SessionState::Closed(reason), events) == SessionState::Closed(reason),
        forall|event: SessionEvent| #[trigger]
            step(SessionState::Closed(reason), event) == (
                SessionState::Closed(reason),
                SessionAction::Idle,
            ),
    decreases events.len(),
{
    if events.len() > 0 {
        lemma_closed_is_terminal(reason, events.drop_first());
    }
}

/// As soon as one direction of a relaying session stops, whichever it is,
/// the session is closed for that direction's reason. Nothing that is
/// reported later, the end of the other direction included, changes that.
pub proof fn lemma_session_closes_when_a_direction_stops(
    port: u16,
    dir: Direction,
    reason: CloseReason,
    later: Seq<SessionEvent>,
)
    ensures
        step(SessionState::Relaying { port }, SessionEvent::Stopped(dir, reason)) == (
            SessionState::Closed(reason),
            SessionAction::Release,
        ),
        run(SessionState::Relaying { port }, seq![SessionEvent::Stopped(dir, reason)] + later)
            == SessionState::Closed(reason),
{
    let events = seq![SessionEvent::Stopped(dir, reason)] + later;
    assert(events.first() == SessionEvent::Stopped(dir, reason));
    assert(events.drop_first() =~= later);
    lemma_closed_is_terminal(reason, later);
}

/// A session whose binding fails never relays: it is closed with
/// `BindFailure` and stays so.
pub proof fn lemma_bind_failure_closes_session(error: SessionError, later: Seq<SessionEvent>)
    ensures
        run(
            SessionState::Accepted,
            seq![SessionEvent::Start, SessionEvent::BindFailed(error)] + later,
        ) == SessionState::Closed(CloseReason::BindFailure),
{
    let events = seq![SessionEvent::Start, SessionEvent::BindFailed(error)] + later;
    assert(events.first() == SessionEvent::Start);
    let rest = events.drop_first();
    assert(rest.first() == SessionEvent::BindFailed(error));
    assert(rest.drop_first() =~= later);
    lemma_closed_is_terminal(CloseReason::BindFailure, later);
    assert(run(SessionState::PortBinding, rest) == SessionState::Closed(CloseReason::BindFailure));
}

/// A session relays only after its socket was bound and connected: where
/// no `Bound` is among the events, the session does not reach `Relaying`.
pub proof fn lemma_no_relay_without_bound(state: SessionState, events: Seq<SessionEvent>)
    requires
        !(state is Relaying),
        forall|i: int| 0 <= i < events.len() ==> !(#[trigger] events[i] is Bound),
    ensures
        !(run(state, events) is Relaying),
    decreases events.len(),
{
    if events.len() > 0 {
        assert(!(events[0] is Bound));
        let rest = events.drop_first();
        assert forall|i: int| 0 <= i < rest.len() implies !(#[trigger] rest[i] is Bound) by {
            assert(!(events[i + 1] is Bound));
        }
        lemma_no_relay_without_bound(step(state, events.first()).0, rest);
    }
}

} // verus!
