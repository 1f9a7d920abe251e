//! The life of one connection, as a state machine.
//!
//! The caller owns the transport and the receiving half of the outbound
//! channel. It turns what it reads from either into an event, hands the event
//! to the session and performs the action that the session answers with.

use crate::channel::{frame_is_close, is_close_frame, Outgoing};
use crate::error::HubError;
use vstd::prelude::*;
use warp::ws::Message;

verus! {

/// Where a connection stands.
#[derive(Clone, Copy, Debug, PartialEq, Eq, Structural)]
pub enum SessionState {
    /// The transport upgrade is in progress; the record has no channel yet.
    Connecting,
    /// The channel is attached; outbound messages are relayed.
    Active,
    /// The connection is being torn down.
    Closing,
    /// The record is removed and both directions are released.
    Terminated,
}

/// What happened to a connection.
#[derive(Clone, Copy, Debug, PartialEq, Eq, Structural)]
pub enum SessionEvent {
    /// The transport upgrade completed and the channel was attached.
    Upgraded,
    /// A message was placed on the outbound channel.
    OutboundMessage,
    /// The outbound channel was closed.
    OutboundClosed,
    /// A frame other than a close frame arrived.
    InboundFrame,
    /// The client closed the connection.
    InboundClose,
    /// The transport failed.
    TransportError,
    /// The record was removed and both directions were released.
    Released,
}

/// What the caller has to do in answer to an event.
#[derive(Clone, Copy, Debug, PartialEq, Eq, Structural)]
pub enum SessionAction {
    /// Nothing.
    Nothing,
    /// Relay the message that was placed on the outbound channel to the
    /// transport.
    Relay,
    /// Remove the record from the registry and release both directions, then
    /// report `Released`.
    Cleanup,
}

/// Whether `event` tears a live connection down.
pub open spec fn is_closing_trigger(event: SessionEvent) -> bool {
    event is InboundClose || event is TransportError || event is OutboundClosed
}

/// How far a state is along the life of a connection.
pub open spec fn rank(state: SessionState) -> nat {
    match state {
        SessionState::Connecting => 0,
        SessionState::Active => 1,
        SessionState::Closing => 2,
        SessionState::Terminated => 3,
    }
}

/// The state that follows `state` on `event`.
pub open spec fn next_state(state: SessionState, event: SessionEvent) -> SessionState {
    match state {
        SessionState::Connecting => if event is Upgraded {
            SessionState::Active
        } else if is_closing_trigger(event) {
            SessionState::Closing
        } else {
            SessionState::Connecting
        },
        SessionState::Active => if is_closing_trigger(event) {
            SessionState::Closing
        } else {
            SessionState::Active
        },
        SessionState::Closing => if event is Released {
            SessionState::Terminated
        } else {
            SessionState::Closing
        },
        SessionState::Terminated => SessionState::Terminated,
    }
}

/// The action that `event` asks for in `state`: a relay for each outbound
/// message of an active connection, a cleanup on entering `Closing`.
pub open spec fn action_for(state: SessionState, event: SessionEvent) -> SessionAction {
    if state is Active && event is OutboundMessage {
        SessionAction::Relay
    } else if (state is Connecting || state is Active) && is_closing_trigger(event) {
        SessionAction::Cleanup
    } else {
        SessionAction::Nothing
    }
}

/// The state reached from `state` after `events`, taken in order.
pub open spec fn run(state: SessionState, events: Seq<SessionEvent>) -> SessionState
    decreases events.len(),
{
    if events.len() == 0 {
        state
    } else {
        next_state(run(state, events.drop_last()), events.last())
    }
}

/// No sequence of events takes a session back: the state reached is never
/// earlier in the life of the connection than the state it started from.
pub proof fn lemma_never_back(state: SessionState, events: Seq<SessionEvent>)
    ensures
        rank(state) <= rank(run(state, events)),
    decreases events.len(),
{
    if events.len() > 0 {
        lemma_never_back(state, events.drop_last());
    }
}

/// A terminated session stays terminated, whatever happens.
pub proof fn lemma_terminated_stays(events: Seq<SessionEvent>)
    ensures
        run(SessionState::Terminated, events) == SessionState::Terminated,
    decreases events.len(),
{
    if events.len() > 0 {
        lemma_terminated_stays(events.drop_last());
    }
}

/// A cleanup is asked for exactly when a session enters `Closing`, which it
/// does at most once.
pub proof fn lemma_cleanup_on_entering_closing(state: SessionState, event: SessionEvent)
    ensures
        action_for(state, event) is Cleanup <==> !(state is Closing) && next_state(state, event)
            is Closing,
        action_for(state, event) is Relay ==> next_state(state, event) is Active,
{
}

/// The next state and the action for `event` in `state`.
pub fn step(state: SessionState, event: SessionEvent) -> (next: (SessionState, SessionAction))
    ensures
        next.0 == next_state(state, event),
        next.1 == action_for(state, event),
{
    let closing = match event {
        SessionEvent::InboundClose | SessionEvent::TransportError | SessionEvent::OutboundClosed => true,
        _ => false,
    };
    match state {
        SessionState::Connecting => {
            if closing {
                (SessionState::Closing, SessionAction::Cleanup)
            } else {
                match event {
                    SessionEvent::Upgraded => (SessionState::Active, SessionAction::Nothing),
                    _ => (SessionState::Connecting, SessionAction::Nothing),
                }
            }
        },
        SessionState::Active => {
            if closing {
                (SessionState::Closing, SessionAction::Cleanup)
            } else {
                match event {
                    SessionEvent::OutboundMessage => (SessionState::Active, SessionAction::Relay),
                    _ => (SessionState::Active, SessionAction::Nothing),
                }
            }
        },
        SessionState::Closing => match event {
            SessionEvent::Released => (SessionState::Terminated, SessionAction::Nothing),
            _ => (SessionState::Closing, SessionAction::Nothing),
        },
        SessionState::Terminated => (SessionState::Terminated, SessionAction::Nothing),
    }
}

/// The event that an inbound frame stands for, given whether it is a close
/// frame. Inbound frames carry nothing else for the hub.
pub fn frame_event(close: bool) -> (event: SessionEvent)
    ensures
        event == if close {
            SessionEvent::InboundClose
        } else {
            SessionEvent::InboundFrame
        },
{
    if close {
        SessionEvent::InboundClose
    } else {
        SessionEvent::InboundFrame
    }
}

/// The event that one read from the transport stands for: the end of the
/// stream counts as a close by the client, a failed read as a transport
/// error, and a frame as a close only if it is a close frame.
pub fn inbound_event(read: &Option<Result<Message, warp::Error>>) -> (event: SessionEvent)
    ensures
        event == match *read {
            None => SessionEvent::InboundClose,
            Some(Err(_)) => SessionEvent::TransportError,
            Some(Ok(frame)) => if frame_is_close(frame) {
                SessionEvent::InboundClose
            } else {
                SessionEvent::InboundFrame
            },
        },
{
    match read {
        None => SessionEvent::InboundClose,
        Some(Err(_)) => SessionEvent::TransportError,
        Some(Ok(frame)) => frame_event(is_close_frame(frame)),
    }
}

/// The event that one read from the outbound channel stands for: the end of
/// the channel, a frame to relay, or a transport error that was queued.
pub fn outbound_event(item: &Option<Outgoing>) -> (event: SessionEvent)
    ensures
        event == match *item {
            None => SessionEvent::OutboundClosed,
            Some(Ok(_)) => SessionEvent::OutboundMessage,
            Some(Err(_)) => SessionEvent::TransportError,
        },
{
    match item {
        None => SessionEvent::OutboundClosed,
        Some(Ok(_)) => SessionEvent::OutboundMessage,
        Some(Err(_)) => SessionEvent::TransportError,
    }
}

/// One connection: the identity of its record, where it stands, and the
/// failure that ended it if there was one.
pub struct Session {
    identity: u64,
    state: SessionState,
    failure: Option<HubError>,
}

impl Session {
    /// The identity of the record that the session belongs to.
    pub closed spec fn spec_identity(&self) -> u64 {
        self.identity
    }

    /// Where the session stands.
    pub closed spec fn spec_state(&self) -> SessionState {
        self.state
    }

    /// `Some(TransportError)` once a transport error has closed the session.
    pub closed spec fn spec_failure(&self) -> Option<HubError> {
        self.failure
    }

    /// A session for `identity` whose transport upgrade is in progress.
    pub fn connecting(identity: u64) -> (session: Session)
        ensures
            session.spec_identity() == identity,
            session.spec_state() == SessionState::Connecting,
            session.spec_failure() is None,
    {
        Session { identity, state: SessionState::Connecting, failure: None }
    }

    /// The identity of the record that the session belongs to.
    #[verifier::when_used_as_spec(spec_identity)]
    pub fn identity(&self) -> (identity: u64)
        ensures
            identity == self.spec_identity(),
    {
        self.identity
    }

    /// Where the session stands.
    #[verifier::when_used_as_spec(spec_state)]
    pub fn state(&self) -> (state: SessionState)
        ensures
            state == self.spec_state(),
    {
        self.state
    }

    /// The failure that closed the session, if one did.
    #[verifier::when_used_as_spec(spec_failure)]
    pub fn failure(&self) -> (failure: Option<HubError>)
        ensures
            failure == self.spec_failure(),
    {
        self.failure
    }

    /// Takes the session through `event` and answers with the action that
    /// the caller has to perform. A transport error that closes the session
    /// is kept as its failure.
    pub fn advance(&mut self, event: SessionEvent) -> (action: SessionAction)
        ensures
            final(self).identity() == old(self).identity(),
            final(self).state() == next_state(old(self).state(), event),
            action == action_for(old(self).state(), event),
            final(self).failure() == if action is Cleanup && event is TransportError {
                Some(HubError::TransportError)
            } else {
                old(self).failure()
            },
    {
        let (next, action) = step(self.state, event);
        self.state = next;
        match (action, event) {
            (SessionAction::Cleanup, SessionEvent::TransportError) => {
                self.failure = Some(HubError::TransportError);
            },
            _ => {},
        }
        action
    }
}

} // verus!
