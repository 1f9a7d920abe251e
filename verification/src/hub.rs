//! The hub: the registry together with the lifecycle operations, the
//! broadcaster and the bookkeeping of sessions.
//!
//! A hub is meant to be shared behind one lock. Every operation but
//! `publish` is short and fit for a critical section. To publish without
//! holding the lock across a send, take `registry().snapshot_subscribers(..)`
//! under the lock and hand the list to `delivery::deliver` once the lock is
//! released.

use crate::delivery::{covers, deliver, PublishOutcome};
use crate::channel::Channel;
use crate::client::Client;
use crate::error::HubError;
use crate::registry::{distinct_identities, fanout, holds, with_channel, without, Registry};
use crate::session::{Session, SessionAction, SessionEvent, SessionState};
use vstd::prelude::*;

verus! {

/// The identity that is allocated after `identity`.
pub open spec fn following(identity: u64) -> u64 {
    if identity == u64::MAX {
        0
    } else {
        (identity + 1) as u64
    }
}

/// The registry and the identity that the next registration will get.
pub struct Hub {
    registry: Registry,
    next_identity: u64,
}

impl View for Hub {
    type V = Seq<Client>;

    /// The records of the registry, in the order of their registration.
    closed spec fn view(&self) -> Seq<Client> {
        self.registry@
    }
}

impl Hub {
    /// The identity that the next registration will get.
    pub closed spec fn spec_next_identity(&self) -> u64 {
        self.next_identity
    }

    /// What holds of every hub that there is: identities are unique.
    pub open spec fn wf(&self) -> bool {
        distinct_identities(self@)
    }

    /// Every identity in use was allocated before the next one: it is below
    /// it. This holds of a new hub, and for as long as the counter of
    /// identities has not run through all of `u64`.
    pub open spec fn in_sequence(&self) -> bool {
        forall|i: int| 0 <= i < self@.len() ==> (#[trigger] self@[i]).identity < self.next_identity()
    }

    /// A hub with nothing registered, which allocates identities from 0.
    pub fn new() -> (hub: Hub)
        ensures
            hub.wf(),
            hub@ == Seq::<Client>::empty(),
            hub.next_identity() == 0,
            hub.in_sequence(),
    {
        Hub { registry: Registry::new(), next_identity: 0 }
    }

    /// A hub over `registry` that allocates identities from `next_identity`.
    pub fn with_registry(registry: Registry, next_identity: u64) -> (hub: Hub)
        ensures
            hub.wf(),
            hub@ == registry@,
            hub.next_identity() == next_identity,
    {
        proof {
            use_type_invariant(&registry);
        }
        Hub { registry, next_identity }
    }

    /// The registry, to read.
    pub fn registry(&self) -> (registry: &Registry)
        ensures
            registry@ == self@,
            self.wf(),
    {
        proof {
            use_type_invariant(&self.registry);
        }
        &self.registry
    }

    /// The identity that the next registration will get.
    #[verifier::when_used_as_spec(spec_next_identity)]
    pub fn next_identity(&self) -> (identity: u64)
        ensures
            identity == self.spec_next_identity(),
    {
        self.next_identity
    }

    /// Registers a connection for `user_id` with `topics` and answers with
    /// the connection identity that it allocated: the next of the counter,
    /// which then moves on by one and starts again from 0 after `u64::MAX`.
    /// The new record has no channel.
    ///
    /// The identity is refused with `DuplicateIdentity` if it is still in
    /// use, which cannot happen while `in_sequence` holds; the counter moves
    /// on all the same, and the registry stays as it was.
    pub fn register(&mut self, user_id: usize, topics: Vec<String>) -> (outcome: Result<
        u64,
        HubError,
    >)
        ensures
            final(self).wf(),
            final(self).next_identity() == following(old(self).next_identity()),
            outcome is Ok <==> !holds(old(self)@, old(self).next_identity()),
            old(self).in_sequence() ==> outcome is Ok,
            outcome is Ok ==> outcome->Ok_0 == old(self).next_identity() && final(self)@ == old(self)@.push(Client { identity: old(self).next_identity(), user_id, topics, sender: None }),
            outcome is Err ==> outcome->Err_0 == HubError::DuplicateIdentity && final(self)@
                == old(self)@,
            old(self).in_sequence() && old(self).next_identity() < u64::MAX ==> final(self).in_sequence(),
    {
        let identity = self.next_identity;
        self.next_identity = if identity == u64::MAX {
            0
        } else {
            identity + 1
        };
        match self.registry.insert(identity, user_id, topics) {
            Ok(()) => Ok(identity),
            Err(error) => Err(error),
        }
    }

    /// Removes the record of `identity`. Dropping the record drops its handle
    /// on the outbound channel, which ends the session of a live connection.
    ///
    /// An identity that is not registered is refused with `UnknownClient`,
    /// and the registry stays as it was.
    pub fn unregister(&mut self, identity: u64) -> (outcome: Result<(), HubError>)
        ensures
            final(self).wf(),
            final(self).next_identity() == old(self).next_identity(),
            final(self)@ == without(old(self)@, identity),
            !holds(final(self)@, identity),
            outcome is Ok <==> holds(old(self)@, identity),
            outcome is Ok ==> final(self)@.len() == old(self)@.len() - 1,
            outcome is Err ==> outcome->Err_0 == HubError::UnknownClient && final(self)@ == old(self)@,
            old(self).in_sequence() ==> final(self).in_sequence(),
    {
        proof {
            crate::registry::lemma_without_kept(self@, identity);
        }
        match self.registry.remove(identity) {
            Some(_) => Ok(()),
            None => Err(HubError::UnknownClient),
        }
    }

    /// Starts the session of `identity` once its transport is upgraded:
    /// attaches `channel` to the record and answers with a session that is
    /// `Active`.
    ///
    /// A record is meant to get its channel once. Where it already has one,
    /// `channel` takes its place: the session that held the earlier channel
    /// then sees it closed, and its cleanup removes the record.
    ///
    /// An identity that is not registered is refused with `UnknownClient`,
    /// and the registry stays as it was.
    pub fn open_session(&mut self, identity: u64, channel: Channel) -> (outcome: Result<
        Session,
        HubError,
    >)
        ensures
            final(self).wf(),
            final(self).next_identity() == old(self).next_identity(),
            outcome is Ok <==> holds(old(self)@, identity),
            outcome is Ok ==> final(self)@ == with_channel(old(self)@, identity, channel) && ({
                let session = outcome->Ok_0;
                &&& session.identity() == identity
                &&& session.state() == SessionState::Active
                &&& session.failure() is None
            }),
            outcome is Err ==> outcome->Err_0 == HubError::UnknownClient && final(self)@ == old(self)@,
            old(self).in_sequence() ==> final(self).in_sequence(),
    {
        match self.registry.attach_channel(identity, channel) {
            Ok(()) => {
                let mut session = Session::connecting(identity);
                let _ = session.advance(SessionEvent::Upgraded);
                Ok(session)
            },
            Err(error) => Err(error),
        }
    }

    /// Takes `session` through `event`. Where that closes the session, its
    /// record is removed at once and the session ends as `Terminated`;
    /// removing a record that is already gone changes nothing. On any other
    /// event the registry stays as it was. A transport error that closes the
    /// session is kept as its failure.
    ///
    /// The answer is the action that is left to the caller: `Relay` for an
    /// outbound message of an active session, `Cleanup` to release both
    /// directions of a session that was closed, `Nothing` otherwise.
    pub fn on_session_event(&mut self, session: &mut Session, event: SessionEvent) -> (action:
        SessionAction)
        ensures
            final(self).wf(),
            final(self).next_identity() == old(self).next_identity(),
            final(session).identity() == old(session).identity(),
            action == crate::session::action_for(old(session).state(), event),
            action is Cleanup ==> final(session).state() == SessionState::Terminated && final(self)@ == without(old(self)@, old(session).identity()) && !holds(
                final(self)@,
                old(session).identity(),
            ),
            !(action is Cleanup) ==> final(session).state() == crate::session::next_state(
                old(session).state(),
                event,
            ) && final(self)@ == old(self)@,
            final(session).failure() == if action is Cleanup && event is TransportError {
                Some(HubError::TransportError)
            } else {
                old(session).failure()
            },
            old(self).in_sequence() ==> final(self).in_sequence(),
    {
        proof {
            use_type_invariant(&self.registry);
        }
        let action = session.advance(event);
        match action {
            SessionAction::Cleanup => {
                proof {
                    crate::registry::lemma_without_kept(self@, session.identity());
                }
                let _ = self.registry.remove(session.identity());
                let _ = session.advance(SessionEvent::Released);
            },
            _ => {},
        }
        action
    }

    /// Publishes `payload` to `topic`: hands it to the channel of every
    /// record that is connected and subscribed to `topic`, in the order of
    /// registration, and to no other. The outcome holds one attempt for each
    /// of them; with no such record it is empty.
    pub fn publish(&self, topic: &str, payload: &str) -> (outcome: PublishOutcome)
        ensures
            self.wf(),
            covers(outcome@, fanout(self@, topic@)),
    {
        proof {
            use_type_invariant(&self.registry);
        }
        let subscribers = self.registry.snapshot_subscribers(topic);
        deliver(&subscribers, payload)
    }
}

} // verus!
