//! The broadcaster: hands one payload to every channel of a fan-out list and
//! reports, recipient by recipient, how that went.

use crate::channel::{enqueue, text_frame};
use crate::error::HubError;
use crate::registry::Subscriber;
use vstd::prelude::*;

verus! {

/// The attempt to hand a payload to one recipient.
#[derive(Clone, Copy, Debug, PartialEq, Eq, Structural)]
pub struct Delivery {
    /// The connection identity of the recipient.
    pub identity: u64,
    /// Whether the recipient's channel took the payload.
    pub accepted: bool,
}

/// A recipient that a payload did not reach, and why.
#[derive(Clone, Copy, Debug, PartialEq, Eq, Structural)]
pub struct DeliveryFailure {
    /// The connection identity of the recipient.
    pub identity: u64,
    /// The failure; a channel refuses a payload only when it is closed.
    pub error: HubError,
}

/// The number of attempts that succeeded.
pub open spec fn delivered_count(attempts: Seq<Delivery>) -> nat {
    attempts.filter(|d: Delivery| d.accepted).len()
}

/// What one attempt adds to the list of failures.
pub open spec fn failure_of(attempt: Delivery) -> Option<DeliveryFailure> {
    if attempt.accepted {
        None
    } else {
        Some(DeliveryFailure { identity: attempt.identity, error: HubError::ChannelClosed })
    }
}

/// The failures among the attempts, in their order.
pub open spec fn failures(attempts: Seq<Delivery>) -> Seq<DeliveryFailure> {
    attempts.filter_map(|d: Delivery| failure_of(d))
}

/// The attempts are one for each subscriber, in the order of the list.
pub open spec fn covers(attempts: Seq<Delivery>, subscribers: Seq<Subscriber>) -> bool {
    &&& attempts.len() == subscribers.len()
    &&& forall|i: int|
        0 <= i < attempts.len() ==> (#[trigger] attempts[i]).identity == subscribers[i].identity
}

/// Every attempt either succeeded or is among the failures: the two counts
/// add up to the number of attempts.
pub proof fn lemma_attempts_partition(attempts: Seq<Delivery>)
    ensures
        delivered_count(attempts) + failures(attempts).len() == attempts.len(),
    decreases attempts.len(),
{
    reveal(Seq::filter);
    if attempts.len() > 0 {
        lemma_attempts_partition(attempts.drop_last());
    }
}

/// The aggregate result of one publish: every attempt that was made, in the
/// order of the fan-out list. A failed attempt never fails the publish.
pub struct PublishOutcome {
    attempts: Vec<Delivery>,
}

impl View for PublishOutcome {
    type V = Seq<Delivery>;

    /// The attempts, in the order in which they were made.
    closed spec fn view(&self) -> Seq<Delivery> {
        self.attempts@
    }
}

impl PublishOutcome {
    /// The outcome that holds exactly `attempts`.
    pub fn from_attempts(attempts: Vec<Delivery>) -> (outcome: PublishOutcome)
        ensures
            outcome@ == attempts@,
    {
        PublishOutcome { attempts }
    }

    /// The attempts, in the order in which they were made.
    pub fn attempts(&self) -> (attempts: &Vec<Delivery>)
        ensures
            attempts@ == self@,
    {
        &self.attempts
    }

    /// The number of recipients that were tried.
    pub fn attempted(&self) -> (count: usize)
        ensures
            count == self@.len(),
    {
        self.attempts.len()
    }

    /// The number of recipients whose channel took the payload.
    pub fn delivered(&self) -> (count: usize)
        ensures
            count == delivered_count(self@),
            count + failures(self@).len() == self@.len(),
    {
        let mut count: usize = 0;
        let mut i: usize = 0;
        while i < self.attempts.len()
            invariant
                i <= self.attempts@.len(),
                count <= i,
                count == delivered_count(self.attempts@.take(i as int)),
            decreases self.attempts@.len() - i,
        {
            proof {
                reveal(Seq::filter);
                assert(self.attempts@.take(i + 1).drop_last() =~= self.attempts@.take(i as int));
            }
            if self.attempts[i].accepted {
                count += 1;
            }
            i += 1;
        }
        proof {
            assert(self.attempts@.take(i as int) =~= self.attempts@);
            lemma_attempts_partition(self@);
        }
        count
    }

    /// The recipients that the payload did not reach, in the order of the
    /// attempts, each with `ChannelClosed`.
    pub fn failed(&self) -> (list: Vec<DeliveryFailure>)
        ensures
            list@ == failures(self@),
    {
        let mut list: Vec<DeliveryFailure> = Vec::new();
        let mut i: usize = 0;
        while i < self.attempts.len()
            invariant
                i <= self.attempts@.len(),
                list@ == failures(self.attempts@.take(i as int)),
            decreases self.attempts@.len() - i,
        {
            proof {
                self.attempts@.lemma_filter_map_take_succ(|d: Delivery| failure_of(d), i as int);
            }
            if !self.attempts[i].accepted {
                list.push(
                    DeliveryFailure {
                        identity: self.attempts[i].identity,
                        error: HubError::ChannelClosed,
                    },
                );
            }
            i += 1;
        }
        proof {
            assert(self.attempts@.take(i as int) =~= self.attempts@);
        }
        list
    }
}

/// Hands `payload`, as a text frame, to the channel of every subscriber in
/// turn, and records for each whether its channel took the frame.
///
/// A channel that refuses the frame does not stop the round: every
/// subscriber of the list is tried exactly once, in the order of the list.
/// Whether a channel takes a frame is decided by its receiving half, so the
/// outcome says nothing of it.
pub fn deliver(subscribers: &Vec<Subscriber>, payload: &str) -> (outcome: PublishOutcome)
    ensures
        covers(outcome@, subscribers@),
{
    let mut attempts: Vec<Delivery> = Vec::new();
    let mut i: usize = 0;
    while i < subscribers.len()
        invariant
            i <= subscribers@.len(),
            attempts@.len() == i,
            forall|j: int|
                0 <= j < i ==> (#[trigger] attempts@[j]).identity == subscribers@[j].identity,
        decreases subscribers@.len() - i,
    {
        let accepted = enqueue(&subscribers[i].channel, text_frame(payload));
        attempts.push(Delivery { identity: subscribers[i].identity, accepted });
        i += 1;
    }
    PublishOutcome::from_attempts(attempts)
}

} // verus!
