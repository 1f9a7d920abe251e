//! The record that the hub keeps of one connection.

use crate::channel::Channel;
use vstd::prelude::*;

verus! {

/// One registered connection.
///
/// `sender` is `None` from registration until the transport is upgraded, and
/// holds the outbound channel of the live connection afterwards.
#[derive(Clone)]
pub struct Client {
    /// The connection identity that the hub assigned at registration.
    pub identity: u64,
    /// The user on whose behalf the connection was registered. One user may
    /// hold several connections.
    pub user_id: usize,
    /// The topics that the connection subscribes to.
    pub topics: Vec<String>,
    /// The outbound channel, once there is one.
    pub sender: Option<Channel>,
}

impl Client {
    /// Whether `topic` is among the topics of this record.
    pub open spec fn subscribed(&self, topic: Seq<char>) -> bool {
        exists|i: int| 0 <= i < self.topics@.len() && (#[trigger] self.topics@[i])@ == topic
    }

    /// Whether an outbound channel is attached.
    pub open spec fn connected(&self) -> bool {
        self.sender is Some
    }

    /// A record for `identity` that is registered and not yet connected.
    pub fn pending(identity: u64, user_id: usize, topics: Vec<String>) -> (client: Client)
        ensures
            client == (Client { identity, user_id, topics, sender: None }),
    {
        Client { identity, user_id, topics, sender: None }
    }

    /// Tells whether `topic` is among the topics of this record.
    pub fn is_subscribed(&self, topic: &str) -> (found: bool)
        ensures
            found == self.subscribed(topic@),
    {
        let wanted: String = topic.to_owned();
        let mut i: usize = 0;
        while i < self.topics.len()
            invariant
                i <= self.topics@.len(),
                wanted@ == topic@,
                forall|j: int| 0 <= j < i ==> (#[trigger] self.topics@[j])@ != topic@,
            decreases self.topics@.len() - i,
        {
            if self.topics[i] == wanted {
                return true;
            }
            i += 1;
        }
        false
    }
}

} // verus!
