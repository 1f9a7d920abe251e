//! The registry: every registered connection, each under its own identity.

use crate::channel::{clone_channel, Channel};
use crate::client::Client;
use crate::error::HubError;
use vstd::prelude::*;

verus! {

/// One entry of a fan-out list: a connected client and a handle on its
/// outbound channel.
pub struct Subscriber {
    /// The connection identity of the client.
    pub identity: u64,
    /// A handle on the client's outbound channel.
    pub channel: Channel,
}

/// No two records carry the same identity.
pub open spec fn distinct_identities(records: Seq<Client>) -> bool {
    forall|i: int, j: int|
        0 <= i < j < records.len() ==> (#[trigger] records[i]).identity != (
        #[trigger] records[j]).identity
}

/// Some record carries `identity`.
pub open spec fn holds(records: Seq<Client>, identity: u64) -> bool {
    exists|i: int| 0 <= i < records.len() && (#[trigger] records[i]).identity == identity
}

/// The record that carries `identity`, where `holds(records, identity)`.
pub open spec fn record_of(records: Seq<Client>, identity: u64) -> Client {
    let i = choose|i: int| 0 <= i < records.len() && (#[trigger] records[i]).identity == identity;
    records[i]
}

/// The records but the one that carries `identity`, in their order.
pub open spec fn without(records: Seq<Client>, identity: u64) -> Seq<Client> {
    records.filter(|c: Client| c.identity != identity)
}

/// The records, with `channel` attached to the one that carries `identity`.
pub open spec fn with_channel(records: Seq<Client>, identity: u64, channel: Channel) -> Seq<
    Client,
> {
    records.map_values(
        |c: Client|
            if c.identity == identity {
                Client { sender: Some(channel), ..c }
            } else {
                c
            },
    )
}

/// One operation on the registry.
pub enum RegistryOp {
    /// Register `identity` for `user_id` with `topics`.
    Insert { identity: u64, user_id: usize, topics: Vec<String> },
    /// Attach `channel` to the record of `identity`.
    Attach { identity: u64, channel: Channel },
    /// Remove the record of `identity`.
    Remove { identity: u64 },
}

/// The records after `op`: what `Registry::insert`, `attach_channel` and
/// `remove` leave behind, a refused operation leaving the records as they
/// were.
pub open spec fn apply(records: Seq<Client>, op: RegistryOp) -> Seq<Client> {
    match op {
        RegistryOp::Insert { identity, user_id, topics } => if holds(records, identity) {
            records
        } else {
            records.push(Client { identity, user_id, topics, sender: None })
        },
        RegistryOp::Attach { identity, channel } => with_channel(records, identity, channel),
        RegistryOp::Remove { identity } => without(records, identity),
    }
}

/// The fan-out entry of one record for `topic`: the record's identity and
/// channel if it is connected and subscribed, nothing otherwise.
pub open spec fn fanout_entry(client: Client, topic: Seq<char>) -> Option<Subscriber> {
    if client.connected() && client.subscribed(topic) {
        Some(Subscriber { identity: client.identity, channel: client.sender->Some_0 })
    } else {
        None
    }
}

/// The fan-out list of `topic`: one entry for each record that is connected
/// and subscribed to it, in the order of the records.
pub open spec fn fanout(records: Seq<Client>, topic: Seq<char>) -> Seq<Subscriber> {
    records.filter_map(|c: Client| fanout_entry(c, topic))
}

/// Where no record carries `identity`, leaving it out changes nothing.
pub proof fn lemma_without_absent(records: Seq<Client>, identity: u64)
    requires
        !holds(records, identity),
    ensures
        without(records, identity) == records,
    decreases records.len(),
{
    reveal(Seq::filter);
    if records.len() > 0 {
        let front = records.drop_last();
        assert forall|i: int| 0 <= i < front.len() implies (#[trigger] front[i]).identity
            != identity by {
            assert(records[i].identity != identity);
        }
        lemma_without_absent(front, identity);
        assert(records.last().identity != identity);
        assert(front.push(records.last()) =~= records);
    }
}

/// Where the record at `at` carries `identity` and identities are distinct,
/// leaving `identity` out removes exactly that record.
pub proof fn lemma_without_present(records: Seq<Client>, identity: u64, at: int)
    requires
        distinct_identities(records),
        0 <= at < records.len(),
        records[at].identity == identity,
    ensures
        without(records, identity) == records.remove(at),
    decreases records.len(),
{
    reveal(Seq::filter);
    let front = records.drop_last();
    if at == records.len() - 1 {
        assert forall|i: int| 0 <= i < front.len() implies (#[trigger] front[i]).identity
            != identity by {
            assert(records[i].identity != records[at].identity);
        }
        lemma_without_absent(front, identity);
        assert(records.remove(at) =~= front);
    } else {
        assert(front[at] == records[at]);
        assert forall|i: int, j: int| 0 <= i < j < front.len() implies (#[trigger] front[i]).identity
            != (#[trigger] front[j]).identity by {
            assert(records[i].identity != records[j].identity);
        }
        lemma_without_present(front, identity, at);
        assert(records.last().identity != records[at].identity);
        assert(front.remove(at).push(records.last()) =~= records.remove(at));
    }
}

/// Leaving out one identity keeps the others distinct, and `identity` is gone.
pub proof fn lemma_without_distinct(records: Seq<Client>, identity: u64)
    requires
        distinct_identities(records),
    ensures
        distinct_identities(without(records, identity)),
        !holds(without(records, identity), identity),
        forall|other: u64|
            other != identity ==> (#[trigger] holds(without(records, identity), other) <==> holds(
                records,
                other,
            )),
{
    if holds(records, identity) {
        let at = choose|i: int|
            0 <= i < records.len() && (#[trigger] records[i]).identity == identity;
        lemma_without_present(records, identity, at);
        let rest = records.remove(at);
        assert forall|i: int| 0 <= i < rest.len() implies (#[trigger] rest[i]).identity
            != identity by {
            if i < at {
                assert(records[i].identity != records[at].identity);
            } else {
                assert(records[at].identity != records[i + 1].identity);
            }
        }
        assert forall|other: u64| other != identity implies (#[trigger] holds(rest, other)
            <==> holds(records, other)) by {
            if holds(rest, other) {
                let k = choose|k: int| 0 <= k < rest.len() && (#[trigger] rest[k]).identity == other;
                if k < at {
                    assert(records[k].identity == other);
                } else {
                    assert(records[k + 1].identity == other);
                }
            }
            if holds(records, other) {
                let k = choose|k: int|
                    0 <= k < records.len() && (#[trigger] records[k]).identity == other;
                if k < at {
                    assert(rest[k].identity == other);
                } else {
                    assert(rest[k - 1].identity == other);
                }
            }
        }
    } else {
        lemma_without_absent(records, identity);
    }
}

/// Where identities are distinct, the record that carries `identity` is the
/// one at the place where it was found.
pub proof fn lemma_record_at(records: Seq<Client>, identity: u64, at: int)
    requires
        distinct_identities(records),
        0 <= at < records.len(),
        records[at].identity == identity,
    ensures
        holds(records, identity),
        record_of(records, identity) == records[at],
{
    let i = choose|i: int| 0 <= i < records.len() && (#[trigger] records[i]).identity == identity;
    if i < at {
        assert(records[i].identity != records[at].identity);
    } else if at < i {
        assert(records[at].identity != records[i].identity);
    }
}

/// Attaching a channel to an identity that is not registered changes
/// nothing.
pub proof fn lemma_attach_absent(records: Seq<Client>, identity: u64, channel: Channel)
    requires
        !holds(records, identity),
    ensures
        with_channel(records, identity, channel) == records,
{
    assert forall|i: int| 0 <= i < records.len() implies #[trigger] with_channel(
        records,
        identity,
        channel,
    )[i] == records[i] by {
        assert(records[i].identity != identity);
    }
    assert(with_channel(records, identity, channel) =~= records);
}

/// Every record that is left after leaving out one identity was there before.
pub proof fn lemma_without_kept(records: Seq<Client>, identity: u64)
    ensures
        forall|i: int|
            0 <= i < without(records, identity).len() ==> records.contains(
                #[trigger] without(records, identity)[i],
            ),
{
    let rest = without(records, identity);
    assert forall|i: int| 0 <= i < rest.len() implies records.contains(#[trigger] rest[i]) by {
        assert(rest.contains(rest[i]));
        records.lemma_filter_contains_rev(|c: Client| c.identity != identity, rest[i]);
    }
}

/// The mapping from connection identity to client record.
///
/// The records are kept in the order of their registration, and no two of
/// them carry the same identity.
pub struct Registry {
    records: Vec<Client>,
}

impl View for Registry {
    type V = Seq<Client>;

    /// The records, in the order of their registration.
    closed spec fn view(&self) -> Seq<Client> {
        self.records@
    }
}

impl Registry {
    /// What holds of every registry that there is: identities are unique.
    #[verifier::type_invariant]
    pub open spec fn wf(&self) -> bool {
        distinct_identities(self@)
    }

    /// An empty registry.
    pub fn new() -> (registry: Registry)
        ensures
            registry@ == Seq::<Client>::empty(),
            registry.wf(),
    {
        Registry { records: Vec::new() }
    }

    /// The number of registered connections.
    pub fn len(&self) -> (count: usize)
        ensures
            count == self@.len(),
    {
        self.records.len()
    }

    /// Whether nothing is registered.
    pub fn is_empty(&self) -> (empty: bool)
        ensures
            empty == (self@.len() == 0),
    {
        self.records.len() == 0
    }

    /// Takes the records out, to change them and put them back; the registry
    /// is empty meanwhile.
    fn take_records(&mut self) -> (records: Vec<Client>)
        ensures
            records@ == old(self)@,
            final(self)@ == Seq::<Client>::empty(),
    {
        let mut records: Vec<Client> = Vec::new();
        core::mem::swap(&mut self.records, &mut records);
        records
    }

    /// The place of the record that carries `identity`, if there is one.
    fn position(&self, identity: u64) -> (place: Option<usize>)
        ensures
            match place {
                Some(at) => at < self@.len() && self@[at as int].identity == identity,
                None => !holds(self@, identity),
            },
    {
        let mut i: usize = 0;
        while i < self.records.len()
            invariant
                i <= self.records@.len(),
                forall|j: int| 0 <= j < i ==> (#[trigger] self.records@[j]).identity != identity,
            decreases self.records@.len() - i,
        {
            if self.records[i].identity == identity {
                return Some(i);
            }
            i += 1;
        }
        None
    }

    /// Tells whether `identity` is registered.
    pub fn contains(&self, identity: u64) -> (found: bool)
        ensures
            found == holds(self@, identity),
    {
        self.position(identity).is_some()
    }

    /// The record that carries `identity`, if it is registered.
    pub fn get(&self, identity: u64) -> (found: Option<&Client>)
        ensures
            self.wf(),
            found is Some <==> holds(self@, identity),
            found is Some ==> *found->Some_0 == record_of(self@, identity),
    {
        proof {
            use_type_invariant(self);
        }
        match self.position(identity) {
            Some(at) => {
                proof {
                    lemma_record_at(self@, identity, at as int);
                }
                Some(&self.records[at])
            },
            None => None,
        }
    }

    /// Registers `identity` with `topics`, on behalf of `user_id`: adds a
    /// record with no outbound channel, behind those already there.
    ///
    /// An identity that is already registered is refused with
    /// `DuplicateIdentity`, and the registry stays as it was.
    pub fn insert(&mut self, identity: u64, user_id: usize, topics: Vec<String>) -> (outcome:
        Result<(), HubError>)
        ensures
            final(self).wf(),
            outcome is Ok <==> !holds(old(self)@, identity),
            outcome is Ok ==> final(self)@ == old(self)@.push(
                Client { identity, user_id, topics, sender: None },
            ),
            outcome is Err ==> outcome == Err::<(), HubError>(HubError::DuplicateIdentity)
                && final(self)@ == old(self)@,
            final(self)@ == apply(old(self)@, RegistryOp::Insert { identity, user_id, topics }),
    {
        proof {
            use_type_invariant(&*self);
        }
        if self.position(identity).is_some() {
            return Err(HubError::DuplicateIdentity);
        }
        let mut records = self.take_records();
        records.push(Client::pending(identity, user_id, topics));
        self.records = records;
        Ok(())
    }

    /// Attaches `channel` to the record that carries `identity`, in place of
    /// the channel that it may have had.
    ///
    /// An identity that is not registered is refused with `UnknownClient`,
    /// and the registry stays as it was.
    pub fn attach_channel(&mut self, identity: u64, channel: Channel) -> (outcome: Result<
        (),
        HubError,
    >)
        ensures
            final(self).wf(),
            outcome is Ok <==> holds(old(self)@, identity),
            outcome is Ok ==> final(self)@ == with_channel(old(self)@, identity, channel),
            outcome is Err ==> outcome == Err::<(), HubError>(HubError::UnknownClient)
                && final(self)@ == old(self)@,
            final(self)@ == apply(old(self)@, RegistryOp::Attach { identity, channel }),
    {
        proof {
            use_type_invariant(&*self);
        }
        match self.position(identity) {
            Some(at) => {
                let mut records = self.take_records();
                let record = records.remove(at);
                let Client { identity: id, user_id, topics, sender: _ } = record;
                records.insert(at, Client { identity: id, user_id, topics, sender: Some(channel) });
                self.records = records;
                proof {
                    let before = old(self)@;
                    let after = self@;
                    assert forall|i: int| 0 <= i < before.len() implies #[trigger] after[i]
                        == with_channel(before, identity, channel)[i] by {
                        if i != at {
                            assert(before[i].identity != before[at as int].identity);
                        }
                    }
                    assert(after =~= with_channel(before, identity, channel));
                }
                Ok(())
            },
            None => {
                proof {
                    lemma_attach_absent(self@, identity, channel);
                }
                Err(HubError::UnknownClient)
            },
        }
    }

    /// Removes the record that carries `identity` and hands it back; the
    /// other records keep their order. Where `identity` is not registered
    /// nothing changes, and nothing is handed back.
    ///
    /// Dropping the record drops its handle on the outbound channel.
    pub fn remove(&mut self, identity: u64) -> (removed: Option<Client>)
        ensures
            final(self).wf(),
            final(self)@ == without(old(self)@, identity),
            final(self)@ == apply(old(self)@, RegistryOp::Remove { identity }),
            !holds(final(self)@, identity),
            removed is Some <==> holds(old(self)@, identity),
            removed is Some ==> removed->Some_0 == record_of(old(self)@, identity) && final(self)@.len() == old(self)@.len() - 1,
            removed is None ==> final(self)@ == old(self)@,
    {
        proof {
            use_type_invariant(&*self);
            lemma_without_distinct(self@, identity);
        }
        match self.position(identity) {
            Some(at) => {
                proof {
                    lemma_without_present(self@, identity, at as int);
                    lemma_record_at(self@, identity, at as int);
                }
                let mut records = self.take_records();
                let record = records.remove(at);
                self.records = records;
                Some(record)
            },
            None => {
                proof {
                    lemma_without_absent(self@, identity);
                }
                None
            },
        }
    }

    /// The fan-out list of `topic`: for each record that is connected and
    /// subscribed to `topic`, its identity and a handle on its channel, in
    /// the order of registration. The registry is read in one pass, and the
    /// list does not borrow from it.
    pub fn snapshot_subscribers(&self, topic: &str) -> (subscribers: Vec<Subscriber>)
        ensures
            subscribers@ == fanout(self@, topic@),
    {
        let mut subscribers: Vec<Subscriber> = Vec::new();
        let mut i: usize = 0;
        while i < self.records.len()
            invariant
                i <= self.records@.len(),
                subscribers@ == fanout(self.records@.take(i as int), topic@),
            decreases self.records@.len() - i,
        {
            let record = &self.records[i];
            proof {
                self.records@.lemma_filter_map_take_succ(|c: Client| fanout_entry(c, topic@), i as int);
            }
            if record.is_subscribed(topic) {
                match &record.sender {
                    Some(channel) => {
                        subscribers.push(
                            Subscriber { identity: record.identity, channel: clone_channel(channel) },
                        );
                    },
                    None => {},
                }
            }
            i += 1;
        }
        proof {
            assert(self.records@.take(i as int) =~= self.records@);
        }
        subscribers
    }
}

} // verus!
