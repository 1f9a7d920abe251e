//! What holds of the registry and of its fan-out lists, whatever the
//! operations that led to them.

use crate::delivery::{
    covers, delivered_count, failures, lemma_attempts_partition, Delivery, DeliveryFailure,
};
use crate::client::Client;
use crate::registry::{
    apply, distinct_identities, fanout, fanout_entry, holds, lemma_without_absent,
    lemma_without_distinct, lemma_without_present, without, RegistryOp, Subscriber,
};
use vstd::prelude::*;

verus! {

/// The records after `ops`, taken in order.
pub open spec fn apply_all(records: Seq<Client>, ops: Seq<RegistryOp>) -> Seq<Client>
    decreases ops.len(),
{
    if ops.len() == 0 {
        records
    } else {
        apply(apply_all(records, ops.drop_last()), ops.last())
    }
}

/// No operation makes two records share an identity.
pub proof fn lemma_apply_keeps_distinct(records: Seq<Client>, op: RegistryOp)
    requires
        distinct_identities(records),
    ensures
        distinct_identities(apply(records, op)),
{
    match op {
        RegistryOp::Insert { identity, user_id, topics } => {
            if !holds(records, identity) {
                let after = apply(records, op);
                assert forall|i: int, j: int| 0 <= i < j < after.len() implies (
                #[trigger] after[i]).identity != (#[trigger] after[j]).identity by {
                    if j == records.len() {
                        assert(records[i].identity != identity);
                    } else {
                        assert(records[i].identity != records[j].identity);
                    }
                }
            }
        },
        RegistryOp::Attach { identity, channel } => {
            let after = apply(records, op);
            assert forall|i: int, j: int| 0 <= i < j < after.len() implies (
            #[trigger] after[i]).identity != (#[trigger] after[j]).identity by {
                assert(records[i].identity != records[j].identity);
            }
        },
        RegistryOp::Remove { identity } => {
            lemma_without_distinct(records, identity);
        },
    }
}

/// Whatever the operations on a registry that started empty, no two of its
/// records carry the same identity.
pub proof fn lemma_identities_stay_distinct(ops: Seq<RegistryOp>)
    ensures
        distinct_identities(apply_all(Seq::<Client>::empty(), ops)),
    decreases ops.len(),
{
    if ops.len() > 0 {
        lemma_identities_stay_distinct(ops.drop_last());
        lemma_apply_keeps_distinct(apply_all(Seq::<Client>::empty(), ops.drop_last()), ops.last());
    }
}

/// What one operation adds to the number of records: one for the insertion
/// of a new identity, minus one for the removal of a registered identity,
/// nothing otherwise.
pub open spec fn size_change(records: Seq<Client>, op: RegistryOp) -> int {
    match op {
        RegistryOp::Insert { identity, .. } => if holds(records, identity) {
            0
        } else {
            1
        },
        RegistryOp::Attach { .. } => 0,
        RegistryOp::Remove { identity } => if holds(records, identity) {
            -1
        } else {
            0
        },
    }
}

/// The sum of what each of `ops`, taken in order from `records`, adds to the
/// number of records.
pub open spec fn net_change(records: Seq<Client>, ops: Seq<RegistryOp>) -> int
    decreases ops.len(),
{
    if ops.len() == 0 {
        0
    } else {
        net_change(records, ops.drop_last()) + size_change(
            apply_all(records, ops.drop_last()),
            ops.last(),
        )
    }
}

/// No insertion is lost and no removal counted twice: after any operations,
/// the registry holds as many records as were inserted and not removed.
pub proof fn lemma_size_is_net_change(ops: Seq<RegistryOp>)
    ensures
        apply_all(Seq::<Client>::empty(), ops).len() == net_change(Seq::<Client>::empty(), ops),
    decreases ops.len(),
{
    if ops.len() > 0 {
        let before = apply_all(Seq::<Client>::empty(), ops.drop_last());
        lemma_size_is_net_change(ops.drop_last());
        lemma_identities_stay_distinct(ops.drop_last());
        match ops.last() {
            RegistryOp::Remove { identity } => {
                if holds(before, identity) {
                    let at = choose|i: int|
                        0 <= i < before.len() && (#[trigger] before[i]).identity == identity;
                    lemma_without_present(before, identity, at);
                } else {
                    lemma_without_absent(before, identity);
                }
            },
            _ => {},
        }
    }
}

/// Some record has `subscriber` as its fan-out entry for `topic`.
pub open spec fn sourced(records: Seq<Client>, topic: Seq<char>, subscriber: Subscriber) -> bool {
    exists|i: int|
        0 <= i < records.len() && fanout_entry(#[trigger] records[i], topic) == Some(subscriber)
}

/// A fan-out list holds exactly the entries of the records that are
/// connected and subscribed: every entry of the list comes from such a
/// record, with that record's identity and channel; every such record has its
/// entry in the list; and no identity is listed twice.
pub proof fn lemma_fanout_exact(records: Seq<Client>, topic: Seq<char>)
    requires
        distinct_identities(records),
    ensures
        forall|k: int|
            0 <= k < fanout(records, topic).len() ==> sourced(
                records,
                topic,
                #[trigger] fanout(records, topic)[k],
            ),
        forall|i: int|
            0 <= i < records.len() && (#[trigger] records[i]).connected() && records[i].subscribed(
                topic,
            ) ==> fanout(records, topic).contains(
                Subscriber { identity: records[i].identity, channel: records[i].sender->Some_0 },
            ),
        forall|k: int, l: int|
            0 <= k < l < fanout(records, topic).len() ==> (#[trigger] fanout(
                records,
                topic,
            )[k]).identity != (#[trigger] fanout(records, topic)[l]).identity,
    decreases records.len(),
{
    lemma_fanout_sourced(records, topic);
    let list = fanout(records, topic);
    if records.len() > 0 {
        let front = records.drop_last();
        let last = records.last();
        let head = fanout(front, topic);
        assert forall|i: int, j: int| 0 <= i < j < front.len() implies (#[trigger] front[i]).identity
            != (#[trigger] front[j]).identity by {
            assert(records[i].identity != records[j].identity);
        }
        lemma_fanout_exact(front, topic);
        lemma_fanout_sourced(front, topic);
        assert forall|k: int| 0 <= k < head.len() implies (#[trigger] head[k]).identity
            != last.identity by {
            assert(sourced(front, topic, head[k]));
            let i = choose|i: int|
                0 <= i < front.len() && fanout_entry(#[trigger] front[i], topic) == Some(head[k]);
            assert(records[i].identity != records[records.len() - 1].identity);
        }
        assert forall|i: int|
            0 <= i < records.len() && (#[trigger] records[i]).connected() && records[i].subscribed(
                topic,
            ) implies list.contains(
            Subscriber { identity: records[i].identity, channel: records[i].sender->Some_0 },
        ) by {
            let entry = Subscriber {
                identity: records[i].identity,
                channel: records[i].sender->Some_0,
            };
            if i < front.len() {
                assert(front[i] == records[i]);
                assert(head.contains(entry));
                let k = choose|k: int| 0 <= k < head.len() && head[k] == entry;
                assert(list[k] == entry);
            } else {
                assert(list[list.len() - 1] == entry);
            }
        }
        assert forall|k: int, l: int| 0 <= k < l < list.len() implies (#[trigger] list[k]).identity
            != (#[trigger] list[l]).identity by {
            if l < head.len() {
                assert(list[k] == head[k] && list[l] == head[l]);
            } else {
                assert(list[k] == head[k]);
                assert(list[l].identity == last.identity);
            }
        }
    }
}

/// Every entry of a fan-out list comes from a record of the registry.
pub proof fn lemma_fanout_sourced(records: Seq<Client>, topic: Seq<char>)
    ensures
        forall|k: int|
            0 <= k < fanout(records, topic).len() ==> sourced(
                records,
                topic,
                #[trigger] fanout(records, topic)[k],
            ),
    decreases records.len(),
{
    let list = fanout(records, topic);
    if records.len() > 0 {
        let front = records.drop_last();
        let head = fanout(front, topic);
        lemma_fanout_sourced(front, topic);
        assert(fanout_entry(records[records.len() - 1], topic) == fanout_entry(
            records.last(),
            topic,
        ));
        assert forall|k: int| 0 <= k < list.len() implies sourced(
            records,
            topic,
            #[trigger] list[k],
        ) by {
            if k < head.len() {
                assert(list[k] == head[k]);
                assert(sourced(front, topic, head[k]));
                let i = choose|i: int|
                    0 <= i < front.len() && fanout_entry(#[trigger] front[i], topic) == Some(
                        head[k],
                    );
                assert(records[i] == front[i]);
            }
        }
    }
}

/// A client that was removed is on no fan-out list: whatever the topic, no
/// entry of the list carries its identity.
pub proof fn lemma_removed_is_unreachable(records: Seq<Client>, identity: u64, topic: Seq<char>)
    ensures
        forall|k: int|
            0 <= k < fanout(without(records, identity), topic).len() ==> (#[trigger] fanout(
                without(records, identity),
                topic,
            )[k]).identity != identity,
{
    let rest = without(records, identity);
    let list = fanout(rest, topic);
    lemma_fanout_sourced(rest, topic);
    assert forall|k: int| 0 <= k < list.len() implies (#[trigger] list[k]).identity
        != identity by {
        assert(sourced(rest, topic, list[k]));
        let i = choose|i: int|
            0 <= i < rest.len() && fanout_entry(#[trigger] rest[i], topic) == Some(list[k]);
        records.lemma_filter_pred(|c: Client| c.identity != identity, i);
    }
}

/// Whether a record is a recipient for `topic`: it is connected and
/// subscribed to it.
pub open spec fn is_recipient(client: Client, topic: Seq<char>) -> bool {
    client.connected() && client.subscribed(topic)
}

/// Where no record is a recipient for `topic`, its fan-out list is empty.
pub proof fn lemma_fanout_of_nobody(records: Seq<Client>, topic: Seq<char>)
    requires
        forall|i: int| 0 <= i < records.len() ==> !is_recipient(#[trigger] records[i], topic),
    ensures
        fanout(records, topic) == Seq::<Subscriber>::empty(),
    decreases records.len(),
{
    if records.len() > 0 {
        let front = records.drop_last();
        assert forall|i: int| 0 <= i < front.len() implies !is_recipient(
            #[trigger] front[i],
            topic,
        ) by {
            assert(front[i] == records[i]);
        }
        lemma_fanout_of_nobody(front, topic);
        assert(!is_recipient(records[records.len() - 1], topic));
    }
}

/// A publish to a topic that nobody is a recipient for makes no attempt:
/// nothing is delivered and nothing fails.
pub proof fn lemma_publish_to_nobody(
    records: Seq<Client>,
    topic: Seq<char>,
    attempts: Seq<Delivery>,
)
    requires
        forall|i: int| 0 <= i < records.len() ==> !is_recipient(#[trigger] records[i], topic),
        covers(attempts, fanout(records, topic)),
    ensures
        attempts == Seq::<Delivery>::empty(),
        delivered_count(attempts) == 0,
        failures(attempts) == Seq::<DeliveryFailure>::empty(),
{
    lemma_fanout_of_nobody(records, topic);
    assert(attempts =~= Seq::<Delivery>::empty());
    lemma_attempts_partition(attempts);
    assert(failures(attempts) =~= Seq::<DeliveryFailure>::empty());
}

/// Some attempt was made on `identity`.
pub open spec fn tried(attempts: Seq<Delivery>, identity: u64) -> bool {
    exists|k: int| 0 <= k < attempts.len() && (#[trigger] attempts[k]).identity == identity
}

/// Some record carries `identity` and is a recipient for `topic`.
pub open spec fn has_recipient(records: Seq<Client>, topic: Seq<char>, identity: u64) -> bool {
    exists|i: int|
        0 <= i < records.len() && is_recipient(#[trigger] records[i], topic) && records[i].identity
            == identity
}

/// A publish tries the recipients for its topic and nobody else: an attempt
/// is made on an identity exactly if its record is connected and subscribed
/// to the topic, and nobody is tried twice.
pub proof fn lemma_publish_tries_exactly_the_recipients(
    records: Seq<Client>,
    topic: Seq<char>,
    attempts: Seq<Delivery>,
)
    requires
        distinct_identities(records),
        covers(attempts, fanout(records, topic)),
    ensures
        forall|identity: u64| #[trigger]
            tried(attempts, identity) <==> has_recipient(records, topic, identity),
        forall|k: int, l: int|
            0 <= k < l < attempts.len() ==> (#[trigger] attempts[k]).identity != (
            #[trigger] attempts[l]).identity,
{
    let list = fanout(records, topic);
    lemma_fanout_exact(records, topic);
    assert forall|identity: u64| #[trigger]
        tried(attempts, identity) <==> has_recipient(records, topic, identity) by {
        if tried(attempts, identity) {
            let k = choose|k: int|
                0 <= k < attempts.len() && (#[trigger] attempts[k]).identity == identity;
            assert(sourced(records, topic, list[k]));
            let i = choose|i: int|
                0 <= i < records.len() && fanout_entry(#[trigger] records[i], topic) == Some(
                    list[k],
                );
            assert(is_recipient(records[i], topic) && records[i].identity == identity);
        }
        if has_recipient(records, topic, identity) {
            let i = choose|i: int|
                0 <= i < records.len() && is_recipient(#[trigger] records[i], topic)
                    && records[i].identity == identity;
            let entry = Subscriber {
                identity: records[i].identity,
                channel: records[i].sender->Some_0,
            };
            assert(list.contains(entry));
            let k = choose|k: int| 0 <= k < list.len() && list[k] == entry;
            assert(attempts[k].identity == identity);
        }
    }
    assert forall|k: int, l: int| 0 <= k < l < attempts.len() implies (
    #[trigger] attempts[k]).identity != (#[trigger] attempts[l]).identity by {
        assert(list[k].identity != list[l].identity);
    }
}

/// Once a client is removed, no publish tries it, whatever the topic.
pub proof fn lemma_publish_skips_the_removed(
    records: Seq<Client>,
    identity: u64,
    topic: Seq<char>,
    attempts: Seq<Delivery>,
)
    requires
        covers(attempts, fanout(without(records, identity), topic)),
    ensures
        forall|k: int| 0 <= k < attempts.len() ==> (#[trigger] attempts[k]).identity != identity,
{
    lemma_removed_is_unreachable(records, identity, topic);
    let list = fanout(without(records, identity), topic);
    assert forall|k: int| 0 <= k < attempts.len() implies (#[trigger] attempts[k]).identity
        != identity by {
        assert(list[k].identity != identity);
    }
}

} // verus!
