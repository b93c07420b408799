use vstd::prelude::*;

use crate::entity::ChannelID;

verus! {

/// The key a waiter registers under: one channel's comments, or the single
/// "any channel" topic that channel-creation events publish to.
#[derive(Clone, Copy, Debug, PartialEq, Eq, Hash, Structural)]
pub enum Topic {
    AnyChannel,
    Channel(ChannelID),
}

/// Holds of the registry entries that belong to topic `t`.
pub open spec fn on_topic(t: Topic) -> spec_fn((Topic, u64)) -> bool {
    |e: (Topic, u64)| e.0 == t
}

/// Holds of the registry entries that belong to any other topic than `t`.
pub open spec fn off_topic(t: Topic) -> spec_fn((Topic, u64)) -> bool {
    |e: (Topic, u64)| e.0 != t
}

/// Projects a registry entry to its waiter handle.
pub open spec fn entry_waiter() -> spec_fn((Topic, u64)) -> u64 {
    |e: (Topic, u64)| e.1
}

/// The waiters registered on `t`, in registration order.
pub open spec fn waiters_of(entries: Seq<(Topic, u64)>, t: Topic) -> Seq<u64> {
    entries.filter(on_topic(t)).map_values(entry_waiter())
}

/// Per-topic lists of single-use waiter handles. A write publishes to a
/// topic, which wakes all waiters currently registered on it exactly once
/// and clears them; waiters of other topics are untouched.
pub struct SubscriptionRegistry {
    /// The next unused waiter handle.
    pub next_waiter: u64,
    /// All registered waiters, in registration order.
    pub entries: Vec<(Topic, u64)>,
}

pub open spec fn can_subscribe(r: SubscriptionRegistry) -> bool {
    r.next_waiter < u64::MAX
}

proof fn lemma_filter_push<A>(s: Seq<A>, x: A, p: spec_fn(A) -> bool)
    ensures
        s.push(x).filter(p) == if p(x) {
            s.filter(p).push(x)
        } else {
            s.filter(p)
        },
{
    reveal(Seq::filter);
    assert(s.push(x).drop_last() =~= s);
    assert(s.push(x).last() == x);
}

impl SubscriptionRegistry {
    pub fn new() -> (r: SubscriptionRegistry)
        ensures
            r.next_waiter == 0,
            r.entries@ =~= Seq::<(Topic, u64)>::empty(),
    {
        SubscriptionRegistry { next_waiter: 0, entries: Vec::new() }
    }

    /// Registers a new single-use waiter on `topic` and returns its handle;
    /// the caller blocks on the handle until a publish on `topic` delivers
    /// to it.
    pub fn subscribe(&mut self, topic: Topic) -> (w: u64)
        requires
            can_subscribe(*old(self)),
        ensures
            w == old(self).next_waiter,
            final(self).next_waiter == old(self).next_waiter + 1,
            final(self).entries@ == old(self).entries@.push((topic, w)),
            waiters_of(final(self).entries@, topic) == waiters_of(old(self).entries@, topic).push(
                w,
            ),
            forall|t2: Topic|
                t2 != topic ==> waiters_of(final(self).entries@, t2) == waiters_of(
                    old(self).entries@,
                    t2,
                ),
    {
        let w = self.next_waiter;
        self.next_waiter = self.next_waiter + 1;
        self.entries.push((topic, w));
        proof {
            let oldents = old(self).entries@;
            lemma_filter_push(oldents, (topic, w), on_topic(topic));
            assert(on_topic(topic)((topic, w)));
            assert(waiters_of(self.entries@, topic) =~= waiters_of(oldents, topic).push(w));
            assert forall|t2: Topic| t2 != topic implies waiters_of(self.entries@, t2)
                == waiters_of(oldents, t2) by {
                lemma_filter_push(oldents, (topic, w), on_topic(t2));
                assert(!on_topic(t2)((topic, w)));
                assert(waiters_of(self.entries@, t2) =~= waiters_of(oldents, t2));
            }
        }
        w
    }

    /// Delivers to every waiter currently registered on `topic`: returns
    /// their handles in registration order and clears them, leaving waiters
    /// of all other topics registered in their order.
    pub fn publish(&mut self, topic: Topic) -> (woken: Vec<u64>)
        ensures
            woken@ == waiters_of(old(self).entries@, topic),
            final(self).entries@ == old(self).entries@.filter(off_topic(topic)),
            final(self).next_waiter == old(self).next_waiter,
    {
        let mut woken: Vec<u64> = Vec::new();
        let mut kept: Vec<(Topic, u64)> = Vec::new();
        let n = self.entries.len();
        for i in 0..n
            invariant
                n == self.entries@.len(),
                woken@ == waiters_of(self.entries@.take(i as int), topic),
                kept@ == self.entries@.take(i as int).filter(off_topic(topic)),
        {
            let e = self.entries[i];
            proof {
                let prefix = self.entries@.take(i as int);
                lemma_filter_push(prefix, self.entries@[i as int], on_topic(topic));
                lemma_filter_push(prefix, self.entries@[i as int], off_topic(topic));
                assert(self.entries@.take(i + 1) =~= prefix.push(self.entries@[i as int]));
            }
            if matches_topic(&e.0, &topic) {
                woken.push(e.1);
                proof {
                    let prefix = self.entries@.take(i as int);
                    assert(on_topic(topic)(self.entries@[i as int]));
                    assert(!off_topic(topic)(self.entries@[i as int]));
                    assert(waiters_of(self.entries@.take(i + 1), topic) =~= waiters_of(
                        prefix,
                        topic,
                    ).push(self.entries@[i as int].1));
                }
            } else {
                kept.push(e);
                proof {
                    let prefix = self.entries@.take(i as int);
                    assert(!on_topic(topic)(self.entries@[i as int]));
                    assert(off_topic(topic)(self.entries@[i as int]));
                    assert(waiters_of(self.entries@.take(i + 1), topic) =~= waiters_of(
                        prefix,
                        topic,
                    ));
                }
            }
        }
        proof {
            assert(self.entries@.take(n as int) =~= self.entries@);
        }
        self.entries = kept;
        woken
    }
}

fn matches_topic(a: &Topic, b: &Topic) -> (r: bool)
    ensures
        r == (*a == *b),
{
    match (a, b) {
        (Topic::AnyChannel, Topic::AnyChannel) => true,
        (Topic::Channel(x), Topic::Channel(y)) => x.0 == y.0,
        _ => false,
    }
}

/// The long-poll wake law: a waiter registered on topic `t` is delivered by
/// the next publish on `t` — it stands in that publish's wake list — while a
/// publish on any other topic neither delivers it nor unregisters it, and
/// after the publish on `t` the waiter is no longer registered (delivery is
/// at most once).
pub proof fn lemma_long_poll_wake(entries: Seq<(Topic, u64)>, t: Topic, other: Topic, w: u64)
    requires
        other != t,
    ensures
        waiters_of(entries.push((t, w)), t).contains(w),
        waiters_of(entries.push((t, w)), other) == waiters_of(entries, other),
        entries.push((t, w)).filter(off_topic(other)).contains((t, w)),
        !entries.push((t, w)).filter(off_topic(t)).contains((t, w)),
{
    let ents = entries.push((t, w));
    lemma_filter_push(entries, (t, w), on_topic(t));
    assert(on_topic(t)((t, w)));
    assert(waiters_of(ents, t) =~= waiters_of(entries, t).push(w));
    assert(waiters_of(ents, t).last() == w);
    lemma_filter_push(entries, (t, w), on_topic(other));
    assert(!on_topic(other)((t, w)));
    assert(waiters_of(ents, other) =~= waiters_of(entries, other));
    lemma_filter_push(entries, (t, w), off_topic(other));
    assert(off_topic(other)((t, w)));
    assert(ents.filter(off_topic(other)).last() == (t, w));
    lemma_filter_push(entries, (t, w), off_topic(t));
    assert(!off_topic(t)((t, w)));
    assert(!ents.filter(off_topic(t)).contains((t, w))) by {
        let kept = entries.filter(off_topic(t));
        if kept.contains((t, w)) {
            let i = choose|i: int| 0 <= i < kept.len() && kept[i] == (t, w);
            entries.lemma_filter_pred(off_topic(t), i);
        }
    }
}

} // verus!
