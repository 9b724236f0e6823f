//! Histories of a registry, and what holds of every one of them.
//!
//! A history is a sequence of events, each of which is one call on the
//! registry. The laws below speak of the registry that a history leaves
//! behind, of what its enqueues handed off and of the messages that its pulls
//! delivered. They hold of every sequence of events; the one law that counts
//! capabilities asks that each event is made by someone entitled to it.

use crate::mailbox::{Consumer, ConsumerState, Key, Poll};
use crate::registry::{
    backlog, delivery, enqueued, handed_off, owned, pulled, released, well_formed, Mailbox,
};
use std::task::Waker;
use vstd::prelude::*;

verus! {

/// One call on the registry.
pub enum Event<K: Key, M> {
    /// A producer enqueues a message under a key.
    Notify(K, M),
    /// The owner of a key polls for its next message, offering a wake signal.
    Pull(K, Waker),
    /// The owner of a key gives its capability back.
    Release(Consumer<K, M>),
}

impl<K: Key, M> Event<K, M> {
    /// The key that the event is about.
    pub open spec fn key(self) -> K {
        match self {
            Event::Notify(key, _) => key,
            Event::Pull(key, _) => key,
            Event::Release(consumer) => consumer@,
        }
    }

    /// The event can happen in `registry`: anyone may enqueue, and only the
    /// holder of a key's capability pulls with it or gives it back.
    pub open spec fn enabled(self, registry: Map<K, Mailbox<K, M>>) -> bool {
        self is Notify || owned(registry, self.key())
    }

    /// The registry after the event.
    pub open spec fn apply(self, registry: Map<K, Mailbox<K, M>>) -> Map<K, Mailbox<K, M>> {
        match self {
            Event::Notify(key, message) => enqueued(registry, key, message),
            Event::Pull(key, waker) => pulled(registry, key, waker),
            Event::Release(consumer) => released(registry, consumer),
        }
    }
}

/// The registry that `events`, in order, make of `registry`.
pub open spec fn run<K: Key, M>(registry: Map<K, Mailbox<K, M>>, events: Seq<Event<K, M>>) -> Map<
    K,
    Mailbox<K, M>,
>
    decreases events.len(),
{
    if events.len() == 0 {
        registry
    } else {
        events.last().apply(run(registry, events.drop_last()))
    }
}

/// Each of `events` can happen at its point of the history from `registry`.
pub open spec fn admissible<K: Key, M>(
    registry: Map<K, Mailbox<K, M>>,
    events: Seq<Event<K, M>>,
) -> bool
    decreases events.len(),
{
    events.len() == 0 || (admissible(registry, events.drop_last()) && events.last().enabled(
        run(registry, events.drop_last()),
    ))
}

/// The messages that `events` enqueue under `key`, in order.
pub open spec fn notified<K: Key, M>(events: Seq<Event<K, M>>, key: K) -> Seq<M>
    decreases events.len(),
{
    if events.len() == 0 {
        Seq::empty()
    } else {
        let earlier = notified(events.drop_last(), key);
        match events.last() {
            Event::Notify(k, message) => if k == key {
                earlier.push(message)
            } else {
                earlier
            },
            _ => earlier,
        }
    }
}

/// The messages that the pulls among `events` yield for `key`, in order, in
/// the history from `registry`.
pub open spec fn delivered<K: Key, M>(
    registry: Map<K, Mailbox<K, M>>,
    events: Seq<Event<K, M>>,
    key: K,
) -> Seq<M>
    decreases events.len(),
{
    if events.len() == 0 {
        Seq::empty()
    } else {
        let earlier = delivered(registry, events.drop_last(), key);
        match (events.last(), delivery(run(registry, events.drop_last()), key)) {
            (Event::Pull(k, _), Poll::Ready(Ok(message))) => if k == key {
                earlier.push(message)
            } else {
                earlier
            },
            _ => earlier,
        }
    }
}

/// How many enqueues among `events` hand the capability of `key` to their
/// producer, in the history from `registry`.
pub open spec fn handoffs<K: Key, M>(
    registry: Map<K, Mailbox<K, M>>,
    events: Seq<Event<K, M>>,
    key: K,
) -> nat
    decreases events.len(),
{
    if events.len() == 0 {
        0
    } else {
        let earlier = handoffs(registry, events.drop_last(), key);
        match (events.last(), handed_off(run(registry, events.drop_last()), key)) {
            (Event::Notify(k, _), ConsumerState::Free(_)) => if k == key {
                earlier + 1
            } else {
                earlier
            },
            _ => earlier,
        }
    }
}

/// How many of `events` give the capability of `key` back.
pub open spec fn releases<K: Key, M>(events: Seq<Event<K, M>>, key: K) -> nat
    decreases events.len(),
{
    if events.len() == 0 {
        0
    } else {
        let earlier = releases(events.drop_last(), key);
        match events.last() {
            Event::Release(consumer) => if consumer@ == key {
                earlier + 1
            } else {
                earlier
            },
            _ => earlier,
        }
    }
}

/// The capabilities of `key` that are out: one while a consumer holds the
/// key, none otherwise.
pub open spec fn held<K: Key, M>(registry: Map<K, Mailbox<K, M>>, key: K) -> nat {
    if owned(registry, key) {
        1
    } else {
        0
    }
}

/// No event of `events` gives the capability of `key` back.
pub open spec fn keeps<K: Key, M>(events: Seq<Event<K, M>>, key: K) -> bool {
    forall|i: int|
        0 <= i < events.len() ==> !(#[trigger] events[i] is Release && events[i].key() == key)
}

/// Every event leaves a consistent registry consistent.
pub proof fn lemma_apply_preserves_well_formed<K: Key, M>(
    registry: Map<K, Mailbox<K, M>>,
    event: Event<K, M>,
)
    requires
        well_formed(registry),
    ensures
        well_formed(event.apply(registry)),
{
}

/// Consistency is an invariant: every history leaves a consistent registry
/// consistent.
pub proof fn lemma_run_preserves_well_formed<K: Key, M>(
    registry: Map<K, Mailbox<K, M>>,
    events: Seq<Event<K, M>>,
)
    requires
        well_formed(registry),
    ensures
        well_formed(run(registry, events)),
    decreases events.len(),
{
    if events.len() > 0 {
        lemma_run_preserves_well_formed(registry, events.drop_last());
        lemma_apply_preserves_well_formed(run(registry, events.drop_last()), events.last());
    }
}

/// A consistent registry holds exactly the keys that have a backlog or a
/// consumer, or both.
pub proof fn law_live_keys<K: Key, M>(registry: Map<K, Mailbox<K, M>>, key: K)
    requires
        well_formed(registry),
    ensures
        registry.contains_key(key) <==> backlog(registry, key).len() > 0 || owned(registry, key),
{
}

/// At most one consumer holds a key. In a history whose pulls and releases
/// are made by holders only, the capabilities of a key that were handed off
/// and not given back number one while the key is owned and none while it is
/// not; so a capability is handed off only when none is out.
pub proof fn law_one_owner_per_key<K: Key, M>(
    registry: Map<K, Mailbox<K, M>>,
    events: Seq<Event<K, M>>,
    key: K,
)
    requires
        admissible(registry, events),
    ensures
        held(registry, key) + handoffs(registry, events, key) == releases(events, key) + held(
            run(registry, events),
            key,
        ),
        held(run(registry, events), key) <= 1,
    decreases events.len(),
{
    if events.len() > 0 {
        law_one_owner_per_key(registry, events.drop_last(), key);
    }
}

/// First in, first out, per key: at every point of a history, the messages
/// delivered for a key so far, followed by those still queued under it, are
/// the messages that were queued at the start followed by those enqueued
/// under the key since, in the order of their enqueues. Events on other keys
/// do not matter, and neither do releases and handoffs in between.
pub proof fn law_fifo<K: Key, M>(
    registry: Map<K, Mailbox<K, M>>,
    events: Seq<Event<K, M>>,
    key: K,
)
    ensures
        delivered(registry, events, key) + backlog(run(registry, events), key) == backlog(
            registry,
            key,
        ) + notified(events, key),
    decreases events.len(),
{
    if events.len() == 0 {
        assert(Seq::<M>::empty() + backlog(registry, key) =~= backlog(registry, key)
            + Seq::<M>::empty());
    } else {
        let earlier = events.drop_last();
        let before = run(registry, earlier);
        law_fifo(registry, earlier, key);
        let after = events.last().apply(before);
        let sent = delivered(registry, earlier, key);
        let queue = backlog(before, key);
        assert(sent + queue == backlog(registry, key) + notified(earlier, key));
        match events.last() {
            Event::Notify(k, message) => {
                if k == key {
                    assert(sent + queue.push(message) =~= (sent + queue).push(message));
                    assert((backlog(registry, key) + notified(earlier, key)).push(message)
                        =~= backlog(registry, key) + notified(earlier, key).push(message));
                }
            },
            Event::Pull(k, waker) => {
                if k == key {
                    if queue.len() > 0 {
                        assert(sent.push(queue.first()) + queue.drop_first() =~= sent + queue);
                    } else {
                        assert(backlog(after, key) =~= queue);
                    }
                }
            },
            Event::Release(consumer) => {
                if consumer@ == key {
                    assert(backlog(after, key) =~= queue);
                }
            },
        }
    }
}

/// In a history that starts with an empty registry, the messages delivered
/// for a key are the first of those enqueued under it, in the order of their
/// enqueues: none is skipped, repeated or overtaken. The rest are queued
/// under the key, in that order too.
pub proof fn law_delivered_in_order<K: Key, M>(events: Seq<Event<K, M>>, key: K)
    ensures
        ({
            let fresh = Map::<K, Mailbox<K, M>>::empty();
            let k = delivered(fresh, events, key).len() as int;
            &&& k <= notified(events, key).len()
            &&& delivered(fresh, events, key) == notified(events, key).take(k)
            &&& backlog(run(fresh, events), key) == notified(events, key).skip(k)
        }),
{
    let fresh = Map::<K, Mailbox<K, M>>::empty();
    let sent = delivered(fresh, events, key);
    let queued = backlog(run(fresh, events), key);
    law_fifo(fresh, events, key);
    assert(Seq::<M>::empty() + notified(events, key) =~= notified(events, key));
    assert((sent + queued).len() == sent.len() + queued.len());
    assert((sent + queued).take(sent.len() as int) =~= sent);
    assert((sent + queued).skip(sent.len() as int) =~= queued);
}

/// The first enqueue under a key that the registry does not hold hands the
/// key's capability to the producer, and leaves the key owned with that one
/// message queued.
pub proof fn law_first_notify_hands_off<K: Key, M>(
    registry: Map<K, Mailbox<K, M>>,
    key: K,
    message: M,
)
    requires
        !registry.contains_key(key),
    ensures
        handed_off(registry, key) == ConsumerState::Free(Consumer::<K, M>::bound_to(key)),
        owned(enqueued(registry, key, message), key),
        backlog(enqueued(registry, key, message), key) == seq![message],
{
    assert(Seq::<M>::empty().push(message) =~= seq![message]);
}

/// While the capability of a key is held, every enqueue under that key
/// reports `Taken`: from a registry in which the key is owned, at each point
/// of a history that never gives the key's capability back, the key is still
/// owned and an enqueue under it hands nothing off. What happens to other
/// keys in between, and how many messages the owner has pulled, does not
/// matter.
pub proof fn law_taken_while_held<K: Key, M>(
    registry: Map<K, Mailbox<K, M>>,
    events: Seq<Event<K, M>>,
    key: K,
)
    requires
        owned(registry, key),
        keeps(events, key),
    ensures
        forall|n: int|
            0 <= n <= events.len() ==> {
                let reached = run(registry, #[trigger] events.take(n));
                owned(reached, key) && handed_off(reached, key) == ConsumerState::<K, M>::Taken
            },
{
    assert forall|n: int| 0 <= n <= events.len() implies {
        let reached = run(registry, #[trigger] events.take(n));
        owned(reached, key) && handed_off(reached, key) == ConsumerState::<K, M>::Taken
    } by {
        assert(keeps(events.take(n), key)) by {
            assert forall|i: int| 0 <= i < events.take(n).len() implies !(
            #[trigger] events.take(n)[i] is Release && events.take(n)[i].key() == key) by {
                assert(events.take(n)[i] == events[i]);
            }
        }
        lemma_held_to_the_end(registry, events.take(n), key);
    }
}

/// A key that is owned stays owned to the end of a history that never gives
/// its capability back.
proof fn lemma_held_to_the_end<K: Key, M>(
    registry: Map<K, Mailbox<K, M>>,
    events: Seq<Event<K, M>>,
    key: K,
)
    requires
        owned(registry, key),
        keeps(events, key),
    ensures
        owned(run(registry, events), key),
    decreases events.len(),
{
    if events.len() > 0 {
        let earlier = events.drop_last();
        assert(keeps(earlier, key)) by {
            assert forall|i: int| 0 <= i < earlier.len() implies !(#[trigger] earlier[i] is Release
                && earlier[i].key() == key) by {
                assert(earlier[i] == events[i]);
            }
        }
        lemma_held_to_the_end(registry, earlier, key);
        assert(events.last() == events[events.len() - 1]);
    }
}

/// Nothing is lost when a consumer stops early. Let a history from an empty
/// registry enqueue `n` messages under a key and deliver `k < n` of them, and
/// let the key's capability then be given back. The key keeps its entry, with
/// the `n - k` messages that were not delivered in their order; the next
/// enqueue under the key hands the same capability off again and queues its
/// message behind them.
pub proof fn law_release_keeps_backlog<K: Key, M>(
    events: Seq<Event<K, M>>,
    consumer: Consumer<K, M>,
    message: M,
)
    requires
        delivered(Map::<K, Mailbox<K, M>>::empty(), events, consumer@).len() < notified(
            events,
            consumer@,
        ).len(),
    ensures
        ({
            let key = consumer@;
            let k = delivered(Map::<K, Mailbox<K, M>>::empty(), events, key).len() as int;
            let parked = released(run(Map::<K, Mailbox<K, M>>::empty(), events), consumer);
            &&& parked.contains_key(key)
            &&& backlog(parked, key) == notified(events, key).skip(k)
            &&& handed_off(parked, key) == ConsumerState::Free(consumer)
            &&& backlog(enqueued(parked, key, message), key) == notified(events, key).skip(
                k,
            ).push(message)
        }),
{
    law_delivered_in_order(events, consumer@);
}

/// A key whose queue is drained is collected when its capability is given
/// back: the registry no longer holds the key, so the next enqueue under it
/// starts over, with a new capability handed off and a queue of that one
/// message. It never reports `Taken`.
pub proof fn law_release_collects_drained_key<K: Key, M>(
    registry: Map<K, Mailbox<K, M>>,
    consumer: Consumer<K, M>,
    message: M,
)
    requires
        backlog(registry, consumer@).len() == 0,
    ensures
        ({
            let key = consumer@;
            let collected = released(registry, consumer);
            &&& collected == registry.remove(key)
            &&& !collected.contains_key(key)
            &&& handed_off(collected, key) == ConsumerState::Free(Consumer::<K, M>::bound_to(key))
            &&& owned(enqueued(collected, key, message), key)
            &&& backlog(enqueued(collected, key, message), key) == seq![message]
        }),
{
    assert(Seq::<M>::empty().push(message) =~= seq![message]);
}

} // verus!
