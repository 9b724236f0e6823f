//! The mathematical model of the registry: a map from each live key to its
//! mailbox, and the transitions that `notify`, `pull` and `release` make on it.

use crate::mailbox::{
    AwaitingError, Consumer, ConsumerState, ExecutionState, Key, MessageAwaitingState, Poll,
};
use std::task::Waker;
use vstd::prelude::*;

verus! {

/// What the registry holds for one key: the items that wait to be pulled,
/// oldest first, and who may pull them.
pub struct Mailbox<K: Key, M> {
    pub queue: Seq<M>,
    pub execution_state: ExecutionState<K, M>,
}

/// The `key`'s queue, empty where the registry has no entry for it.
pub open spec fn backlog<K: Key, M>(registry: Map<K, Mailbox<K, M>>, key: K) -> Seq<M> {
    if registry.contains_key(key) {
        registry[key].queue
    } else {
        Seq::empty()
    }
}

/// The `key` has an entry whose capability is held by some consumer.
pub open spec fn owned<K: Key, M>(registry: Map<K, Mailbox<K, M>>, key: K) -> bool {
    registry.contains_key(key) && registry[key].execution_state is Running
}

/// An entry is consistent: a parked capability is the one of this key and is
/// parked only over a backlog, and a consumer is suspended only on an empty queue.
pub open spec fn mailbox_wf<K: Key, M>(key: K, mailbox: Mailbox<K, M>) -> bool {
    match mailbox.execution_state {
        ExecutionState::NotRunning(consumer) => consumer@ == key && mailbox.queue.len() > 0,
        ExecutionState::Running(MessageAwaitingState::Waiting(_)) => mailbox.queue.len() == 0,
        ExecutionState::Running(MessageAwaitingState::NotWaiting) => true,
    }
}

/// Every entry of the registry is consistent.
pub open spec fn well_formed<K: Key, M>(registry: Map<K, Mailbox<K, M>>) -> bool {
    forall|key: K| #[trigger] registry.contains_key(key) ==> mailbox_wf(key, registry[key])
}

/// The registry after `message` was enqueued under `key`: the message joins
/// the back of the key's queue and the key is claimed for a running consumer.
pub open spec fn enqueued<K: Key, M>(
    registry: Map<K, Mailbox<K, M>>,
    key: K,
    message: M,
) -> Map<K, Mailbox<K, M>> {
    registry.insert(
        key,
        Mailbox {
            queue: backlog(registry, key).push(message),
            execution_state: ExecutionState::Running(MessageAwaitingState::NotWaiting),
        },
    )
}

/// What an enqueue under `key` reports: the capability of the key where no
/// consumer holds it (a fresh one for an absent key, the parked one
/// otherwise), and `Taken` where one does.
pub open spec fn handed_off<K: Key, M>(registry: Map<K, Mailbox<K, M>>, key: K) -> ConsumerState<
    K,
    M,
> {
    if registry.contains_key(key) {
        match registry[key].execution_state {
            ExecutionState::NotRunning(consumer) => ConsumerState::Free(consumer),
            ExecutionState::Running(_) => ConsumerState::Taken,
        }
    } else {
        ConsumerState::Free(Consumer::bound_to(key))
    }
}

/// The registry after the owner of `key` pulled: the head of the queue is
/// gone, or, on an empty queue, the owner is suspended on `waker`.
pub open spec fn pulled<K: Key, M>(
    registry: Map<K, Mailbox<K, M>>,
    key: K,
    waker: Waker,
) -> Map<K, Mailbox<K, M>> {
    if backlog(registry, key).len() > 0 {
        registry.insert(
            key,
            Mailbox {
                queue: registry[key].queue.drop_first(),
                execution_state: ExecutionState::Running(MessageAwaitingState::NotWaiting),
            },
        )
    } else {
        registry.insert(
            key,
            Mailbox {
                queue: Seq::empty(),
                execution_state: ExecutionState::Running(MessageAwaitingState::Waiting(waker)),
            },
        )
    }
}

/// What a pull by the owner of `key` yields: the head of the queue, or
/// nothing yet on an empty queue.
pub open spec fn delivery<K: Key, M>(registry: Map<K, Mailbox<K, M>>, key: K) -> Poll<
    Result<M, AwaitingError>,
> {
    if backlog(registry, key).len() > 0 {
        Poll::Ready(Ok(registry[key].queue.first()))
    } else {
        Poll::Pending
    }
}

/// The registry after `consumer` was given back: parked over its backlog, or,
/// with nothing left to pull, the key's entry is gone.
pub open spec fn released<K: Key, M>(
    registry: Map<K, Mailbox<K, M>>,
    consumer: Consumer<K, M>,
) -> Map<K, Mailbox<K, M>> {
    if backlog(registry, consumer@).len() > 0 {
        registry.insert(
            consumer@,
            Mailbox {
                queue: registry[consumer@].queue,
                execution_state: ExecutionState::NotRunning(consumer),
            },
        )
    } else {
        registry.remove(consumer@)
    }
}

} // verus!
