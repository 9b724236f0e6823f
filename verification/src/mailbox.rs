//! The registry and the capabilities it hands out.

use crate::registry::{
    delivery, enqueued, handed_off, owned, pulled, released, well_formed, Mailbox,
};
use std::collections::hash_map::Entry;
use std::collections::HashMap;
use std::collections::VecDeque;
use std::hash::Hash;
use std::marker::PhantomData;
use std::task::Waker;
use vstd::pervasive::unreached;
use vstd::prelude::*;
use vstd::std_specs::hash::obeys_key_model;

verus! {

/// What identifies an independent, ordered stream of messages.
pub trait Key: Eq + Hash + Copy {

}

impl<T: Eq + Hash + Copy> Key for T {

}

/// The exclusive right to pull the messages queued under one key.
///
/// A registry creates it with the key's entry and either parks it in that
/// entry or lends it to a consumer; it cannot be copied or made elsewhere.
/// Whoever holds it gives it back with [`Consumer::release`] when done.
#[must_use]
pub struct Consumer<K: Key, M> {
    key: K,
    marker: PhantomData<M>,
}

impl<K: Key, M> View for Consumer<K, M> {
    type V = K;

    closed spec fn view(&self) -> K {
        self.key
    }
}

impl<K: Key, M> Consumer<K, M> {
    /// The capability of `key`.
    pub closed spec fn bound_to(key: K) -> Self {
        Consumer { key, marker: PhantomData }
    }

    /// The capability of a key pulls from that key's queue.
    pub proof fn lemma_bound_to(key: K)
        ensures
            Self::bound_to(key)@ == key,
    {
    }

    /// A capability is told from another by its key alone.
    pub proof fn lemma_one_per_key(self)
        ensures
            self == Self::bound_to(self@),
    {
    }

    /// The key whose queue this capability pulls from.
    pub fn key(&self) -> (key: K)
        ensures
            key == self@,
    {
        self.key
    }
}

/// Whether the consumer that holds a key's capability is suspended.
pub enum MessageAwaitingState {
    /// Suspended on an empty queue, to be resumed through this signal.
    Waiting(Waker),
    NotWaiting,
}

/// Who may pull from a key's queue.
pub enum ExecutionState<K: Key, M> {
    /// No consumer: the capability is parked here for the next one.
    NotRunning(Consumer<K, M>),
    /// A consumer holds the capability.
    Running(MessageAwaitingState),
}

/// What an enqueue reports to the producer.
pub enum ConsumerState<K: Key, M> {
    /// No consumer held the key: here is its capability, start one.
    Free(Consumer<K, M>),
    /// A consumer holds the key and will see the message.
    Taken,
}

/// Puts `new_state` in place of `*old_state` and returns what was there.
pub fn swap<T>(old_state: &mut T, new_state: T) -> (previous: T)
    ensures
        *final(old_state) == new_state,
        previous == *old(old_state),
{
    let mut new_state = new_state;
    std::mem::swap(&mut new_state, old_state);
    new_state
}

/// The entry of one key.
struct Context<K: Key, M> {
    queue: VecDeque<M>,
    execution_state: ExecutionState<K, M>,
}

impl<K: Key, M> View for Context<K, M> {
    type V = Mailbox<K, M>;

    closed spec fn view(&self) -> Mailbox<K, M> {
        Mailbox { queue: self.queue@, execution_state: self.execution_state }
    }
}

/// The registry: the entry of every key that has a backlog or a consumer.
pub struct Storage<K: Key, M> {
    contexts: HashMap<K, Context<K, M>>,
}

impl<K: Key, M> View for Storage<K, M> {
    type V = Map<K, Mailbox<K, M>>;

    closed spec fn view(&self) -> Map<K, Mailbox<K, M>> {
        self.contexts@.map_values(|context: Context<K, M>| context@)
    }
}

impl<K: Key, M> Storage<K, M> {
    /// The keys obey the hash-map model and every entry is consistent.
    pub open spec fn wf(&self) -> bool {
        obeys_key_model::<K>() && well_formed(self@)
    }

    /// A registry without entries.
    pub fn new() -> (storage: Self)
        requires
            obeys_key_model::<K>(),
        ensures
            storage.wf(),
            storage@ == Map::<K, Mailbox<K, M>>::empty(),
    {
        let storage = Storage { contexts: HashMap::new() };
        assert(storage@ =~= Map::<K, Mailbox<K, M>>::empty());
        storage
    }

    /// Enqueues `message` under `key` and claims the key for a consumer.
    ///
    /// Returns the key's capability where no consumer held it. Where one does
    /// and is suspended, its wake signal is taken out of the entry and
    /// invoked; what the signal then does is the runtime's business and no
    /// clause speaks of it.
    pub fn add(&mut self, key: K, message: M) -> (state: ConsumerState<K, M>)
        requires
            old(self).wf(),
        ensures
            final(self).wf(),
            final(self)@ == enqueued(old(self)@, key, message),
            state == handed_off(old(self)@, key),
            state matches ConsumerState::Free(consumer) ==> consumer@ == key,
    {
        let context = self.contexts.entry(key).or_insert(
            Context {
                queue: VecDeque::new(),
                execution_state: ExecutionState::NotRunning(
                    Consumer { key, marker: PhantomData },
                ),
            },
        );
        context.queue.push_back(message);
        let captured = swap(
            &mut context.execution_state,
            ExecutionState::Running(MessageAwaitingState::NotWaiting),
        );
        assert(self@ =~= enqueued(old(self)@, key, message));
        match captured {
            ExecutionState::Running(message_awaiting_state) => {
                match message_awaiting_state {
                    MessageAwaitingState::NotWaiting => (),
                    MessageAwaitingState::Waiting(waker) => waker.wake(),
                }
                ConsumerState::Taken
            },
            ExecutionState::NotRunning(consumer) => ConsumerState::Free(consumer),
        }
    }

    /// Whether the registry has no entry at all.
    pub fn is_empty(&self) -> (empty: bool)
        ensures
            empty <==> forall|key: K| !self@.contains_key(key),
    {
        let empty = self.contexts.is_empty();
        assert(self@.dom() =~= self.contexts@.dom());
        empty
    }

    /// Whether `consumer` holds the capability of a live entry, which is what
    /// pulling with it and giving it back ask for.
    pub fn owns(&self, consumer: &Consumer<K, M>) -> (held: bool)
        requires
            self.wf(),
        ensures
            held == owned(self@, consumer@),
    {
        match self.contexts.get(&consumer.key) {
            Some(context) => match context.execution_state {
                ExecutionState::Running(_) => true,
                ExecutionState::NotRunning(_) => false,
            },
            None => false,
        }
    }
}

/// A pull did not yield a message and never will.
#[derive(Debug, PartialEq, Eq)]
pub enum AwaitingError {
    /// The registry is gone.
    DispatcherWasDropped,
}

/// The outcome of one attempt to pull.
#[derive(Debug, PartialEq, Eq)]
pub enum Poll<T> {
    Ready(T),
    /// Nothing yet: the consumer is suspended until its signal is invoked.
    Pending,
}

/// One pull in progress on a capability.
pub struct Waiter<'a, K: Key, M> {
    consumer: &'a Consumer<K, M>,
}

impl<'a, K: Key, M> View for Waiter<'a, K, M> {
    type V = K;

    closed spec fn view(&self) -> K {
        self.consumer@
    }
}

impl<K: Key, M> Consumer<K, M> {
    /// Starts a pull. The capability stays borrowed until the pull is over,
    /// so no second pull can be outstanding on it.
    pub fn take(&mut self) -> (waiter: Waiter<'_, K, M>)
        ensures
            waiter@ == old(self)@,
            *final(self) == *old(self),
    {
        Waiter { consumer: self }
    }

    /// Gives the capability back when its consumer is done, cancelled or
    /// failed. With a backlog it is parked in its entry for the next
    /// consumer; with none the entry is removed. Where the registry is gone
    /// (`None`) there is nothing to do.
    pub fn release(self, contexts: Option<&mut Storage<K, M>>)
        requires
            contexts matches Some(storage) ==> storage.wf() && owned(storage@, self@),
        ensures
            contexts matches Some(storage) ==> final(storage).wf() && final(storage)@ == released(
                storage@,
                self,
            ),
    {
        if let Some(storage) = contexts {
            let ghost before = storage@;
            match storage.contexts.entry(self.key) {
                Entry::Occupied(mut occupied) => {
                    if occupied.get().queue.len() == 0 {
                        occupied.remove();
                    } else {
                        occupied.get_mut().execution_state = ExecutionState::NotRunning(self);
                    }
                },
                Entry::Vacant(_) => unreached(),
            }
            assert(storage@ =~= released(before, self));
        }
    }
}

impl<'a, K: Key, M> Waiter<'a, K, M> {
    /// Makes one attempt to pull the next message of the key.
    ///
    /// `contexts` is the registry, or `None` where it is gone. With a message
    /// queued the oldest one is returned. On an empty queue the consumer is
    /// suspended: `waker` is left in the entry, to be invoked by the next
    /// enqueue under the key, and the caller polls again after that.
    pub fn poll(&mut self, contexts: Option<&mut Storage<K, M>>, waker: Waker) -> (outcome: Poll<
        Result<M, AwaitingError>,
    >)
        requires
            contexts matches Some(storage) ==> storage.wf() && owned(storage@, old(self)@),
        ensures
            *final(self) == *old(self),
            match contexts {
                Some(storage) => {
                    &&& final(storage).wf()
                    &&& final(storage)@ == pulled(storage@, old(self)@, waker)
                    &&& outcome == delivery(storage@, old(self)@)
                },
                None => outcome == Poll::<Result<M, AwaitingError>>::Ready(
                    Err(AwaitingError::DispatcherWasDropped),
                ),
            },
    {
        let Some(storage) = contexts else {
            return Poll::Ready(Err(AwaitingError::DispatcherWasDropped));
        };
        let ghost before = storage@;
        match storage.contexts.entry(self.consumer.key) {
            Entry::Occupied(occupied) => {
                let context = occupied.into_mut();
                if let Some(message) = context.queue.pop_front() {
                    context.execution_state = ExecutionState::Running(
                        MessageAwaitingState::NotWaiting,
                    );
                    assert(storage@ =~= pulled(before, self@, waker));
                    Poll::Ready(Ok(message))
                } else {
                    assert(context.queue@ =~= Seq::empty());
                    context.execution_state = ExecutionState::Running(
                        MessageAwaitingState::Waiting(waker),
                    );
                    assert(storage@ =~= pulled(before, self@, waker));
                    Poll::Pending
                }
            },
            Entry::Vacant(_) => unreached(),
        }
    }
}

} // verus!
