//! The entry point for producers.

use crate::mailbox::{ConsumerState, Key, Storage};
use crate::registry::{enqueued, handed_off, Mailbox};
use vstd::prelude::*;
use vstd::std_specs::hash::obeys_key_model;

verus! {

/// The facade over a registry: it takes a message with its key and tells the
/// producer whether a consumer has to be started for that key.
pub struct Dispatcher<K: Key, M> {
    storage: Storage<K, M>,
}

impl<K: Key, M> Dispatcher<K, M> {
    /// The registry behind the facade.
    pub closed spec fn spec_storage(&self) -> &Storage<K, M> {
        &self.storage
    }

    /// A dispatcher over an empty registry.
    pub fn new() -> (dispatcher: Self)
        requires
            obeys_key_model::<K>(),
        ensures
            dispatcher.storage().wf(),
            dispatcher.storage()@ == Map::<K, Mailbox<K, M>>::empty(),
    {
        Dispatcher { storage: Storage::new() }
    }

    /// The registry, to look at.
    #[verifier::when_used_as_spec(spec_storage)]
    pub fn storage(&self) -> (storage: &Storage<K, M>)
        ensures
            storage == self.spec_storage(),
    {
        &self.storage
    }

    /// The registry, for the consumers to pull from and to give their
    /// capabilities back to.
    pub fn storage_mut(&mut self) -> (storage: &mut Storage<K, M>)
        ensures
            *storage == *old(self).storage(),
            *final(self).storage() == *final(storage),
    {
        &mut self.storage
    }

    /// Enqueues `message` under `key`. On `Free` the caller owns the key and
    /// starts a consumer with the capability; on `Taken` there is nothing to
    /// do, the key's consumer will see the message.
    pub fn dispatch(&mut self, key: K, message: M) -> (state: ConsumerState<K, M>)
        requires
            old(self).storage().wf(),
        ensures
            final(self).storage().wf(),
            final(self).storage()@ == enqueued(old(self).storage()@, key, message),
            state == handed_off(old(self).storage()@, key),
            state matches ConsumerState::Free(consumer) ==> consumer@ == key,
    {
        self.storage.add(key, message)
    }
}

} // verus!
