//! A per-key mailbox: items are routed into ordered per-key queues, and for
//! each key at most one consumer holds the right to pull from its queue.
//!
//! This crate is the state machine that runs under the registry's lock. The
//! caller supplies the lock, the task that owns a capability, and the moment
//! at which a capability is given back.

pub mod dispatcher;
pub mod history;
pub mod mailbox;
pub mod registry;
pub mod signal;

pub use dispatcher::Dispatcher;
pub use mailbox::{
    swap, AwaitingError, Consumer, ConsumerState, ExecutionState, Key, MessageAwaitingState, Poll,
    Storage, Waiter,
};
