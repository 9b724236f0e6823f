use keyed_mailbox::{swap, Consumer, ConsumerState, ExecutionState, MessageAwaitingState, Poll, Storage};
use std::sync::atomic::{AtomicUsize, Ordering};
use std::sync::Arc;
use std::task::{Wake, Waker};

struct Counter {
    wakes: AtomicUsize,
}

impl Wake for Counter {
    fn wake(self: Arc<Self>) {
        self.wakes.fetch_add(1, Ordering::SeqCst);
    }
}

fn counter() -> Arc<Counter> {
    Arc::new(Counter { wakes: AtomicUsize::new(0) })
}

fn wakes(counter: &Arc<Counter>) -> usize {
    counter.wakes.load(Ordering::SeqCst)
}

fn handed(state: ConsumerState<u64, &'static str>) -> Consumer<u64, &'static str> {
    match state {
        ConsumerState::Free(consumer) => consumer,
        ConsumerState::Taken => unreachable!(),
    }
}

#[test]
fn enqueue_wakes_a_suspended_consumer_once() {
    let mut storage = Storage::new();
    let signal = counter();
    let mut consumer = handed(storage.add(1, "a"));
    assert_eq!(
        consumer.take().poll(Some(&mut storage), Waker::from(signal.clone())),
        Poll::Ready(Ok("a"))
    );
    assert_eq!(wakes(&signal), 0);
    assert_eq!(
        consumer.take().poll(Some(&mut storage), Waker::from(signal.clone())),
        Poll::Pending
    );
    assert_eq!(wakes(&signal), 0);

    assert!(matches!(storage.add(1, "b"), ConsumerState::Taken));
    assert_eq!(wakes(&signal), 1);
    assert!(matches!(storage.add(1, "c"), ConsumerState::Taken));
    assert_eq!(wakes(&signal), 1);

    assert_eq!(
        consumer.take().poll(Some(&mut storage), Waker::from(signal.clone())),
        Poll::Ready(Ok("b"))
    );
    assert_eq!(
        consumer.take().poll(Some(&mut storage), Waker::from(signal.clone())),
        Poll::Ready(Ok("c"))
    );
    assert_eq!(wakes(&signal), 1);
    consumer.release(Some(&mut storage));
    assert_eq!(wakes(&signal), 1);
    assert!(storage.is_empty());
}

#[test]
fn enqueue_wakes_only_the_consumer_of_its_key() {
    let mut storage = Storage::new();
    let first = counter();
    let second = counter();
    let mut one = handed(storage.add(1, "a"));
    let mut two = handed(storage.add(2, "x"));
    assert_eq!(
        one.take().poll(Some(&mut storage), Waker::from(first.clone())),
        Poll::Ready(Ok("a"))
    );
    assert_eq!(
        two.take().poll(Some(&mut storage), Waker::from(second.clone())),
        Poll::Ready(Ok("x"))
    );
    assert_eq!(
        one.take().poll(Some(&mut storage), Waker::from(first.clone())),
        Poll::Pending
    );
    assert_eq!(
        two.take().poll(Some(&mut storage), Waker::from(second.clone())),
        Poll::Pending
    );
    assert!(matches!(storage.add(2, "y"), ConsumerState::Taken));
    assert_eq!(wakes(&first), 0);
    assert_eq!(wakes(&second), 1);
    assert!(matches!(storage.add(1, "b"), ConsumerState::Taken));
    assert_eq!(wakes(&first), 1);
    assert_eq!(wakes(&second), 1);
    one.release(Some(&mut storage));
    two.release(Some(&mut storage));
}

#[test]
fn a_later_poll_replaces_the_signal() {
    let mut storage = Storage::new();
    let stale = counter();
    let current = counter();
    let mut consumer = handed(storage.add(1, "a"));
    assert_eq!(
        consumer.take().poll(Some(&mut storage), Waker::from(stale.clone())),
        Poll::Ready(Ok("a"))
    );
    assert_eq!(
        consumer.take().poll(Some(&mut storage), Waker::from(stale.clone())),
        Poll::Pending
    );
    assert_eq!(
        consumer.take().poll(Some(&mut storage), Waker::from(current.clone())),
        Poll::Pending
    );
    assert!(matches!(storage.add(1, "b"), ConsumerState::Taken));
    assert_eq!(wakes(&stale), 0);
    assert_eq!(wakes(&current), 1);
    consumer.release(Some(&mut storage));
}

#[test]
fn release_leaves_no_signal_behind() {
    let mut storage = Storage::new();
    let signal = counter();
    let mut consumer = handed(storage.add(1, "a"));
    assert_eq!(
        consumer.take().poll(Some(&mut storage), Waker::from(signal.clone())),
        Poll::Ready(Ok("a"))
    );
    assert_eq!(
        consumer.take().poll(Some(&mut storage), Waker::from(signal.clone())),
        Poll::Pending
    );
    assert_eq!(Arc::strong_count(&signal), 2);
    consumer.release(Some(&mut storage));
    assert_eq!(Arc::strong_count(&signal), 1);
    let fresh = handed(storage.add(1, "b"));
    assert_eq!(wakes(&signal), 0);
    fresh.release(Some(&mut storage));
}

#[test]
fn swap_returns_what_was_there() {
    let mut slot = 5u32;
    assert_eq!(swap(&mut slot, 9), 5);
    assert_eq!(slot, 9);

    let mut state: ExecutionState<u64, &str> =
        ExecutionState::Running(MessageAwaitingState::NotWaiting);
    let signal = counter();
    let previous = swap(
        &mut state,
        ExecutionState::Running(MessageAwaitingState::Waiting(Waker::from(signal.clone()))),
    );
    assert!(matches!(
        previous,
        ExecutionState::Running(MessageAwaitingState::NotWaiting)
    ));
    match state {
        ExecutionState::Running(MessageAwaitingState::Waiting(waker)) => waker.wake(),
        _ => unreachable!(),
    }
    assert_eq!(wakes(&signal), 1);
}
