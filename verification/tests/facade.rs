use keyed_mailbox::{AwaitingError, Consumer, ConsumerState, Dispatcher, Poll};
use std::sync::Arc;
use std::task::{Wake, Waker};

struct Idle;

impl Wake for Idle {
    fn wake(self: Arc<Self>) {}
}

fn waker() -> Waker {
    Waker::from(Arc::new(Idle))
}

fn handed(state: ConsumerState<u64, &'static str>) -> Consumer<u64, &'static str> {
    match state {
        ConsumerState::Free(consumer) => consumer,
        ConsumerState::Taken => unreachable!(),
    }
}

#[test]
fn new_dispatcher_holds_nothing() {
    let dispatcher: Dispatcher<u64, &str> = Dispatcher::new();
    assert!(dispatcher.storage().is_empty());
}

#[test]
fn dispatch_reports_what_the_registry_reports() {
    let mut dispatcher = Dispatcher::new();
    let mut h1 = handed(dispatcher.dispatch(1, "a"));
    assert!(matches!(dispatcher.dispatch(1, "b"), ConsumerState::Taken));
    let mut h2 = handed(dispatcher.dispatch(2, "x"));
    assert!(matches!(dispatcher.dispatch(2, "y"), ConsumerState::Taken));
    assert!(matches!(dispatcher.dispatch(1, "c"), ConsumerState::Taken));
    assert!(!dispatcher.storage().is_empty());
    assert!(dispatcher.storage().owns(&h1));
    assert!(dispatcher.storage().owns(&h2));

    for expected in ["a", "b", "c"] {
        assert_eq!(
            h1.take().poll(Some(dispatcher.storage_mut()), waker()),
            Poll::Ready(Ok(expected))
        );
    }
    for expected in ["x", "y"] {
        assert_eq!(
            h2.take().poll(Some(dispatcher.storage_mut()), waker()),
            Poll::Ready(Ok(expected))
        );
    }
    h1.release(Some(dispatcher.storage_mut()));
    h2.release(Some(dispatcher.storage_mut()));
    assert!(dispatcher.storage().is_empty());
}

#[test]
fn consumer_outlives_its_dispatcher() {
    let mut dispatcher = Dispatcher::new();
    let mut consumer = handed(dispatcher.dispatch(1, "a"));
    assert_eq!(
        consumer.take().poll(Some(dispatcher.storage_mut()), waker()),
        Poll::Ready(Ok("a"))
    );
    assert_eq!(
        consumer.take().poll(Some(dispatcher.storage_mut()), waker()),
        Poll::Pending
    );
    drop(dispatcher);
    assert_eq!(
        consumer.take().poll(None, waker()),
        Poll::Ready(Err(AwaitingError::DispatcherWasDropped))
    );
    consumer.release(None);
}
