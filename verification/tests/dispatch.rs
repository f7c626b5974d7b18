use bhumi::engine::{Dispatcher, QUEUE_CAPACITY};
use bhumi::queue::BoundedQueue;
use bhumi::retry::{FailureKind, RetryPolicy, RetryState};
use bhumi::ActiveRequestCounter;

#[test]
fn idle_flips_exactly_at_the_last_terminal_state() {
    let mut d = Dispatcher::new();
    assert!(d.is_idle());
    for i in 0..3 {
        assert!(d.submit(format!("envelope {}", i)));
    }
    // submission alone does not make the engine busy
    assert!(d.is_idle());
    assert_eq!(d.worker_dequeue(), Some("envelope 0".to_string()));
    assert_eq!(d.worker_dequeue(), Some("envelope 1".to_string()));
    assert_eq!(d.worker_dequeue(), Some("envelope 2".to_string()));
    assert!(!d.is_idle());
    d.worker_finish();
    assert!(!d.is_idle());
    d.worker_finish();
    assert!(!d.is_idle());
    d.worker_finish();
    assert!(d.is_idle());
}

#[test]
fn counter_counts_each_lifetime_once() {
    let mut c = ActiveRequestCounter::new();
    assert!(c.is_idle());
    c.increment();
    c.increment();
    assert_eq!(c.count(), 2);
    assert!(!c.is_idle());
    c.decrement();
    assert!(!c.is_idle());
    c.decrement();
    assert!(c.is_idle());
}

#[test]
fn a_full_queue_admits_nothing_until_a_dequeue_frees_room() {
    let mut q = BoundedQueue::new(3);
    assert!(q.try_enqueue("a".to_string()));
    assert!(q.try_enqueue("b".to_string()));
    assert!(q.try_enqueue("c".to_string()));
    assert!(!q.try_enqueue("d".to_string()));
    assert_eq!(q.len(), 3);
    assert_eq!(q.dequeue(), Some("a".to_string()));
    assert!(q.try_enqueue("d".to_string()));
    assert_eq!(q.dequeue(), Some("b".to_string()));
    assert_eq!(q.dequeue(), Some("c".to_string()));
    assert_eq!(q.dequeue(), Some("d".to_string()));
    assert_eq!(q.dequeue(), None);
}

#[test]
fn the_engine_queue_suspends_the_overflowing_submission() {
    let mut d = Dispatcher::new();
    for i in 0..QUEUE_CAPACITY {
        assert!(d.submit(format!("{}", i)));
    }
    // the submission past capacity is refused until a worker dequeues
    assert!(!d.submit("over".to_string()));
    assert_eq!(d.worker_dequeue(), Some("0".to_string()));
    assert!(d.submit("over".to_string()));
    d.worker_finish();
}

#[test]
fn transient_failures_sleep_100_200_400_then_give_up() {
    let policy = RetryPolicy::engine_default();
    let mut state = RetryState::start(&policy);
    assert_eq!(state.on_failure(&policy, FailureKind::Connect), Some(100));
    assert_eq!(state.on_failure(&policy, FailureKind::Connect), Some(200));
    assert_eq!(state.on_failure(&policy, FailureKind::Connect), Some(400));
    assert_eq!(state.on_failure(&policy, FailureKind::Connect), None);
}

#[test]
fn timeouts_are_retried_and_other_failures_never() {
    let policy = RetryPolicy::engine_default();
    let mut state = RetryState::start(&policy);
    assert_eq!(state.on_failure(&policy, FailureKind::Timeout), Some(100));
    // DNS, TLS and their kin abort at once, with the state unmoved
    assert_eq!(state.on_failure(&policy, FailureKind::Other), None);
    assert_eq!(state.on_failure(&policy, FailureKind::Timeout), Some(200));
}

#[test]
fn stream_chunks_drain_in_insertion_order() {
    let mut d = Dispatcher::new();
    d.stream_chunks.push_back("A".to_string());
    d.stream_chunks.push_back("B".to_string());
    assert_eq!(d.get_stream_chunk(), Some("A".to_string()));
    assert_eq!(d.get_stream_chunk(), Some("B".to_string()));
    assert_eq!(d.get_stream_chunk(), None);
}
