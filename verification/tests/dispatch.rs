//! Tests for the job-dispatch state machine and the oneshot handoff cell.

use fractal_farlands::oneshot::{self, RecvPoll, State};
use fractal_farlands::service::{Error, JobOutcome, JobState, ServiceQueue};

#[test]
fn test_hundred_jobs_all_terminal() {
    // A service given 100 varying-cost jobs delivers exactly 100 terminal
    // outcomes (delivered or cancelled) — none dropped. The single pool
    // slot claims jobs strictly in submission order.
    let mut queue = ServiceQueue::new();
    let mut ids: Vec<usize> = Vec::new();
    for _ in 0..100usize {
        ids.push(queue.submit().unwrap());
    }
    let mut delivered: usize = 0;
    while let Some(id) = queue.claim() {
        // Submission order is preserved at ingress.
        assert_eq!(id, delivered);
        queue.start(id);
        let outcome = match id % 3 {
            0 => JobOutcome::Succeeded,
            1 => JobOutcome::Failed,
            _ => JobOutcome::Cancelled,
        };
        queue.finish(id, outcome);
        queue.deliver(id);
        assert_eq!(queue.state_of(id), JobState::ResultDelivered);
        delivered += 1;
    }
    assert_eq!(delivered, 100);
    for id in ids {
        assert_eq!(queue.state_of(id), JobState::ResultDelivered);
    }
}

#[test]
fn test_submit_after_shutdown_fails() {
    let mut queue = ServiceQueue::new();
    queue.submit().unwrap();
    queue.close();
    match queue.submit() {
        Err(Error::ServiceUnavailable) => (),
        _ => panic!("submission after teardown must fail with ServiceUnavailable"),
    }
    // The earlier job is still there, untouched.
    assert_eq!(queue.len(), 1);
    assert_eq!(queue.state_of(0), JobState::Queued);
}

#[test]
fn test_claim_order_is_fifo() {
    let mut queue = ServiceQueue::new();
    let a = queue.submit().unwrap();
    let b = queue.submit().unwrap();
    let c = queue.submit().unwrap();
    assert_eq!(queue.claim(), Some(a));
    assert_eq!(queue.claim(), Some(b));
    assert_eq!(queue.claim(), Some(c));
    assert_eq!(queue.claim(), None);
}

#[test]
fn test_oneshot_send_then_recv() {
    let (tx, rx) = oneshot::new::<u32, ()>();
    assert!(!tx.is_cancelled());
    assert_eq!(tx.send(42), None);
    assert_eq!(rx.recv(), Ok(42));
}

#[test]
fn test_drop_receiver_makes_send_a_noop() {
    // Dropping a completion handle before a worker sends does not crash or
    // block the worker; the send becomes a no-op.
    let (tx, rx) = oneshot::new::<u32, ()>();
    rx.cancel();
    assert!(tx.is_cancelled());
    assert_eq!(tx.send(7), None);
}

#[test]
fn test_sender_dropped_is_visible() {
    // Producer-dropped-before-send is a distinguished failure visible to
    // the consumer.
    let (tx, rx) = oneshot::new::<u32, ()>();
    assert_eq!(tx.abandon(), None);
    assert!(rx.recv().is_err());
}

#[test]
fn test_poll_parks_and_wakes() {
    // The consumer can register a wake payload and resume once, on value
    // arrival; the producer gets the parked payload back to wake.
    let (tx, rx) = oneshot::new::<u32, u8>();
    match rx.poll(9) {
        RecvPoll::Pending => (),
        _ => panic!("no value yet: poll must park the payload"),
    }
    assert_eq!(tx.send(5), Some(9));
    match rx.poll(11) {
        RecvPoll::Ready(v) => assert_eq!(v, 5),
        _ => panic!("value must be ready after send"),
    }
}

#[test]
fn test_state_machine_transitions() {
    // The cell's state machine, driven directly.
    let mut st: State<u32, u8> = State::Idle;
    assert_eq!(st.take(), None);
    assert_eq!(st.done(3), None);
    assert_eq!(st.take(), Some(3));
    // After a successful take the cell is spent: a producer leaving now
    // changes nothing.
    assert_eq!(st.drop_send(), None);
    match st {
        State::ReceiverDropped => (),
        _ => panic!("consumed cell must be spent"),
    }

    // A parked consumer is woken by the producer leaving.
    let mut st: State<u32, u8> = State::WaitingForValue(8);
    assert_eq!(st.drop_send(), Some(8));
    match st {
        State::SenderDropped => (),
        _ => panic!("producer loss must be recorded"),
    }

    // A spent cell swallows a send.
    let mut st: State<u32, u8> = State::Idle;
    st.drop_recv();
    assert_eq!(st.done(5), None);
}
