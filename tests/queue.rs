use channel_core::{
    Flavor, Queue, RecvError, RecvStep, RecvTimeoutError, SendError, SendStep, SendTimeoutError,
    TryRecvError, TrySendError,
};

fn recv(q: &mut Queue<i32>) -> RecvStep<i32> {
    q.recv_step(false, false)
}

#[test]
fn bounded_two_scenario() {
    let mut q: Queue<i32> = Queue::bounded(2);
    assert_eq!(q.try_send(1), Ok(()));
    assert_eq!(q.try_send(2), Ok(()));
    assert_eq!(q.try_send(3), Err(TrySendError::Full(3)));
    assert_eq!(recv(&mut q), RecvStep::Received(1));
    assert!(q.release_sender());
    assert!(q.is_closed());
    assert_eq!(recv(&mut q), RecvStep::Received(2));
    assert_eq!(recv(&mut q), RecvStep::Failed(RecvTimeoutError::Disconnected));
    assert_eq!(q.try_recv(), Err(TryRecvError::Disconnected));
}

#[test]
fn unbounded_round_trip_keeps_order() {
    let mut q: Queue<i32> = Queue::unbounded();
    for i in 0..1000 {
        assert_eq!(q.try_send(i), Ok(()));
    }
    assert_eq!(q.len(), 1000);
    for i in 0..1000 {
        assert_eq!(q.try_recv(), Ok(i));
    }
    assert_eq!(q.try_recv(), Err(TryRecvError::Empty));
    assert!(q.is_empty());
}

#[test]
fn rendezvous_never_buffers_without_receiver() {
    let mut q: Queue<i32> = Queue::bounded(0);
    assert_eq!(q.flavor(), Flavor::Rendezvous);
    assert_eq!(q.capacity(), Some(0));
    assert!(q.is_full());
    assert_eq!(q.try_send(5), Err(TrySendError::Full(5)));
    assert_eq!(q.send_step(5, true), SendStep::Failed(SendTimeoutError::Timeout(5)));
    assert_eq!(q.send_step(5, false), SendStep::Blocked(5));
    assert_eq!(q.len(), 0);
}

#[test]
fn rendezvous_hands_off_to_parked_receiver() {
    let mut q: Queue<i32> = Queue::bounded(0);
    assert_eq!(q.recv_step(false, false), RecvStep::Blocked);
    assert_eq!(q.parked_count(), 1);
    assert!(!q.is_full());
    assert_eq!(q.send_step(7, false), SendStep::Sent);
    assert_eq!(q.len(), 0);
    assert!(q.is_empty());
    assert_eq!(q.try_send(8), Err(TrySendError::Full(8)));
    assert_eq!(q.try_recv(), Err(TryRecvError::Empty));
    assert_eq!(q.recv_step(false, false), RecvStep::Blocked);
    assert_eq!(q.recv_step(true, false), RecvStep::Received(7));
    assert_eq!(q.len(), 0);
    assert_eq!(q.parked_count(), 1);
    assert_eq!(q.recv_step(true, true), RecvStep::Failed(RecvTimeoutError::Timeout));
    assert_eq!(q.parked_count(), 0);
}

#[test]
fn rendezvous_parked_receiver_disconnects_on_last_sender() {
    let mut q: Queue<i32> = Queue::bounded(0);
    assert_eq!(q.recv_step(false, false), RecvStep::Blocked);
    assert!(q.release_sender());
    assert_eq!(q.recv_step(true, false), RecvStep::Failed(RecvTimeoutError::Disconnected));
    assert_eq!(q.parked_count(), 0);
}

#[test]
fn fresh_channel_has_one_handle_each() {
    let q: Queue<i32> = Queue::new(Flavor::Bounded(3));
    assert_eq!(q.sender_count(), 1);
    assert_eq!(q.receiver_count(), 1);
    assert_eq!(q.len(), 0);
    assert!(!q.is_closed());
}

#[test]
fn full_bounded_one_rejects() {
    let mut q: Queue<i32> = Queue::bounded(1);
    assert_eq!(q.try_send(1), Ok(()));
    assert!(q.is_full());
    assert_eq!(q.try_send(2), Err(TrySendError::Full(2)));
    assert_eq!(q.len(), 1);
    assert_eq!(q.try_recv(), Ok(1));
}

#[test]
fn close_is_idempotent() {
    let mut q: Queue<i32> = Queue::unbounded();
    assert!(!q.is_closed());
    assert!(q.close());
    assert!(!q.close());
    assert!(q.is_closed());
}

#[test]
fn last_receiver_rejects_sends() {
    let mut q: Queue<i32> = Queue::bounded(3);
    q.register_receiver();
    assert!(!q.release_receiver());
    assert!(!q.is_closed());
    assert!(q.release_receiver());
    assert!(q.is_closed());
    assert_eq!(q.try_send(1), Err(TrySendError::Disconnected(1)));
    assert_eq!(q.send_step(2, false), SendStep::Failed(SendTimeoutError::Disconnected(2)));
    assert_eq!(q.send_step(3, true), SendStep::Failed(SendTimeoutError::Disconnected(3)));
}

#[test]
fn last_sender_drains_then_disconnects() {
    let mut q: Queue<i32> = Queue::unbounded();
    q.try_send(10).unwrap();
    q.try_send(20).unwrap();
    q.register_sender();
    assert!(!q.release_sender());
    assert!(q.release_sender());
    assert_eq!(q.try_recv(), Ok(10));
    assert_eq!(q.recv_step(false, true), RecvStep::Received(20));
    assert_eq!(q.try_recv(), Err(TryRecvError::Disconnected));
}

#[test]
fn handle_counts_follow_clones_and_drops() {
    let mut q: Queue<i32> = Queue::unbounded();
    assert_eq!(q.sender_count(), 1);
    assert_eq!(q.receiver_count(), 1);
    for _ in 0..5 {
        q.register_sender();
    }
    q.register_receiver();
    assert_eq!(q.sender_count(), 6);
    assert_eq!(q.receiver_count(), 2);
    let mut lasts = 0;
    for _ in 0..6 {
        if q.release_sender() {
            lasts += 1;
        }
    }
    assert_eq!(lasts, 1);
    assert_eq!(q.sender_count(), 0);
    assert!(q.is_closed());
    assert!(!q.release_receiver());
    assert!(q.release_receiver());
    assert_eq!(q.receiver_count(), 0);
}

#[test]
fn disconnected_wins_over_timeout() {
    let mut q: Queue<i32> = Queue::bounded(1);
    q.try_send(1).unwrap();
    assert_eq!(q.send_step(2, true), SendStep::Failed(SendTimeoutError::Timeout(2)));
    q.close();
    assert_eq!(q.send_step(2, true), SendStep::Failed(SendTimeoutError::Disconnected(2)));
    assert_eq!(q.recv_step(false, true), RecvStep::Received(1));
    assert_eq!(q.recv_step(false, true), RecvStep::Failed(RecvTimeoutError::Disconnected));
}

#[test]
fn recv_times_out_on_open_empty_channel() {
    let mut q: Queue<i32> = Queue::unbounded();
    assert_eq!(q.recv_step(false, true), RecvStep::Failed(RecvTimeoutError::Timeout));
    assert_eq!(q.recv_step(false, false), RecvStep::Blocked);
    assert_eq!(q.parked_count(), 1);
    assert_eq!(q.recv_step(true, true), RecvStep::Failed(RecvTimeoutError::Timeout));
    assert_eq!(q.parked_count(), 0);
}

#[test]
fn capacity_by_flavor() {
    let u: Queue<i32> = Queue::unbounded();
    assert_eq!(u.capacity(), None);
    assert_eq!(u.flavor(), Flavor::Unbounded);
    assert!(!u.is_full());
    let b: Queue<i32> = Queue::bounded(4);
    assert_eq!(b.capacity(), Some(4));
    assert_eq!(b.flavor(), Flavor::Bounded(4));
    assert_eq!(Flavor::for_size(0), Flavor::Rendezvous);
    assert_eq!(Flavor::Bounded(9).capacity(), Some(9));
}

#[test]
fn readiness_probes() {
    let mut q: Queue<i32> = Queue::bounded(1);
    assert!(!q.is_recv_ready());
    assert!(q.is_send_ready());
    q.try_send(1).unwrap();
    assert!(q.is_recv_ready());
    assert!(!q.is_send_ready());
    q.close();
    assert!(q.is_send_ready());
}

#[test]
fn error_conversions_keep_value() {
    assert_eq!(SendTimeoutError::Timeout(4).into_send_error(), SendError(4));
    assert_eq!(SendTimeoutError::Disconnected(5).into_send_error(), SendError(5));
    assert_eq!(RecvTimeoutError::Timeout.into_recv_error(), RecvError);
}
