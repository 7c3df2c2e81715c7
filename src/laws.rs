//! Laws of a channel that relate several operations, proved over the
//! transitions in `model` that the operations follow.
use vstd::prelude::*;

use crate::error::{RecvTimeoutError, SendTimeoutError, TrySendError};
use crate::flavor::Flavor;
use crate::model::{QueueView, RecvStep, SendStep};

verus! {

/// A handle being cloned or dropped.
pub enum HandleOp {
    CloneSender,
    DropSender,
    CloneReceiver,
    DropReceiver,
}

/// The live handles of one class: senders when `sending`, else receivers.
pub open spec fn live<T>(q: QueueView<T>, sending: bool) -> nat {
    if sending {
        q.senders
    } else {
        q.receivers
    }
}

/// Whether an operation acts on the senders or on the receivers.
pub open spec fn is_sending(op: HandleOp) -> bool {
    op matches HandleOp::CloneSender || op matches HandleOp::DropSender
}

/// The state after one clone or drop, as `register_*` and `release_*` leave it.
pub open spec fn apply_op<T>(q: QueueView<T>, op: HandleOp) -> QueueView<T> {
    match op {
        HandleOp::CloneSender => q.with_senders(q.senders + 1),
        HandleOp::DropSender => q.release_sender_spec().0,
        HandleOp::CloneReceiver => q.with_receivers(q.receivers + 1),
        HandleOp::DropReceiver => q.release_receiver_spec().0,
    }
}

/// The state after a run of clones and drops.
pub open spec fn run_ops<T>(q: QueueView<T>, ops: Seq<HandleOp>) -> QueueView<T>
    decreases ops.len(),
{
    if ops.len() == 0 {
        q
    } else {
        apply_op(run_ops(q, ops.drop_last()), ops.last())
    }
}

/// A run in which every clone copies, and every drop releases, a live
/// handle of its class.
pub open spec fn valid_run<T>(q: QueueView<T>, ops: Seq<HandleOp>) -> bool
    decreases ops.len(),
{
    if ops.len() == 0 {
        true
    } else {
        &&& valid_run(q, ops.drop_last())
        &&& live(run_ops(q, ops.drop_last()), is_sending(ops.last())) > 0
    }
}

/// How many operations of the run act on the given class.
pub open spec fn count_ops(ops: Seq<HandleOp>, sending: bool, clones: bool) -> nat
    decreases ops.len(),
{
    if ops.len() == 0 {
        0
    } else {
        let op = ops.last();
        let hit = is_sending(op) == sending && (op matches HandleOp::CloneSender || op matches HandleOp::CloneReceiver) == clones;
        count_ops(ops.drop_last(), sending, clones) + if hit { 1nat } else { 0nat }
    }
}

/// How many drops of the run found themselves the last handle of the class,
/// each of which closes the channel.
pub open spec fn last_drops<T>(q: QueueView<T>, ops: Seq<HandleOp>, sending: bool) -> nat
    decreases ops.len(),
{
    if ops.len() == 0 {
        0
    } else {
        let p = run_ops(q, ops.drop_last());
        let op = ops.last();
        let last = if sending {
            op matches HandleOp::DropSender && p.senders == 1
        } else {
            op matches HandleOp::DropReceiver && p.receivers == 1
        };
        last_drops(q, ops.drop_last(), sending) + if last { 1nat } else { 0nat }
    }
}

/// In any interleaving of clones and drops of live handles, starting with at
/// least one handle of each class, the live count of each class is its start
/// plus its clones minus its drops; a drop that finds itself the last of its
/// class happens at most once per class, exactly when the count has reached
/// zero, and the channel is then closed.
pub proof fn lemma_handle_counts<T>(q: QueueView<T>, ops: Seq<HandleOp>, sending: bool)
    requires
        q.senders > 0,
        q.receivers > 0,
        valid_run(q, ops),
    ensures
        live(run_ops(q, ops), sending) + count_ops(ops, sending, false) == live(q, sending)
            + count_ops(ops, sending, true),
        last_drops(q, ops, sending) <= 1,
        (last_drops(q, ops, sending) == 1) == (live(run_ops(q, ops), sending) == 0),
        live(run_ops(q, ops), sending) == 0 ==> run_ops(q, ops).closed,
    decreases ops.len(),
{
    if ops.len() > 0 {
        let init = ops.drop_last();
        lemma_handle_counts(q, init, sending);
        lemma_run_keeps_closed(q, init);
    }
}

/// A closed channel stays closed through clones and drops.
proof fn lemma_run_keeps_closed<T>(q: QueueView<T>, ops: Seq<HandleOp>)
    ensures
        q.closed ==> run_ops(q, ops).closed,
    decreases ops.len(),
{
    if ops.len() > 0 {
        lemma_run_keeps_closed(q, ops.drop_last());
    }
}

/// Closing twice: the first call reports the transition exactly when the
/// channel was open, the second never does and changes nothing.
pub proof fn lemma_close_idempotent<T>(q: QueueView<T>)
    ensures
        q.close_spec().1 == !q.closed,
        q.close_spec().0.closed,
        !q.close_spec().0.close_spec().1,
        q.close_spec().0.close_spec().0 == q.close_spec().0,
{
}

/// The state after `k` steps of blocking receives by receivers that were
/// not parked.
pub open spec fn recv_n<T>(q: QueueView<T>, k: nat) -> QueueView<T>
    decreases k,
{
    if k == 0 {
        q
    } else {
        recv_n(q, (k - 1) as nat).recv_step_spec(false, false).0
    }
}

/// `k` receives from a state that buffers at least `k` values take the
/// first `k` of them and nothing else.
pub proof fn lemma_recv_n<T>(q: QueueView<T>, k: nat)
    requires
        k <= q.items.len(),
    ensures
        recv_n(q, k) == q.with_items(q.items.subrange(k as int, q.items.len() as int)),
    decreases k,
{
    if k == 0 {
        assert(q.items.subrange(0, q.items.len() as int) =~= q.items);
    } else {
        lemma_recv_n(q, (k - 1) as nat);
        let p = recv_n(q, (k - 1) as nat);
        assert(p.items.drop_first() =~= q.items.subrange(k as int, q.items.len() as int));
    }
}

/// Blocking receives, whether their deadlines have passed or not, hand out
/// the buffered values in order; then a closed channel reports
/// `Disconnected`, and an open one makes the receiver wait or, past its
/// deadline, report `Timeout`.
pub proof fn lemma_drain<T>(q: QueueView<T>, expired: bool)
    ensures
        forall|i: int|
            0 <= i < q.items.len() ==> #[trigger] recv_n(q, i as nat).recv_step_spec(false, expired).1
                == RecvStep::Received(q.items[i]),
        recv_n(q, q.items.len()).items.len() == 0,
        recv_n(q, q.items.len()).recv_step_spec(false, expired).1 == if q.closed {
            RecvStep::<T>::Failed(RecvTimeoutError::Disconnected)
        } else if expired {
            RecvStep::<T>::Failed(RecvTimeoutError::Timeout)
        } else {
            RecvStep::<T>::Blocked
        },
{
    assert forall|i: int| 0 <= i < q.items.len() implies #[trigger] recv_n(q, i as nat).recv_step_spec(
        false,
        expired,
    ).1 == RecvStep::Received(q.items[i]) by {
        lemma_recv_n(q, i as nat);
    }
    lemma_recv_n(q, q.items.len());
}

/// When the last sender drops, the channel closes without losing a buffered
/// value: blocking receives get every one of them in order, then
/// `Disconnected`, never `Timeout`; a receiver already parked, with nothing
/// handed to it, gets `Disconnected` too.
pub proof fn lemma_last_sender_drains<T>(q: QueueView<T>, expired: bool)
    requires
        q.senders == 1,
    ensures
        q.release_sender_spec().1,
        q.release_sender_spec().0.closed,
        q.release_sender_spec().0.items == q.items,
        forall|i: int|
            0 <= i < q.items.len() ==> #[trigger] recv_n(q.release_sender_spec().0, i as nat).recv_step_spec(
                false,
                expired,
            ).1 == RecvStep::Received(q.items[i]),
        recv_n(q.release_sender_spec().0, q.items.len()).recv_step_spec(false, expired).1
            == RecvStep::<T>::Failed(RecvTimeoutError::Disconnected),
        q.handed.len() == 0 ==> recv_n(q.release_sender_spec().0, q.items.len()).recv_step_spec(
            true,
            expired,
        ).1 == RecvStep::<T>::Failed(RecvTimeoutError::Disconnected),
{
    let p = q.release_sender_spec().0;
    lemma_drain(p, expired);
    lemma_recv_n(p, q.items.len());
}

/// When the last receiver drops, the channel closes, and from then on every
/// send, waiting or not and whatever its deadline, fails with
/// `Disconnected` and hands its value back.
pub proof fn lemma_last_receiver_rejects_sends<T>(q: QueueView<T>, v: T, expired: bool)
    requires
        q.receivers == 1,
    ensures
        q.release_receiver_spec().1,
        q.release_receiver_spec().0.closed,
        q.release_receiver_spec().0.try_send_spec(v) == (q.release_receiver_spec().0, Err::<(), TrySendError<T>>(TrySendError::Disconnected(v))),
        q.release_receiver_spec().0.send_step_spec(v, expired) == (q.release_receiver_spec().0, SendStep::Failed(SendTimeoutError::Disconnected(v))),
{
}

/// On a closed channel every send fails with `Disconnected` and changes
/// nothing, so the channel stays closed.
pub proof fn lemma_closed_rejects_sends<T>(q: QueueView<T>, v: T, expired: bool)
    requires
        q.closed,
    ensures
        q.try_send_spec(v) == (q, Err::<(), TrySendError<T>>(TrySendError::Disconnected(v))),
        q.send_step_spec(v, expired) == (q, SendStep::Failed(SendTimeoutError::Disconnected(v))),
{
}

/// The state after blocking sends of each value in turn, and whether every
/// one of them was delivered.
pub open spec fn send_all<T>(q: QueueView<T>, vals: Seq<T>) -> (QueueView<T>, bool)
    decreases vals.len(),
{
    if vals.len() == 0 {
        (q, true)
    } else {
        let (p, ok) = send_all(q, vals.drop_last());
        let (r, res) = p.send_step_spec(vals.last(), false);
        (r, ok && res is Sent)
    }
}

/// On an open unbounded channel every send is delivered at once and appends
/// its value.
pub proof fn lemma_unbounded_send_all<T>(q: QueueView<T>, vals: Seq<T>)
    requires
        q.flavor == Flavor::Unbounded,
        !q.closed,
    ensures
        send_all(q, vals).1,
        send_all(q, vals).0 == q.with_items(q.items + vals),
    decreases vals.len(),
{
    if vals.len() == 0 {
        assert(q.items + vals =~= q.items);
    } else {
        lemma_unbounded_send_all(q, vals.drop_last());
        assert((q.items + vals.drop_last()).push(vals.last()) =~= q.items + vals);
    }
}

/// Sending values into an empty, open unbounded channel and then receiving
/// as many times gives them back in the order sent, none lost or repeated.
pub proof fn lemma_unbounded_round_trip<T>(q: QueueView<T>, vals: Seq<T>)
    requires
        q.flavor == Flavor::Unbounded,
        !q.closed,
        q.items.len() == 0,
    ensures
        send_all(q, vals).1,
        forall|i: int|
            0 <= i < vals.len() ==> #[trigger] recv_n(send_all(q, vals).0, i as nat).recv_step_spec(
                false,
                false,
            ).1 == RecvStep::Received(vals[i]),
        recv_n(send_all(q, vals).0, vals.len()).items.len() == 0,
{
    lemma_unbounded_send_all(q, vals);
    assert(q.items + vals =~= vals);
    lemma_drain(send_all(q, vals).0, false);
}

/// A rendezvous channel never buffers: a send that completes hands its
/// value to a parked receiver and leaves the buffer empty.
pub proof fn lemma_rendezvous_never_buffers<T>(q: QueueView<T>, v: T, expired: bool)
    requires
        q.wf(),
        q.flavor == Flavor::Rendezvous,
    ensures
        q.items.len() == 0,
        q.try_send_spec(v).0.items.len() == 0,
        q.send_step_spec(v, expired).0.items.len() == 0,
        q.send_step_spec(v, expired).1 is Sent ==> q.send_step_spec(v, expired).0.handed
            == q.handed.push(v) && q.handed.len() < q.parked,
{
}

/// With no parked receiver free to take it, a rendezvous send finds no
/// room and, once its deadline has passed, fails with `Timeout`, not
/// `Disconnected`, leaving the state as it was.
pub proof fn lemma_rendezvous_needs_receiver<T>(q: QueueView<T>, v: T)
    requires
        q.wf(),
        q.flavor == Flavor::Rendezvous,
        !q.closed,
        q.handed.len() == q.parked,
    ensures
        q.flavor.capacity_spec() == Some(0usize),
        q.try_send_spec(v) == (q, Err::<(), TrySendError<T>>(TrySendError::Full(v))),
        q.send_step_spec(v, true) == (q, SendStep::Failed(SendTimeoutError::Timeout(v))),
{
}
/// A non-blocking send into an open bounded channel whose buffer is full
/// fails with `Full` and changes nothing.
pub proof fn lemma_full_bounded_rejects<T>(q: QueueView<T>, v: T)
    requires
        q.flavor matches Flavor::Bounded(n) && q.items.len() == n,
        !q.closed,
    ensures
        q.try_send_spec(v) == (q, Err::<(), TrySendError<T>>(TrySendError::Full(v))),
{
}

} // verus!
