//! The shared queue state of one channel: live handle counts, the flavor,
//! the buffer and the closed flag. Every operation is proved to follow its
//! transition in `model` exactly.
use std::collections::VecDeque;
use vstd::prelude::*;

use crate::error::{RecvTimeoutError, SendTimeoutError, TryRecvError, TrySendError};
use crate::flavor::Flavor;
use crate::model::{QueueView, RecvStep, SendStep};

verus! {

/// The state that every handle of one channel shares.
pub struct Queue<T> {
    senders: usize,
    receivers: usize,
    flavor: Flavor,
    items: VecDeque<T>,
    parked: usize,
    handed: VecDeque<T>,
    closed: bool,
}

impl<T> View for Queue<T> {
    type V = QueueView<T>;

    closed spec fn view(&self) -> QueueView<T> {
        QueueView {
            senders: self.senders as nat,
            receivers: self.receivers as nat,
            flavor: self.flavor,
            items: self.items@,
            parked: self.parked as nat,
            handed: self.handed@,
            closed: self.closed,
        }
    }
}

impl<T> Queue<T> {
    pub open spec fn wf(&self) -> bool {
        self@.wf()
    }

    /// The state of a new channel of the given flavor, with its first
    /// sender and receiver registered.
    pub fn new(flavor: Flavor) -> (r: Queue<T>)
        requires
            flavor.wf(),
        ensures
            r@ == QueueView::<T>::fresh(flavor),
            r.wf(),
    {
        let r = Queue {
            senders: 1,
            receivers: 1,
            flavor,
            items: VecDeque::new(),
            parked: 0,
            handed: VecDeque::new(),
            closed: false,
        };
        proof {
            assert(r@.items =~= Seq::<T>::empty());
            assert(r@.handed =~= Seq::<T>::empty());
        }
        r
    }

    /// The state of a new unbounded channel.
    pub fn unbounded() -> (r: Queue<T>)
        ensures
            r@ == QueueView::<T>::fresh(Flavor::Unbounded),
            r.wf(),
    {
        Queue::new(Flavor::Unbounded)
    }

    /// The state of a new channel with a buffer of `size` values; a size of
    /// zero makes a rendezvous channel, which buffers nothing.
    pub fn bounded(size: usize) -> (r: Queue<T>)
        ensures
            r@ == QueueView::<T>::fresh(Flavor::for_size_spec(size)),
            r.wf(),
    {
        Queue::new(Flavor::for_size(size))
    }

    pub fn flavor(&self) -> (r: Flavor)
        ensures
            r == self@.flavor,
    {
        self.flavor
    }

    pub fn sender_count(&self) -> (r: usize)
        ensures
            r == self@.senders,
    {
        self.senders
    }

    pub fn receiver_count(&self) -> (r: usize)
        ensures
            r == self@.receivers,
    {
        self.receivers
    }

    pub fn parked_count(&self) -> (r: usize)
        ensures
            r == self@.parked,
    {
        self.parked
    }

    /// A live `Sender` is cloned.
    pub fn register_sender(&mut self)
        requires
            old(self).wf(),
            0 < old(self)@.senders < usize::MAX,
        ensures
            final(self)@ == old(self)@.with_senders(old(self)@.senders + 1),
            final(self).wf(),
    {
        self.senders = self.senders + 1;
    }

    /// A live `Receiver` is cloned.
    pub fn register_receiver(&mut self)
        requires
            old(self).wf(),
            0 < old(self)@.receivers < usize::MAX,
        ensures
            final(self)@ == old(self)@.with_receivers(old(self)@.receivers + 1),
            final(self).wf(),
    {
        self.receivers = self.receivers + 1;
    }

    /// A `Sender` leaves. Returns whether it was the last one; the channel is
    /// then closed, and every waiting party must be woken.
    pub fn release_sender(&mut self) -> (last: bool)
        requires
            old(self).wf(),
            old(self)@.senders > 0,
        ensures
            (final(self)@, last) == old(self)@.release_sender_spec(),
            final(self).wf(),
    {
        let last = self.senders == 1;
        self.senders = self.senders - 1;
        if last {
            self.closed = true;
        }
        last
    }

    /// A `Receiver` leaves. Returns whether it was the last one; the channel
    /// is then closed, and every waiting party must be woken.
    pub fn release_receiver(&mut self) -> (last: bool)
        requires
            old(self).wf(),
            old(self)@.receivers > 0,
        ensures
            (final(self)@, last) == old(self)@.release_receiver_spec(),
            final(self).wf(),
    {
        let last = self.receivers == 1;
        self.receivers = self.receivers - 1;
        if last {
            self.closed = true;
        }
        last
    }

    /// Closes the channel. Returns whether this call did it, which is so only
    /// when it was open.
    pub fn close(&mut self) -> (r: bool)
        requires
            old(self).wf(),
        ensures
            (final(self)@, r) == old(self)@.close_spec(),
            final(self).wf(),
    {
        let r = !self.closed;
        self.closed = true;
        r
    }

    pub fn is_closed(&self) -> (r: bool)
        ensures
            r == self@.closed,
    {
        self.closed
    }

    /// The number of buffered values: always zero for a rendezvous channel,
    /// at most the size for a bounded one.
    pub fn len(&self) -> (r: usize)
        requires
            self.wf(),
        ensures
            r == self@.items.len(),
            self@.flavor == Flavor::Rendezvous ==> r == 0,
            self@.flavor matches Flavor::Bounded(n) ==> r <= n,
    {
        self.items.len()
    }

    pub fn is_empty(&self) -> (r: bool)
        ensures
            r == (self@.items.len() == 0),
    {
        self.items.len() == 0
    }

    /// Whether a send would find no room right now.
    pub fn is_full(&self) -> (r: bool)
        ensures
            r == self@.is_full_spec(),
    {
        !self.has_room()
    }

    /// `None` for unbounded, `Some(0)` for rendezvous, the buffer size
    /// otherwise.
    pub fn capacity(&self) -> (r: Option<usize>)
        ensures
            r == self@.flavor.capacity_spec(),
    {
        self.flavor.capacity()
    }

    fn has_room(&self) -> (r: bool)
        ensures
            r == self@.has_room(),
    {
        match self.flavor {
            Flavor::Unbounded => true,
            Flavor::Bounded(n) => self.items.len() < n,
            Flavor::Rendezvous => self.handed.len() < self.parked,
        }
    }

    /// Whether a receive would not wait: a value is buffered or the channel
    /// is closed.
    pub fn is_recv_ready(&self) -> (r: bool)
        ensures
            r == (self@.items.len() > 0 || self@.closed),
    {
        self.items.len() > 0 || self.closed
    }

    /// Whether a send would not wait: there is room or the channel is closed.
    pub fn is_send_ready(&self) -> (r: bool)
        ensures
            r == (self@.has_room() || self@.closed),
    {
        self.has_room() || self.closed
    }

    /// Sends without waiting.
    pub fn try_send(&mut self, value: T) -> (r: Result<(), TrySendError<T>>)
        requires
            old(self).wf(),
        ensures
            (final(self)@, r) == old(self)@.try_send_spec(value),
            final(self).wf(),
    {
        if self.closed {
            Err(TrySendError::Disconnected(value))
        } else if self.has_room() {
            match self.flavor {
                Flavor::Rendezvous => self.handed.push_back(value),
                _ => self.items.push_back(value),
            }
            Ok(())
        } else {
            Err(TrySendError::Full(value))
        }
    }

    /// Receives without waiting.
    pub fn try_recv(&mut self) -> (r: Result<T, TryRecvError>)
        requires
            old(self).wf(),
        ensures
            (final(self)@, r) == old(self)@.try_recv_spec(),
            final(self).wf(),
    {
        match self.items.pop_front() {
            Some(v) => {
                proof {
                    assert(self@.items =~= old(self)@.items.drop_first());
                }
                Ok(v)
            },
            None => {
                if self.closed {
                    Err(TryRecvError::Disconnected)
                } else {
                    Err(TryRecvError::Empty)
                }
            },
        }
    }

    /// One step of a send that waits for room: `expired` tells whether its
    /// deadline has passed. On `Blocked` the caller waits for a change of
    /// state and steps again with the value handed back.
    pub fn send_step(&mut self, value: T, expired: bool) -> (r: SendStep<T>)
        requires
            old(self).wf(),
        ensures
            (final(self)@, r) == old(self)@.send_step_spec(value, expired),
            final(self).wf(),
    {
        match self.try_send(value) {
            Ok(()) => SendStep::Sent,
            Err(TrySendError::Disconnected(v)) => SendStep::Failed(SendTimeoutError::Disconnected(v)),
            Err(TrySendError::Full(v)) => {
                if expired {
                    SendStep::Failed(SendTimeoutError::Timeout(v))
                } else {
                    SendStep::Blocked(v)
                }
            },
        }
    }

    /// One step of a receive that waits for a value: `was_parked` tells
    /// whether the caller was parked by an earlier step, `expired` whether
    /// its deadline has passed. On `Blocked` the caller is parked and waits
    /// for a change of state before it steps again.
    pub fn recv_step(&mut self, was_parked: bool, expired: bool) -> (r: RecvStep<T>)
        requires
            old(self).wf(),
            was_parked ==> old(self)@.parked > 0,
            !was_parked ==> old(self)@.parked < usize::MAX,
        ensures
            (final(self)@, r) == old(self)@.recv_step_spec(was_parked, expired),
            final(self).wf(),
    {
        if self.items.len() > 0 {
            let r = self.try_recv();
            if was_parked {
                self.parked = self.parked - 1;
            }
            match r {
                Ok(v) => RecvStep::Received(v),
                Err(_) => RecvStep::Failed(RecvTimeoutError::Disconnected),
            }
        } else if was_parked && self.handed.len() > 0 {
            let h = self.handed.pop_front();
            self.parked = self.parked - 1;
            proof {
                assert(self@.handed =~= old(self)@.handed.drop_first());
            }
            match h {
                Some(v) => RecvStep::Received(v),
                None => RecvStep::Failed(RecvTimeoutError::Disconnected),
            }
        } else if self.closed || expired {
            if was_parked {
                self.parked = self.parked - 1;
            }
            if self.closed {
                RecvStep::Failed(RecvTimeoutError::Disconnected)
            } else {
                RecvStep::Failed(RecvTimeoutError::Timeout)
            }
        } else {
            if !was_parked {
                self.parked = self.parked + 1;
            }
            RecvStep::Blocked
        }
    }
}

} // verus!
