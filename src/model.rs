//! The mathematical model of a channel's shared state, and each operation as
//! a transition on it. The executable operations in `queue` are proved to
//! follow these transitions exactly.
use vstd::prelude::*;

use crate::error::{RecvTimeoutError, SendTimeoutError, TryRecvError, TrySendError};
use crate::flavor::Flavor;

verus! {

/// What a channel's shared state holds.
pub struct QueueView<T> {
    /// Live `Sender` handles.
    pub senders: nat,
    /// Live `Receiver` handles.
    pub receivers: nat,
    /// The strategy chosen at construction.
    pub flavor: Flavor,
    /// Values sent and not yet received, oldest first.
    pub items: Seq<T>,
    /// Receivers parked in a blocking receive.
    pub parked: nat,
    /// Values that a rendezvous send handed directly to parked receivers,
    /// each owed to one of them and taken only by a parked receiver's step.
    /// They are never buffered: at most one per parked receiver.
    pub handed: Seq<T>,
    /// Whether the channel has been closed.
    pub closed: bool,
}

/// One step of a blocking send.
#[derive(Debug, PartialEq, Eq)]
pub enum SendStep<T> {
    /// The value was delivered.
    Sent,
    /// No room yet: wait for a change and try again with the value.
    Blocked(T),
    /// The send is over without delivering the value.
    Failed(SendTimeoutError<T>),
}

/// One step of a blocking receive.
#[derive(Debug, PartialEq, Eq)]
pub enum RecvStep<T> {
    /// A value was taken.
    Received(T),
    /// Nothing yet: the caller is now parked; wait for a change and try again.
    Blocked,
    /// The receive is over without a value.
    Failed(RecvTimeoutError),
}

impl<T> QueueView<T> {
    /// The buffer never holds more than the flavor allows: a bounded buffer
    /// up to its size, a rendezvous nothing at all, its hand-offs going only
    /// to parked receivers, one each. A class of handles that has died out
    /// has closed the channel.
    pub open spec fn wf(self) -> bool {
        &&& self.flavor.wf()
        &&& (self.senders == 0 || self.receivers == 0) ==> self.closed
        &&& match self.flavor {
            Flavor::Unbounded => self.handed.len() == 0,
            Flavor::Bounded(n) => self.items.len() <= n && self.handed.len() == 0,
            Flavor::Rendezvous => self.items.len() == 0 && self.handed.len() <= self.parked,
        }
    }

    /// A fresh state of the given flavor: one sender, one receiver, nothing
    /// buffered, open.
    pub open spec fn fresh(flavor: Flavor) -> QueueView<T> {
        QueueView {
            senders: 1,
            receivers: 1,
            flavor,
            items: Seq::empty(),
            parked: 0,
            handed: Seq::empty(),
            closed: false,
        }
    }

    /// Whether a value can be accepted right now.
    pub open spec fn has_room(self) -> bool {
        match self.flavor {
            Flavor::Unbounded => true,
            Flavor::Bounded(n) => self.items.len() < n,
            Flavor::Rendezvous => self.handed.len() < self.parked,
        }
    }

    /// The state once a value is accepted: a rendezvous hands it to a parked
    /// receiver, the other flavors buffer it.
    pub open spec fn accept(self, v: T) -> QueueView<T> {
        if self.flavor == Flavor::Rendezvous {
            self.with_handed(self.handed.push(v))
        } else {
            self.with_items(self.items.push(v))
        }
    }

    pub open spec fn is_full_spec(self) -> bool {
        !self.has_room()
    }

    pub open spec fn with_items(self, items: Seq<T>) -> QueueView<T> {
        QueueView { items, ..self }
    }

    pub open spec fn with_handed(self, handed: Seq<T>) -> QueueView<T> {
        QueueView { handed, ..self }
    }

    pub open spec fn with_senders(self, senders: nat) -> QueueView<T> {
        QueueView { senders, ..self }
    }

    pub open spec fn with_receivers(self, receivers: nat) -> QueueView<T> {
        QueueView { receivers, ..self }
    }

    pub open spec fn with_parked(self, parked: nat) -> QueueView<T> {
        QueueView { parked, ..self }
    }

    /// Closing: the new state, and whether this call made the transition.
    pub open spec fn close_spec(self) -> (QueueView<T>, bool) {
        (QueueView { closed: true, ..self }, !self.closed)
    }

    /// A non-blocking send.
    pub open spec fn try_send_spec(self, v: T) -> (QueueView<T>, Result<(), TrySendError<T>>) {
        if self.closed {
            (self, Err(TrySendError::Disconnected(v)))
        } else if self.has_room() {
            (self.accept(v), Ok(()))
        } else {
            (self, Err(TrySendError::Full(v)))
        }
    }

    /// A non-blocking receive: buffered values are handed out, oldest first,
    /// even after the channel closed.
    pub open spec fn try_recv_spec(self) -> (QueueView<T>, Result<T, TryRecvError>) {
        if self.items.len() > 0 {
            (self.with_items(self.items.drop_first()), Ok(self.items[0]))
        } else if self.closed {
            (self, Err(TryRecvError::Disconnected))
        } else {
            (self, Err(TryRecvError::Empty))
        }
    }

    /// One step of a send that waits for room until `expired`: a closed
    /// channel is reported before a timeout.
    pub open spec fn send_step_spec(self, v: T, expired: bool) -> (QueueView<T>, SendStep<T>) {
        if self.closed {
            (self, SendStep::Failed(SendTimeoutError::Disconnected(v)))
        } else if self.has_room() {
            (self.accept(v), SendStep::Sent)
        } else if expired {
            (self, SendStep::Failed(SendTimeoutError::Timeout(v)))
        } else {
            (self, SendStep::Blocked(v))
        }
    }

    /// The state once a receiver leaves the parked ones, if it was parked.
    pub open spec fn unparked(self, was_parked: bool) -> QueueView<T> {
        if was_parked {
            self.with_parked((self.parked - 1) as nat)
        } else {
            self
        }
    }

    /// One step of a receive that waits until `expired`, by a receiver that
    /// is parked already or not: a receiver that blocks stays or becomes
    /// parked, one that finishes leaves. A parked receiver also takes a value
    /// handed to it. A closed channel is reported before a timeout, and only
    /// once drained.
    pub open spec fn recv_step_spec(self, was_parked: bool, expired: bool) -> (QueueView<T>, RecvStep<T>) {
        if self.items.len() > 0 {
            (
                self.with_items(self.items.drop_first()).unparked(was_parked),
                RecvStep::Received(self.items[0]),
            )
        } else if was_parked && self.handed.len() > 0 {
            (
                self.with_handed(self.handed.drop_first()).unparked(true),
                RecvStep::Received(self.handed[0]),
            )
        } else if self.closed {
            (self.unparked(was_parked), RecvStep::Failed(RecvTimeoutError::Disconnected))
        } else if expired {
            (self.unparked(was_parked), RecvStep::Failed(RecvTimeoutError::Timeout))
        } else if was_parked {
            (self, RecvStep::Blocked)
        } else {
            (self.with_parked(self.parked + 1), RecvStep::Blocked)
        }
    }

    /// Dropping one `Sender`: the new state, and whether it was the last one,
    /// in which case the channel closes.
    pub open spec fn release_sender_spec(self) -> (QueueView<T>, bool) {
        let last = self.senders == 1;
        let q = self.with_senders((self.senders - 1) as nat);
        (if last { q.close_spec().0 } else { q }, last)
    }

    /// Dropping one `Receiver`, symmetric to `release_sender_spec`.
    pub open spec fn release_receiver_spec(self) -> (QueueView<T>, bool) {
        let last = self.receivers == 1;
        let q = self.with_receivers((self.receivers - 1) as nat);
        (if last { q.close_spec().0 } else { q }, last)
    }
}

} // verus!
