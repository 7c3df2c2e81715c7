//! Errors of the data operations. Every send error hands back the value that
//! could not be delivered.
use vstd::prelude::*;

verus! {

/// A blocking send failed: the channel is closed.
#[derive(Debug, PartialEq, Eq)]
pub struct SendError<T>(pub T);

/// A non-blocking send failed.
#[derive(Debug, PartialEq, Eq)]
pub enum TrySendError<T> {
    /// No room right now.
    Full(T),
    /// The channel is closed: no receiver can ever take the value.
    Disconnected(T),
}

/// A send with a deadline failed.
#[derive(Debug, PartialEq, Eq)]
pub enum SendTimeoutError<T> {
    /// The deadline passed before there was room.
    Timeout(T),
    /// The channel is closed.
    Disconnected(T),
}

/// A blocking receive failed: the channel is closed and drained.
#[derive(Debug, PartialEq, Eq)]
pub struct RecvError;

/// A non-blocking receive failed.
#[derive(Debug, PartialEq, Eq)]
pub enum TryRecvError {
    /// Nothing is buffered right now.
    Empty,
    /// The channel is closed and drained.
    Disconnected,
}

/// A receive with a deadline failed.
#[derive(Debug, PartialEq, Eq)]
pub enum RecvTimeoutError {
    /// The deadline passed before a value came.
    Timeout,
    /// The channel is closed and drained.
    Disconnected,
}

impl<T> SendTimeoutError<T> {
    /// The value that was not delivered.
    pub open spec fn payload(self) -> T {
        match self {
            SendTimeoutError::Timeout(v) => v,
            SendTimeoutError::Disconnected(v) => v,
        }
    }

    /// What a send without a deadline reports: a timeout cannot occur there,
    /// so both kinds collapse into a disconnection that keeps the value.
    pub fn into_send_error(self) -> (r: SendError<T>)
        ensures
            r.0 == self.payload(),
    {
        match self {
            SendTimeoutError::Timeout(v) => SendError(v),
            SendTimeoutError::Disconnected(v) => SendError(v),
        }
    }
}

impl RecvTimeoutError {
    /// What a receive without a deadline reports: any failure is a
    /// disconnection.
    pub fn into_recv_error(self) -> (r: RecvError) {
        RecvError
    }
}

} // verus!
