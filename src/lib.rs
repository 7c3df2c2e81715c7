//! Handle layer of a multi-flavor channel: the shared queue state that every
//! `Sender` and `Receiver` refers to, its three flavors, its reference counts
//! and its one-time close, with each transition stated and proved.
pub mod error;
pub mod flavor;
pub mod model;
pub mod queue;
pub mod laws;

pub use error::{RecvError, RecvTimeoutError, SendError, SendTimeoutError, TryRecvError, TrySendError};
pub use flavor::Flavor;
pub use model::{RecvStep, SendStep};
pub use queue::Queue;
