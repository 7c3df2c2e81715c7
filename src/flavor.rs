//! The three queue strategies, one of which a channel is bound to for life.
use vstd::prelude::*;

verus! {

/// Which queue strategy a channel uses.
#[derive(Debug, Clone, Copy, PartialEq, Eq, Structural)]
pub enum Flavor {
    /// A growable buffer: a send never waits for room.
    Unbounded,
    /// A buffer of the given size, which is never zero.
    Bounded(usize),
    /// No buffer: a value is handed directly to a receiver that waits for it.
    Rendezvous,
}

impl Flavor {
    /// A bounded flavor always has room for at least one value.
    pub open spec fn wf(self) -> bool {
        self matches Flavor::Bounded(n) ==> n > 0
    }

    /// The buffer size: `None` for unbounded.
    pub open spec fn capacity_spec(self) -> Option<usize> {
        match self {
            Flavor::Unbounded => None,
            Flavor::Bounded(n) => Some(n),
            Flavor::Rendezvous => Some(0usize),
        }
    }

    /// The flavor a bounded channel of the given size uses: a size of zero
    /// asks for a rendezvous.
    pub open spec fn for_size_spec(size: usize) -> Flavor {
        if size == 0 {
            Flavor::Rendezvous
        } else {
            Flavor::Bounded(size)
        }
    }

    pub fn for_size(size: usize) -> (r: Flavor)
        ensures
            r == Flavor::for_size_spec(size),
            r.wf(),
            r.capacity_spec() == Some(size),
    {
        if size == 0 {
            Flavor::Rendezvous
        } else {
            Flavor::Bounded(size)
        }
    }

    pub fn capacity(&self) -> (r: Option<usize>)
        ensures
            r == self.capacity_spec(),
    {
        match self {
            Flavor::Unbounded => None,
            Flavor::Bounded(n) => Some(*n),
            Flavor::Rendezvous => Some(0),
        }
    }
}

} // verus!
