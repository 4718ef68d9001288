//! Messages between replicas: what is said to whom, and how it is framed.

pub mod dissemination;
pub mod protocol;
pub mod simulated;
pub mod tcp_connection;

use vstd::prelude::*;

verus! {

/// A way for replicas to reach each other.
pub trait Network {
    /// May both of two replicas connect to each other?
    spec fn bidirectional(&self) -> bool;

    /// May both of two replicas connect to each other? Where not, only the
    /// one whose identifier comes first does.
    fn allow_bidirectional(&self) -> (r: bool)
        ensures
            r == self.bidirectional(),
    ;
}

} // verus!
