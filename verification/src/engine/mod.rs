//! The replication engine: one replicated value, its vector, and what is said
//! to peers about it.

pub mod crdt_engine;
pub mod engine_inner;
pub mod laws;

use vstd::prelude::*;

use crate::logical_clocks::matrix_clock::MatrixClock;
use crate::logical_clocks::version_vector::VersionVector;

verus! {

/// What a replica has to say to a peer that sent its clock.
pub struct PullResponse<M> {
    /// What the peer misses.
    pub delta_payload: Option<M>,
    /// What other replicas are known to have seen.
    pub knowledge_matrix: Option<MatrixClock>,
    /// This replica's clock, when it misses something.
    pub our_knowledge_request: Option<VersionVector>,
}

} // verus!
