//! Names shared by every layer.

use vstd::prelude::*;

verus! {

/// Identifier of a replica.
pub type NodeId = String;

/// Per-replica event counter.
pub type Counter = u64;

/// The mathematical value of a version vector: replica to counter.
pub type ClockModel = Map<Seq<char>, u64>;

/// The mathematical value of a matrix clock: replica to version vector.
pub type MatrixModel = Map<Seq<char>, ClockModel>;

/// Do two identifiers name the same replica?
pub fn same_id(a: &NodeId, b: &NodeId) -> (r: bool)
    ensures
        r == (a@ == b@),
{
    *a == *b
}

} // verus!
