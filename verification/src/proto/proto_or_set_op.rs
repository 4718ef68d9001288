//! What an operation message holds.

use vstd::prelude::*;

use crate::crdt::or_set::OpModel;

verus! {

/// An operation on a set, with its element encoded.
pub enum Op {
    AddElement(Vec<u8>),
    RemoveElement(Vec<u8>),
}

impl View for Op {
    type V = OpModel<Seq<u8>>;

    open spec fn view(&self) -> OpModel<Seq<u8>> {
        match self {
            Op::AddElement(bytes) => OpModel::Add(bytes@),
            Op::RemoveElement(bytes) => OpModel::Remove(bytes@),
        }
    }
}

} // verus!
