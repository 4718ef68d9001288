//! Parts of a delta message.

use vstd::prelude::*;

use crate::common::MatrixModel;
use crate::logical_clocks::matrix_clock::MatrixClock;

verus! {

/// What the sender knows of what other replicas have seen.
pub struct KnowledgeMatrix {
    pub entries: MatrixClock,
}

impl View for KnowledgeMatrix {
    type V = MatrixModel;

    open spec fn view(&self) -> MatrixModel {
        self.entries@
    }
}

impl Clone for KnowledgeMatrix {
    fn clone(&self) -> (r: Self)
        ensures
            r@ == self@,
    {
        KnowledgeMatrix { entries: self.entries.clone() }
    }
}

} // verus!
