//! What an envelope holds.

use vstd::prelude::*;

use crate::proto::{
    CrdtOp, CrdtOpModel, CrdtPullRequest, Handshake, HandshakeModel, PullRequestModel,
};

verus! {

/// The mathematical value of a [`Payload`].
pub enum PayloadModel {
    Handshake(HandshakeModel),
    CrdtOp(CrdtOpModel),
    CrdtPullRequest(PullRequestModel),
}

/// The message in an envelope.
pub enum Payload {
    Handshake(Handshake),
    CrdtOp(CrdtOp),
    CrdtPullRequest(CrdtPullRequest),
}

impl View for Payload {
    type V = PayloadModel;

    open spec fn view(&self) -> PayloadModel {
        match self {
            Payload::Handshake(h) => PayloadModel::Handshake(h@),
            Payload::CrdtOp(op) => PayloadModel::CrdtOp(op@),
            Payload::CrdtPullRequest(r) => PayloadModel::CrdtPullRequest(r@),
        }
    }
}

impl Clone for Payload {
    fn clone(&self) -> (r: Self)
        ensures
            r@ == self@,
    {
        match self {
            Payload::Handshake(h) => Payload::Handshake(h.clone()),
            Payload::CrdtOp(op) => Payload::CrdtOp(op.clone()),
            Payload::CrdtPullRequest(r) => Payload::CrdtPullRequest(r.clone()),
        }
    }
}

} // verus!
