//! What the messages of peers ask of the engine.

use vstd::prelude::*;

use crate::common::{ClockModel, MatrixModel, NodeId};
use crate::logical_clocks::matrix_clock::MatrixClock;
use crate::logical_clocks::version_vector::VersionVector;
use crate::network::dissemination as sending;
use crate::proto::envelope::{Payload, PayloadModel};
use crate::proto::{CrdtOpModel, Envelope, PullRequestModel};

verus! {

/// The mathematical value of a [`PeerRequest`].
pub enum PeerRequestModel {
    Delta(Seq<char>, Seq<char>, Seq<u8>, Option<MatrixModel>),
    Pull(Seq<char>, Seq<char>, ClockModel),
}

/// What a peer asks of the engine.
pub enum PeerRequest {
    /// Merge a delta: who sent it, the data type instance, the bytes, what
    /// other replicas are known to have seen.
    Delta(NodeId, String, Vec<u8>, Option<MatrixClock>),
    /// Answer a clock: who sent it, the data type instance, the clock.
    Pull(NodeId, String, VersionVector),
}

impl View for PeerRequest {
    type V = PeerRequestModel;

    open spec fn view(&self) -> PeerRequestModel {
        match self {
            PeerRequest::Delta(origin, crdt_id, payload, matrix) => PeerRequestModel::Delta(
                origin@,
                crdt_id@,
                payload@,
                sending::matrix_value(*matrix),
            ),
            PeerRequest::Pull(origin, crdt_id, knowledge) => PeerRequestModel::Pull(
                origin@,
                crdt_id@,
                knowledge@,
            ),
        }
    }
}

/// The values of a list of requests.
pub open spec fn request_values(v: Seq<PeerRequest>) -> Seq<PeerRequestModel> {
    v.map_values(|r: PeerRequest| r@)
}

/// What a message asks of the engine, in this order. A delta that comes with
/// the clock of its sender asks for an answer too, also when the sender has
/// seen nothing; a request without a clock is taken to have seen nothing.
pub open spec fn requests_in(message: Option<PayloadModel>) -> Seq<PeerRequestModel> {
    match message {
        Some(PayloadModel::CrdtOp(op)) => {
            let delta = PeerRequestModel::Delta(
                op.origin_node_id,
                op.crdt_id,
                op.payload,
                op.knowledge_matrix,
            );
            match op.requester_knowledge {
                Some(clock) => seq![
                    delta,
                    PeerRequestModel::Pull(op.origin_node_id, op.crdt_id, clock),
                ],
                None => seq![delta],
            }
        },
        Some(PayloadModel::CrdtPullRequest(req)) => seq![
            PeerRequestModel::Pull(
                req.origin_node_id,
                req.crdt_id,
                match req.knowledge {
                    Some(clock) => clock,
                    None => Map::empty(),
                },
            ),
        ],
        _ => Seq::empty(),
    }
}

/// What a message asks of the engine.
pub fn handle_received_envelope(envelope: Envelope) -> (r: Vec<PeerRequest>)
    ensures
        request_values(r@) == requests_in(envelope@),
{
    let mut r: Vec<PeerRequest> = Vec::new();
    match envelope.payload {
        Some(Payload::CrdtOp(op)) => {
            let matrix = match op.knowledge_matrix {
                Some(m) => Some(m.entries),
                None => None,
            };
            let origin = op.origin_node_id.clone();
            let crdt_id = op.crdt_id.clone();
            r.push(PeerRequest::Delta(op.origin_node_id, op.crdt_id, op.payload, matrix));
            if let Some(clock) = op.requester_knowledge {
                r.push(PeerRequest::Pull(origin, crdt_id, clock.entries));
            }
        },
        Some(Payload::CrdtPullRequest(req)) => {
            let knowledge = match req.knowledge {
                Some(clock) => clock.entries,
                None => VersionVector::new(),
            };
            r.push(PeerRequest::Pull(req.origin_node_id, req.crdt_id, knowledge));
        },
        _ => {},
    }
    assert(request_values(r@) =~= requests_in(envelope@));
    r
}

/// A delta is handed to the engine just as it came: who sent it, for which
/// instance, its bytes and the matrix with it. If its sender's clock came with
/// it, that is answered after the delta is merged.
pub proof fn law_delta_is_handed_on(op: CrdtOpModel)
    ensures
        requests_in(Some(PayloadModel::CrdtOp(op))).len() == if op.requester_knowledge is Some {
            2nat
        } else {
            1nat
        },
        requests_in(Some(PayloadModel::CrdtOp(op)))[0] == PeerRequestModel::Delta(
            op.origin_node_id,
            op.crdt_id,
            op.payload,
            op.knowledge_matrix,
        ),
        op.requester_knowledge is Some ==> requests_in(Some(PayloadModel::CrdtOp(op)))[1]
            == PeerRequestModel::Pull(op.origin_node_id, op.crdt_id, op.requester_knowledge->0),
{
}

/// A clock is answered once, for its sender and instance; one that is missing
/// counts as having seen nothing.
pub proof fn law_clock_is_answered(req: PullRequestModel)
    ensures
        requests_in(Some(PayloadModel::CrdtPullRequest(req))).len() == 1,
        requests_in(Some(PayloadModel::CrdtPullRequest(req)))[0] is Pull,
        requests_in(Some(PayloadModel::CrdtPullRequest(req)))[0]->Pull_0 == req.origin_node_id,
        requests_in(Some(PayloadModel::CrdtPullRequest(req)))[0]->Pull_1 == req.crdt_id,
        req.knowledge is Some ==> requests_in(
            Some(PayloadModel::CrdtPullRequest(req)),
        )[0]->Pull_2 == req.knowledge->0,
        req.knowledge is None ==> forall|n: Seq<char>|
            !requests_in(Some(PayloadModel::CrdtPullRequest(req)))[0]->Pull_2.contains_key(n),
{
}

/// Nothing else asks anything of the engine.
pub proof fn law_other_messages_ask_nothing(message: Option<PayloadModel>)
    requires
        message is None || message->0 is Handshake,
    ensures
        requests_in(message).len() == 0,
{
}

/// What one replica answers another is understood: the receiver merges the
/// delta and answers the clock that the sender put into it.
pub proof fn law_answer_is_understood(
    asks_back: bool,
    crdt_id: Seq<char>,
    origin: Seq<char>,
    delta: Option<Seq<u8>>,
    gc_replica: bool,
    knowledge_matrix: Option<MatrixModel>,
    our_knowledge: Option<ClockModel>,
)
    ensures
        ({
            let asked = requests_in(
                sending::answer_to_pull(
                    asks_back,
                    crdt_id,
                    origin,
                    delta,
                    gc_replica,
                    knowledge_matrix,
                    our_knowledge,
                ),
            );
            &&& delta is Some ==> asked.len() > 0 && asked[0] == PeerRequestModel::Delta(
                origin,
                crdt_id,
                delta->0,
                knowledge_matrix,
            )
            &&& asks_back && our_knowledge is Some ==> asked.len() > 0 && asked.last()
                == PeerRequestModel::Pull(origin, crdt_id, our_knowledge->0)
            &&& delta is None && (our_knowledge is None || !asks_back) ==> asked.len() == 0
        }),
{
}

} // verus!
