//! The messages that replicas and clients exchange.

pub mod crdt_op;
pub mod envelope;
pub mod proto_client_command;
pub mod proto_or_set_op;

use vstd::prelude::*;

use crate::common::{ClockModel, MatrixModel};
use crate::crdt::or_set::OpModel;
use crate::logical_clocks::dot_version_vector::DotModel;
use crate::logical_clocks::version_vector::VersionVector;
use crate::proto::crdt_op::KnowledgeMatrix;
use crate::proto::envelope::{Payload, PayloadModel};
use crate::proto::proto_client_command::{Command, CommandModel};
use crate::proto::proto_or_set_op::Op;

verus! {

// ── Vector clock ────────────────────────────────────────────────────────

/// A version vector in a message.
pub struct VectorClock {
    pub entries: VersionVector,
}

impl View for VectorClock {
    type V = ClockModel;

    open spec fn view(&self) -> ClockModel {
        self.entries@
    }
}

impl Clone for VectorClock {
    fn clone(&self) -> (r: Self)
        ensures
            r@ == self@,
    {
        VectorClock { entries: self.entries.clone() }
    }
}

/// The clock in an optional field.
pub open spec fn clock_field(c: Option<VectorClock>) -> Option<ClockModel> {
    match c {
        Some(v) => Some(v@),
        None => None,
    }
}

/// The matrix in an optional field.
pub open spec fn matrix_field(m: Option<KnowledgeMatrix>) -> Option<MatrixModel> {
    match m {
        Some(v) => Some(v@),
        None => None,
    }
}

// ── Envelope ────────────────────────────────────────────────────────────

/// The outermost message between replicas.
pub struct Envelope {
    pub payload: Option<Payload>,
}

impl View for Envelope {
    type V = Option<PayloadModel>;

    open spec fn view(&self) -> Option<PayloadModel> {
        match self.payload {
            Some(p) => Some(p@),
            None => None,
        }
    }
}

impl Clone for Envelope {
    fn clone(&self) -> (r: Self)
        ensures
            r@ == self@,
    {
        Envelope {
            payload: match &self.payload {
                Some(p) => Some(p.clone()),
                None => None,
            },
        }
    }
}

/// The mathematical value of a [`Handshake`].
pub struct HandshakeModel {
    pub node_id: Seq<char>,
    pub node_name: Seq<char>,
    pub version: u32,
    pub gc_replica: bool,
}

/// The first message on a connection.
pub struct Handshake {
    /// Globally unique replica identifier.
    pub node_id: String,
    /// Human-readable name.
    pub node_name: String,
    /// Protocol version.
    pub version: u32,
    pub gc_replica: bool,
}

impl View for Handshake {
    type V = HandshakeModel;

    open spec fn view(&self) -> HandshakeModel {
        HandshakeModel {
            node_id: self.node_id@,
            node_name: self.node_name@,
            version: self.version,
            gc_replica: self.gc_replica,
        }
    }
}

impl Clone for Handshake {
    fn clone(&self) -> (r: Self)
        ensures
            r@ == self@,
    {
        Handshake {
            node_id: self.node_id.clone(),
            node_name: self.node_name.clone(),
            version: self.version,
            gc_replica: self.gc_replica,
        }
    }
}

/// The mathematical value of a [`CrdtOp`].
pub struct CrdtOpModel {
    pub crdt_id: Seq<char>,
    pub payload: Seq<u8>,
    pub origin_node_id: Seq<char>,
    pub requester_knowledge: Option<ClockModel>,
    pub knowledge_matrix: Option<MatrixModel>,
}

/// A delta on its way to a peer.
pub struct CrdtOp {
    /// Which data type instance the delta is for.
    pub crdt_id: String,
    /// The encoded delta.
    pub payload: Vec<u8>,
    /// The sending replica.
    pub origin_node_id: String,
    /// When present, the receiver answers with a delta since this clock, as
    /// it would answer a pull request.
    pub requester_knowledge: Option<VectorClock>,
    /// What the sender knows of what other replicas have seen.
    pub knowledge_matrix: Option<KnowledgeMatrix>,
}

impl View for CrdtOp {
    type V = CrdtOpModel;

    open spec fn view(&self) -> CrdtOpModel {
        CrdtOpModel {
            crdt_id: self.crdt_id@,
            payload: self.payload@,
            origin_node_id: self.origin_node_id@,
            requester_knowledge: clock_field(self.requester_knowledge),
            knowledge_matrix: matrix_field(self.knowledge_matrix),
        }
    }
}

impl Clone for CrdtOp {
    fn clone(&self) -> (r: Self)
        ensures
            r@ == self@,
    {
        CrdtOp {
            crdt_id: self.crdt_id.clone(),
            payload: copy_bytes(&self.payload),
            origin_node_id: self.origin_node_id.clone(),
            requester_knowledge: match &self.requester_knowledge {
                Some(c) => Some(c.clone()),
                None => None,
            },
            knowledge_matrix: match &self.knowledge_matrix {
                Some(m) => Some(m.clone()),
                None => None,
            },
        }
    }
}

/// The mathematical value of a [`CrdtPullRequest`].
pub struct PullRequestModel {
    pub crdt_id: Seq<char>,
    pub origin_node_id: Seq<char>,
    pub knowledge: Option<ClockModel>,
    pub gc_replica: bool,
}

/// A request for the delta since the sender's clock.
pub struct CrdtPullRequest {
    /// Which data type instance is asked for.
    pub crdt_id: String,
    /// The requesting replica.
    pub origin_node_id: String,
    /// What the requesting replica has seen.
    pub knowledge: Option<VectorClock>,
    /// Does the requesting replica initiate garbage collections?
    pub gc_replica: bool,
}

impl View for CrdtPullRequest {
    type V = PullRequestModel;

    open spec fn view(&self) -> PullRequestModel {
        PullRequestModel {
            crdt_id: self.crdt_id@,
            origin_node_id: self.origin_node_id@,
            knowledge: clock_field(self.knowledge),
            gc_replica: self.gc_replica,
        }
    }
}

impl Clone for CrdtPullRequest {
    fn clone(&self) -> (r: Self)
        ensures
            r@ == self@,
    {
        CrdtPullRequest {
            crdt_id: self.crdt_id.clone(),
            origin_node_id: self.origin_node_id.clone(),
            knowledge: match &self.knowledge {
                Some(c) => Some(c.clone()),
                None => None,
            },
            gc_replica: self.gc_replica,
        }
    }
}

/// A copy of some bytes.
pub fn copy_bytes(bytes: &Vec<u8>) -> (r: Vec<u8>)
    ensures
        r@ == bytes@,
{
    let mut r: Vec<u8> = Vec::new();
    let mut i: usize = 0;
    while i < bytes.len()
        invariant
            i <= bytes.len(),
            r@ =~= bytes@.take(i as int),
        decreases bytes.len() - i,
    {
        r.push(bytes[i]);
        i += 1;
    }
    r
}

// ── Sets on the wire ────────────────────────────────────────────────────

/// One event.
pub struct ProtoDot {
    pub node_id: String,
    pub counter: u64,
}

impl View for ProtoDot {
    type V = DotModel;

    open spec fn view(&self) -> DotModel {
        DotModel { node_id: self.node_id@, counter: self.counter }
    }
}

/// The dot in an optional field.
pub open spec fn dot_field(d: Option<ProtoDot>) -> Option<DotModel> {
    match d {
        Some(v) => Some(v@),
        None => None,
    }
}

/// An encoded element with its dot.
pub struct ProtoElemDot {
    pub element: Vec<u8>,
    pub dot: Option<ProtoDot>,
}

impl View for ProtoElemDot {
    type V = (Seq<u8>, Option<DotModel>);

    open spec fn view(&self) -> (Seq<u8>, Option<DotModel>) {
        (self.element@, dot_field(self.dot))
    }
}

/// A tombstone: the dot of the addition and the dot of the removal.
pub struct ProtoDotPair {
    pub add_dot: Option<ProtoDot>,
    pub remove_dot: Option<ProtoDot>,
}

impl View for ProtoDotPair {
    type V = (Option<DotModel>, Option<DotModel>);

    open spec fn view(&self) -> (Option<DotModel>, Option<DotModel>) {
        (dot_field(self.add_dot), dot_field(self.remove_dot))
    }
}

/// The mathematical value of a [`ProtoOrSetDelta`].
pub struct WireDelta {
    pub adds: Seq<(Seq<u8>, Option<DotModel>)>,
    pub tombstones: Seq<(Option<DotModel>, Option<DotModel>)>,
    pub context: ClockModel,
    pub dot_node: Seq<char>,
    pub dot_counter: u64,
}

/// A delta of a set, with its elements encoded.
pub struct ProtoOrSetDelta {
    pub adds: Vec<ProtoElemDot>,
    pub tombstones: Vec<ProtoDotPair>,
    pub context: VersionVector,
    pub dot_node: String,
    pub dot_counter: u64,
}

impl View for ProtoOrSetDelta {
    type V = WireDelta;

    open spec fn view(&self) -> WireDelta {
        WireDelta {
            adds: self.adds@.map_values(|e: ProtoElemDot| e@),
            tombstones: self.tombstones@.map_values(|p: ProtoDotPair| p@),
            context: self.context@,
            dot_node: self.dot_node@,
            dot_counter: self.dot_counter,
        }
    }
}

/// An operation on a set, with its element encoded.
pub struct ProtoOrSetOp {
    pub op: Option<Op>,
}

impl View for ProtoOrSetOp {
    type V = Option<OpModel<Seq<u8>>>;

    open spec fn view(&self) -> Option<OpModel<Seq<u8>>> {
        match self.op {
            Some(op) => Some(op@),
            None => None,
        }
    }
}

// ── Client commands ─────────────────────────────────────────────────────

/// A command from a client.
pub struct ProtoClientCommand {
    pub command: Option<Command>,
}

impl View for ProtoClientCommand {
    type V = Option<CommandModel>;

    open spec fn view(&self) -> Option<CommandModel> {
        match self.command {
            Some(c) => Some(c@),
            None => None,
        }
    }
}

} // verus!
