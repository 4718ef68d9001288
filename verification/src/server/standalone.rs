//! A server that goes by an identifier of its own, and whose engine does not
//! collect.

use vstd::prelude::*;

use crate::common::NodeId;
use crate::crdt::or_set as sets;
use crate::crdt::or_set::{OpModel, OrSet, OrSetOp};
use crate::crdt_engine as engines;
use crate::crdt_engine::{CrdtEngine, EngineModel};
use crate::dissemination::PullPeriodic;
use crate::engine::PullResponse;
use crate::logical_clocks::dot_version_vector as dots;
use crate::logical_clocks::dot_version_vector::{DotModel, DvvModel};
use crate::logical_clocks::version_vector as clocks;
use crate::logical_clocks::version_vector::VersionVector;
use crate::peers::peer_registry::{PeerHandle, PeerRegistry};
use crate::proto::proto_client_command::Command;
use crate::proto::{Envelope, ProtoOrSetDelta};
use crate::random;
use crate::random::random_id;
use crate::time::Interval;

verus! {

/// A server with a random identifier.
pub struct Server {
    pub node_id: NodeId,
    pub node_name: String,
    pub listen_addr: String,
    pub advertise_addr: String,
    /// Where clients connect, if they may.
    pub client_addr: Option<String>,
    pub gc_prefix: String,
    pub gc_initiate_interval: Interval,
    pub gc_observe_interval: Interval,
    pub gc_cleanup_interval: Interval,
}

impl Server {
    pub fn new(
        listen_addr: String,
        advertise_addr: String,
        node_name: &str,
        client_addr: Option<String>,
        gc_prefix: String,
        gc_initiate_interval: Interval,
        gc_observe_interval: Interval,
        gc_cleanup_interval: Interval,
    ) -> (r: Self)
        ensures
            random::is_random_id(r.node_id@),
            r.node_name@ == node_name@,
            r.listen_addr == listen_addr,
            r.advertise_addr == advertise_addr,
            r.client_addr == client_addr,
            r.gc_prefix == gc_prefix,
            r.gc_initiate_interval == gc_initiate_interval,
            r.gc_observe_interval == gc_observe_interval,
            r.gc_cleanup_interval == gc_cleanup_interval,
    {
        Server {
            node_id: random_id(),
            node_name: node_name.to_owned(),
            listen_addr,
            advertise_addr,
            client_addr,
            gc_prefix,
            gc_initiate_interval,
            gc_observe_interval,
            gc_cleanup_interval,
        }
    }

    /// The engine of the server: an empty set of texts that asks its peers
    /// every second.
    pub fn engine(&self) -> (r: Engine)
        ensures
            r@ == (EngineModel {
                node_id: self.node_id@,
                crdt_id: "default-orset"@,
                state: sets::empty_set::<Seq<char>>(),
                dvv: DvvModel {
                    dot: DotModel { node_id: self.node_id@, counter: 0 },
                    context: Map::empty(),
                },
            }),
            r.dissemination.interval == (Interval { nanos: 1_000_000_000 }),
    {
        CrdtEngine::new(
            self.node_id.clone(),
            "default-orset".to_owned(),
            OrSet::new(),
            PullPeriodic::new(Interval::from_secs(1)),
        )
    }
}

/// The engine of such a server.
pub type Engine = CrdtEngine<OrSet<String>, PullPeriodic>;

// ── Peers ───────────────────────────────────────────────────────────────

/// What a peer asks of the engine, the bytes in it read.
pub enum PeerWork {
    /// Merge a delta: the data type instance, the delta when it was one.
    Merge(String, Option<ProtoOrSetDelta>),
    /// Answer a clock: who sent it, the data type instance, the clock.
    Answer(NodeId, String, VersionVector),
}

/// What is to be done about it.
pub enum PeerReply {
    /// Put these into the channels of the peers.
    Send(Vec<(PeerHandle, Envelope)>),
    /// Answer the peer, once the delta is encoded.
    Respond(NodeId, PullResponse<ProtoOrSetDelta>),
    /// Nothing: the message was for another data type instance.
    Ignore,
}

/// Do what a peer asks.
pub fn serve_peer(engine: &mut Engine, registry: &PeerRegistry, work: PeerWork) -> (r: PeerReply)
    ensures
        final(engine).dissemination == old(engine).dissemination,
        match work {
            PeerWork::Merge(crdt_id, delta) => {
                &&& final(engine)@ == engines::after_delta::<OrSet<String>>(
                    old(engine)@,
                    crdt_id@,
                    engines::message_value(delta),
                )
                &&& r matches PeerReply::Send(sent)
                &&& sent@.len() == 0
            },
            PeerWork::Answer(from, crdt_id, known) => {
                &&& final(engine)@ == old(engine)@
                &&& match r {
                    PeerReply::Respond(to, response) => {
                        &&& crdt_id@ == old(engine)@.crdt_id
                        &&& to@ == from@
                        &&& engines::answers::<OrSet<String>>(old(engine)@, known@, response)
                    },
                    PeerReply::Ignore => crdt_id@ != old(engine)@.crdt_id,
                    PeerReply::Send(_) => false,
                }
            },
        },
{
    match work {
        PeerWork::Merge(crdt_id, delta) => PeerReply::Send(
            engine.server_delta(registry, &crdt_id, &delta),
        ),
        PeerWork::Answer(from, crdt_id, known) => match engine.server_pull_request(
            &crdt_id,
            &known,
        ) {
            Some(response) => PeerReply::Respond(from, response),
            None => PeerReply::Ignore,
        },
    }
}

// ── Clients ─────────────────────────────────────────────────────────────

/// What is to be done about a client's command.
pub enum ClientReply {
    /// Put these into the channels of the peers, and tell the client.
    Tell(String, Vec<(PeerHandle, Envelope)>),
    /// Tell the client the state with its metadata.
    TellInternals,
}

/// The operation that a command asks for, if it asks for one.
pub open spec fn operation_in(command: Option<Command>) -> Option<OpModel<Seq<char>>> {
    match command {
        Some(Command::Add(value)) => Some(OpModel::Add(value@)),
        Some(Command::Remove(value)) => Some(OpModel::Remove(value@)),
        _ => None,
    }
}

/// The engine after a local write.
pub open spec fn written(
    e: EngineModel<sets::SetModel<Seq<char>>>,
    op: OpModel<Seq<char>>,
) -> EngineModel<sets::SetModel<Seq<char>>> {
    let dvv = dots::after_event(e.dvv);
    EngineModel { state: sets::applied(e.state, dvv.dot, op), dvv, ..e }
}

/// Perform a local write.
fn operate(engine: &mut Engine, registry: &PeerRegistry, op: OrSetOp<String>) -> (r: ClientReply)
    requires
        clocks::counter_of(dots::effective(old(engine)@.dvv), old(engine)@.dvv.dot.node_id)
            < u64::MAX,
    ensures
        final(engine).dissemination == old(engine).dissemination,
        final(engine)@ == written(old(engine)@, op@),
        r matches ClientReply::Tell(text, sent) && text@ == "ok"@ && sent@.len() == 0,
{
    let sent = engine.client_operation(registry, op);
    ClientReply::Tell("ok".to_owned(), sent)
}

/// Do what a client asks. A command that this server does not know is taken
/// for none.
pub fn serve_client(engine: &mut Engine, registry: &PeerRegistry, command: Option<Command>) -> (r:
    ClientReply)
    requires
        operation_in(command) is Some ==> clocks::counter_of(
            dots::effective(old(engine)@.dvv),
            old(engine)@.dvv.dot.node_id,
        ) < u64::MAX,
    ensures
        final(engine).dissemination == old(engine).dissemination,
        final(engine)@ == match operation_in(command) {
            Some(op) => written(old(engine)@, op),
            None => old(engine)@,
        },
        r is TellInternals <==> (command matches Some(Command::PrintInternals(_))),
        r matches ClientReply::Tell(text, sent) ==> sent@.len() == 0 && match command {
            Some(Command::Add(_)) | Some(Command::Remove(_)) => text@ == "ok"@,
            Some(Command::PrintState(_)) => sets::prints_as::<String>(old(engine)@.state, text@),
            _ => text@ == "error: empty command"@,
        },
{
    match command {
        Some(Command::Add(value)) => operate(engine, registry, OrSetOp::Add(value)),
        Some(Command::Remove(value)) => operate(engine, registry, OrSetOp::Remove(value)),
        Some(Command::PrintState(_)) => ClientReply::Tell(engine.print_state(), Vec::new()),
        Some(Command::PrintInternals(_)) => ClientReply::TellInternals,
        _ => ClientReply::Tell("error: empty command".to_owned(), Vec::new()),
    }
}

} // verus!
