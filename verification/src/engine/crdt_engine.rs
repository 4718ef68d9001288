//! The engine: requests in, messages and answers out.
//!
//! All requests to one engine are handled one after the other. What needs the
//! outside (sending, the records of garbage collections) is handed back.

use vstd::prelude::*;

use crate::common::{same_id, ClockModel, Counter, NodeId};
use crate::crdt::{DeltaContext, DeltaCrdt};
use crate::engine::engine_inner as inners;
use crate::engine::engine_inner::EngineInner;
use crate::engine::PullResponse;
use crate::gc::coordinator as gc;
use crate::gc::coordinator::{
    BootstrapEvent, BootstrapStep, CoordinatorModel, GcCoordinator, InitiationEvent,
    InitiationStep, ReplicaModel,
};
use crate::gc::storage::EpochMetadata;
use crate::gc::GcConfig;
use crate::logical_clocks::dot_version_vector as dots;
use crate::logical_clocks::dot_version_vector::{DotModel, DotVersionVector, DvvModel};
use crate::logical_clocks::matrix_clock as matrices;
use crate::logical_clocks::matrix_clock::MatrixClock;
use crate::logical_clocks::version_vector as clocks;
use crate::logical_clocks::version_vector::VersionVector;
use crate::network::dissemination as sending;
use crate::network::dissemination::DisseminationStrategy;
use crate::peers::peer_registry::{PeerHandle, PeerRegistry};
use crate::proto::Envelope;
use crate::random::random_between;
use crate::time::{Interval, MAX_NANOS};

verus! {

/// A request to an engine.
pub enum CrdtEngineRequest<C: DeltaCrdt> {
    /// Ask every peer for what this replica misses.
    DoPullRound,
    /// Perform a local write.
    ClientOperation(C::Op),
    PrintState,
    PrintInternals,
    PrintMatrix,
    GetRandomElement,
    /// A peer sent its clock: its identifier, the data type instance, the
    /// clock.
    DeltaRequest(NodeId, String, VersionVector),
    /// A peer sent a delta: its identifier, the data type instance, the delta
    /// when it was one, what other replicas are known to have seen.
    DeltaResponse(NodeId, String, Option<C::DeltaMessage>, Option<MatrixClock>),
    /// The last word of a departing replica.
    DeregistrationState,
    InitiateGc,
    ObserveEpochChange,
    LogCrdtMetrics,
}

/// What is to be done about a request.
pub enum CrdtEngineReply<M> {
    /// Put these into the channels of the peers.
    Send(Vec<(PeerHandle, Envelope)>),
    /// Tell the one who asked.
    Tell(String),
    /// Tell the one who asked the state with its metadata.
    TellInternals,
    /// Answer the peer, once the delta is encoded.
    Respond(NodeId, PullResponse<M>),
    /// Nothing: the request was for another data type instance.
    Ignore,
    /// The number of the last event, and the full state.
    Final(Counter, M),
    /// Begin a collection, with this step first.
    Initiate(InitiationStep<M>),
    /// Read the record of the latest epoch, and observe it.
    ReadMetadata,
    /// Record the metrics of the state, in this epoch.
    LogMetrics(u64),
}

/// What an engine says when it is asked for an element and has none.
pub open spec fn no_element() -> Seq<char> {
    "error: empty crdt"@
}

/// The engine of one replica for one replicated value.
pub struct CrdtEngine<C: DeltaCrdt, S: DisseminationStrategy> {
    pub node_id: NodeId,
    pub crdt_id: String,
    pub dissemination: S,
    pub inner: EngineInner<C>,
}

/// Has the strategy counted up to `rounds`, and is it else the same?
pub open spec fn strategy_at<C: DeltaCrdt, S: DisseminationStrategy>(
    before: CrdtEngine<C, S>,
    after: CrdtEngine<C, S>,
    rounds: usize,
) -> bool {
    &&& after.dissemination.pull_every() == before.dissemination.pull_every()
    &&& after.dissemination.rounds() == rounds
}

/// The rounds of an engine's strategy after a change was advertised, where it
/// pushes.
pub open spec fn rounds_after_push<C: DeltaCrdt, S: DisseminationStrategy>(
    before: CrdtEngine<C, S>,
    registry: PeerRegistry,
) -> usize {
    if S::pushes() {
        sending::round_after(registry, before.dissemination.rounds())
    } else {
        before.dissemination.rounds()
    }
}

/// Are the two the same but for their strategies?
pub open spec fn same_replica<C: DeltaCrdt, S: DisseminationStrategy>(
    a: CrdtEngine<C, S>,
    b: CrdtEngine<C, S>,
) -> bool {
    &&& a.node_id@ == b.node_id@
    &&& a.crdt_id@ == b.crdt_id@
    &&& a.inner.crdt@ == b.inner.crdt@
    &&& a.inner.dvv@ == b.inner.dvv@
    &&& a.inner.gc@ == b.inner.gc@
    &&& a.inner.gc.settings() == b.inner.gc.settings()
}

/// Was the clock `knowledge` of the engine advertised as its strategy does
/// after a change?
pub open spec fn advertised<C: DeltaCrdt, S: DisseminationStrategy>(
    e: CrdtEngine<C, S>,
    registry: PeerRegistry,
    sent: Seq<(PeerHandle, Envelope)>,
) -> bool {
    if S::pushes() {
        sending::asks(
            S::pushes_to_all(),
            registry,
            sent,
            e.crdt_id@,
            e.node_id@,
            e.inner.gc@.matrix is Some,
            dots::effective(e.inner.dvv@),
        )
    } else {
        sent.len() == 0
    }
}

/// The replica of an engine.
pub open spec fn replica<C: DeltaCrdt, S: DisseminationStrategy>(
    e: CrdtEngine<C, S>,
) -> ReplicaModel<C::V> {
    ReplicaModel { gc: e.inner.gc@, state: e.inner.crdt@, dvv: e.inner.dvv@ }
}

/// Is the delta for this engine, and can it be read?
pub open spec fn accepts<C: DeltaCrdt, S: DisseminationStrategy>(
    e: CrdtEngine<C, S>,
    crdt_id: Seq<char>,
    payload: Option<C::DeltaMessage>,
) -> bool {
    crdt_id == e.crdt_id@ && payload is Some && C::read_delta(payload->0@) is Ok
}

impl<C: DeltaCrdt, S: DisseminationStrategy> CrdtEngine<C, S> {
    pub fn new(
        node_id: NodeId,
        crdt_id: String,
        crdt: C,
        dissemination: S,
        config: GcConfig,
    ) -> (r: Self)
        ensures
            r.node_id@ == node_id@,
            r.crdt_id@ == crdt_id@,
            r.dissemination == dissemination,
            r.inner.crdt@ == crdt@,
            r.inner.dvv@ == (DvvModel {
                dot: DotModel { node_id: node_id@, counter: 0 },
                context: Map::empty(),
            }),
            r.inner.gc.settings() == config,
            r.inner.gc@ == (CoordinatorModel {
                epoch: 0,
                matrix: if config.gc_replica {
                    Some(Map::empty())
                } else {
                    None
                },
            }),
    {
        let dvv = DotVersionVector::new(node_id.clone());
        let gc = GcCoordinator::new(config);
        CrdtEngine { node_id, crdt_id, dissemination, inner: EngineInner { crdt, dvv, gc } }
    }

    /// Perform a local write, and advertise the new clock.
    pub fn client_operation(&mut self, registry: &PeerRegistry, op: C::Op) -> (r: Vec<
        (PeerHandle, Envelope),
    >)
        requires
            clocks::counter_of(
                dots::effective(old(self).inner.dvv@),
                old(self).inner.dvv@.dot.node_id,
            ) < u64::MAX,
        ensures
            wrote(*old(self), *registry, op@, *final(self), r@),
    {
        self.inner.client_operation(op);
        let knowledge = self.inner.dvv.effective_map();
        self.dissemination.push_version_vector(
            registry,
            &self.node_id,
            self.crdt_id.as_str(),
            self.inner.gc.gc_replica(),
            &knowledge,
        )
    }

    /// Merge what a peer sent, and advertise the new clock. What is for
    /// another data type instance, or is no delta, is ignored.
    pub fn server_delta(
        &mut self,
        registry: &PeerRegistry,
        crdt_id: &String,
        payload: &Option<C::DeltaMessage>,
        knowledge_matrix: &Option<MatrixClock>,
    ) -> (r: Vec<(PeerHandle, Envelope)>)
        ensures
            merged_in(
                *old(self),
                *registry,
                crdt_id@,
                *payload,
                *knowledge_matrix,
                *final(self),
                r@,
            ),
    {
        if !same_id(crdt_id, &self.crdt_id) {
            return Vec::new();
        }
        let message = match payload {
            Some(m) => m,
            None => {
                return Vec::new();
            },
        };
        if !self.inner.handle_remote_delta(message) {
            return Vec::new();
        }
        if let Some(matrix) = knowledge_matrix {
            self.inner.gc.update_matrix_clock(matrix);
        }
        let knowledge = self.inner.dvv.effective_map();
        self.dissemination.on_post_merge(
            registry,
            &self.node_id,
            self.crdt_id.as_str(),
            self.inner.gc.gc_replica(),
            &knowledge,
        )
    }

    /// Answer a peer that sent its clock; none when it is for another data
    /// type instance.
    pub fn server_pull_request(
        &mut self,
        registry: &PeerRegistry,
        from_node: &NodeId,
        crdt_id: &String,
        remote_knowledge: &VersionVector,
    ) -> (r: Option<PullResponse<C::DeltaMessage>>)
        ensures
            answered(
                *old(self),
                *registry,
                from_node@,
                crdt_id@,
                remote_knowledge@,
                *final(self),
                r,
            ),
    {
        if !same_id(crdt_id, &self.crdt_id) {
            return None;
        }
        Some(self.inner.server_pull_request(registry, from_node, remote_knowledge))
    }

    /// Hand an answer to the strategy, the delta in it encoded.
    pub fn respond_to_pull_request(
        &mut self,
        registry: &PeerRegistry,
        from_node: &NodeId,
        delta_payload: Option<Vec<u8>>,
        knowledge_matrix: Option<MatrixClock>,
        our_knowledge_request: Option<VersionVector>,
    ) -> (r: Option<(PeerHandle, Envelope)>)
        ensures
            same_replica(*final(self), *old(self)),
            strategy_at(
                *old(self),
                *final(self),
                if S::asks_back() && our_knowledge_request is Some {
                    sending::next_round(old(self).dissemination.rounds())
                } else {
                    old(self).dissemination.rounds()
                },
            ),
            sending::sent_to(
                registry@,
                from_node@,
                r,
                sending::answer_to_pull(
                    S::asks_back(),
                    old(self).crdt_id@,
                    old(self).node_id@,
                    sending::bytes_value(delta_payload),
                    old(self).inner.gc@.matrix is Some,
                    sending::matrix_value(knowledge_matrix),
                    sending::clock_value(our_knowledge_request),
                ),
            ),
    {
        self.dissemination.respond_to_pull_request(
            registry,
            from_node,
            self.crdt_id.as_str(),
            &self.node_id,
            delta_payload,
            self.inner.gc.gc_replica(),
            knowledge_matrix,
            our_knowledge_request,
        )
    }

    /// Ask every peer for what this replica misses.
    pub fn do_pull_round(&mut self, registry: &PeerRegistry) -> (r: Vec<(PeerHandle, Envelope)>)
        ensures
            pulled(*old(self), *registry, *final(self), r@),
    {
        let knowledge = self.inner.dvv.effective_map();
        self.dissemination.do_pull_round(
            registry,
            &self.node_id,
            self.crdt_id.as_str(),
            self.inner.gc.gc_replica(),
            &knowledge,
        )
    }

    /// Catch up with the latest epoch, as its record tells; was there a new
    /// one?
    pub fn observe_epoch_change(&mut self, metadata: &EpochMetadata) -> (r: bool)
        ensures
            final(self).node_id@ == old(self).node_id@,
            final(self).crdt_id@ == old(self).crdt_id@,
            final(self).dissemination == old(self).dissemination,
            final(self).inner.gc.settings() == old(self).inner.gc.settings(),
            r == (metadata.epoch > old(self).inner.gc@.epoch),
            !r ==> same_replica(*final(self), *old(self)),
            r ==> replica(*final(self)) == (ReplicaModel {
                gc: CoordinatorModel {
                    epoch: metadata.epoch,
                    matrix: match old(self).inner.gc@.matrix {
                        Some(m) => Some(gc::matrix_without(m, metadata@.obsolete_dots)),
                        None => None,
                    },
                },
                state: C::after_gc(
                    old(self).inner.crdt@,
                    dots::with_clock(old(self).node_id@, metadata.v_stable@),
                ),
                dvv: gc::dvv_without(old(self).inner.dvv@, metadata@.obsolete_dots),
            }),
            gc::epoch_observed::<C>(
                old(self).node_id@,
                replica(*old(self)),
                metadata@,
                replica(*final(self)),
                r,
            ),
    {
        self.inner.gc.observe_epoch_change(
            metadata,
            &self.node_id,
            &mut self.inner.crdt,
            &mut self.inner.dvv,
        )
    }

    /// Go on beginning a collection: what came of a step leads to the next.
    pub fn initiate_gc(
        &mut self,
        step: InitiationStep<C::DeltaMessage>,
        event: InitiationEvent,
    ) -> (r: InitiationStep<C::DeltaMessage>)
        requires
            event matches InitiationEvent::Metadata(m) ==> m.epoch < u64::MAX,
        ensures
            final(self).node_id@ == old(self).node_id@,
            final(self).crdt_id@ == old(self).crdt_id@,
            final(self).dissemination == old(self).dissemination,
            final(self).inner.gc.settings() == old(self).inner.gc.settings(),
            gc::initiation_follows::<C>(
                old(self).node_id@,
                replica(*old(self)),
                step@,
                event@,
                replica(*final(self)),
                r@,
            ),
    {
        self.inner.gc.initiate_gc(
            step,
            event,
            &self.node_id,
            &mut self.inner.crdt,
            &mut self.inner.dvv,
        )
    }

    /// Go on joining as a new replica: what came of a step leads to the next.
    pub fn new_replica_bootstrap(
        &mut self,
        step: BootstrapStep,
        event: BootstrapEvent<C::DeltaMessage>,
    ) -> (r: BootstrapStep)
        ensures
            final(self).node_id@ == old(self).node_id@,
            final(self).crdt_id@ == old(self).crdt_id@,
            final(self).dissemination == old(self).dissemination,
            final(self).inner.gc.settings() == old(self).inner.gc.settings(),
            r@ == gc::bootstrap_next::<C>(step@, event@),
            replica(*final(self)) == gc::bootstrap_after::<C>(
                old(self).node_id@,
                replica(*old(self)),
                step@,
                event@,
            ),
    {
        self.inner.gc.new_replica_bootstrap(
            step,
            event,
            &self.node_id,
            &mut self.inner.crdt,
            &mut self.inner.dvv,
        )
    }

    /// The last word of a departing replica: the number of its last event,
    /// and its full state.
    pub fn get_final_state_for_deregistration(&self) -> (r: (Counter, C::DeltaMessage))
        ensures
            last_word::<C>(self.inner.crdt@, self.inner.dvv@, r.0, r.1@),
    {
        let full = self.inner.crdt.full_state(&self.inner.dvv);
        let (_, _, final_dot) = full.causal_context();
        let message = C::encode_delta(&full);
        assert(C::is_full_state(self.inner.crdt@, self.inner.dvv@, full@));
        (final_dot, message)
    }

    /// The name of some element, or that there is none.
    pub fn get_random_element(&self) -> (r: String)
        ensures
            offers::<C>(self.inner.crdt@, r@),
    {
        match self.inner.crdt.get_random_element() {
            Some(element) => element,
            None => "error: empty crdt".to_owned(),
        }
    }

    pub fn print_state(&self) -> (r: String)
        ensures
            C::shows(self.inner.crdt@, r@),
    {
        self.inner.crdt.print_state()
    }

    pub fn print_matrix_clock(&self) -> (r: String)
        ensures
            gc::shows_matrix(self.inner.gc@.matrix, r@),
    {
        self.inner.gc.print_matrix_clock()
    }

    /// Does the request tell the coordinator what a replica has seen, so that
    /// its metrics are to be recorded?
    pub fn informs_coordinator(&self, request: &CrdtEngineRequest<C>) -> (r: bool)
        ensures
            r == match *request {
                CrdtEngineRequest::DeltaRequest(_, crdt_id, _) => crdt_id@ == self.crdt_id@,
                CrdtEngineRequest::DeltaResponse(_, crdt_id, payload, matrix) => matrix is Some
                    && accepts(*self, crdt_id@, payload),
                _ => false,
            },
    {
        match request {
            CrdtEngineRequest::DeltaRequest(_, crdt_id, _) => same_id(crdt_id, &self.crdt_id),
            CrdtEngineRequest::DeltaResponse(_, crdt_id, Some(message), Some(_)) => {
                same_id(crdt_id, &self.crdt_id) && C::decode_delta(message).is_ok()
            },
            _ => false,
        }
    }

    /// Handle one request.
    pub fn handle(&mut self, registry: &PeerRegistry, request: CrdtEngineRequest<C>) -> (r:
        CrdtEngineReply<C::DeltaMessage>)
        requires
            request is ClientOperation ==> clocks::counter_of(
                dots::effective(old(self).inner.dvv@),
                old(self).inner.dvv@.dot.node_id,
            ) < u64::MAX,
        ensures
            handled(*old(self), *registry, request, *final(self), r),
    {
        match request {
            CrdtEngineRequest::DoPullRound => CrdtEngineReply::Send(self.do_pull_round(registry)),
            CrdtEngineRequest::ClientOperation(op) => CrdtEngineReply::Send(
                self.client_operation(registry, op),
            ),
            CrdtEngineRequest::PrintState => CrdtEngineReply::Tell(self.print_state()),
            CrdtEngineRequest::PrintInternals => CrdtEngineReply::TellInternals,
            CrdtEngineRequest::PrintMatrix => CrdtEngineReply::Tell(self.print_matrix_clock()),
            CrdtEngineRequest::GetRandomElement => CrdtEngineReply::Tell(
                self.get_random_element(),
            ),
            CrdtEngineRequest::DeltaRequest(from_node, crdt_id, knowledge) => {
                match self.server_pull_request(registry, &from_node, &crdt_id, &knowledge) {
                    Some(response) => CrdtEngineReply::Respond(from_node, response),
                    None => CrdtEngineReply::Ignore,
                }
            },
            CrdtEngineRequest::DeltaResponse(_from_node, crdt_id, payload, knowledge_matrix) => {
                CrdtEngineReply::Send(
                    self.server_delta(registry, &crdt_id, &payload, &knowledge_matrix),
                )
            },
            CrdtEngineRequest::DeregistrationState => {
                let (final_dot, final_state) = self.get_final_state_for_deregistration();
                CrdtEngineReply::Final(final_dot, final_state)
            },
            CrdtEngineRequest::InitiateGc => CrdtEngineReply::Initiate(
                InitiationStep::ReadMetadata,
            ),
            CrdtEngineRequest::ObserveEpochChange => CrdtEngineReply::ReadMetadata,
            CrdtEngineRequest::LogCrdtMetrics => CrdtEngineReply::LogMetrics(
                self.inner.gc.epoch(),
            ),
        }
    }
}

/// A local write at an engine, and the messages that advertise it.
pub open spec fn wrote<C: DeltaCrdt, S: DisseminationStrategy>(
    before: CrdtEngine<C, S>,
    registry: PeerRegistry,
    op: <C::Op as View>::V,
    after: CrdtEngine<C, S>,
    sent: Seq<(PeerHandle, Envelope)>,
) -> bool {
    &&& after.node_id@ == before.node_id@
    &&& after.crdt_id@ == before.crdt_id@
    &&& after.inner.gc == before.inner.gc
    &&& after.inner.dvv@ == dots::after_event(before.inner.dvv@)
    &&& after.inner.crdt@ == C::after_local(before.inner.crdt@, after.inner.dvv@.dot, op)
    &&& strategy_at(before, after, rounds_after_push(before, registry))
    &&& advertised(after, registry, sent)
}

/// A merge at an engine, and the messages that advertise it.
pub open spec fn merged_in<C: DeltaCrdt, S: DisseminationStrategy>(
    before: CrdtEngine<C, S>,
    registry: PeerRegistry,
    crdt_id: Seq<char>,
    payload: Option<C::DeltaMessage>,
    knowledge_matrix: Option<MatrixClock>,
    after: CrdtEngine<C, S>,
    sent: Seq<(PeerHandle, Envelope)>,
) -> bool {
    if accepts(before, crdt_id, payload) {
        let d = C::read_delta(payload->0@)->Ok_0;
        &&& after.node_id@ == before.node_id@
        &&& after.crdt_id@ == before.crdt_id@
        &&& after.inner.gc.settings() == before.inner.gc.settings()
        &&& after.inner.crdt@ == C::after_merge(before.inner.crdt@, d)
        &&& after.inner.dvv@ == dots::merged(
            before.inner.dvv@,
            inners::delta_vector(C::Delta::metadata(d)),
        )
        &&& after.inner.gc@ == (CoordinatorModel {
            epoch: before.inner.gc@.epoch,
            matrix: match (before.inner.gc@.matrix, knowledge_matrix) {
                (Some(m), Some(k)) => Some(matrices::matrix_join(m, k@)),
                (m, _) => m,
            },
        })
        &&& strategy_at(before, after, rounds_after_push(before, registry))
        &&& advertised(after, registry, sent)
    } else {
        &&& sent.len() == 0
        &&& same_replica(after, before)
        &&& after.dissemination == before.dissemination
    }
}

/// An answer of an engine to a peer that sent its clock.
pub open spec fn answered<C: DeltaCrdt, S: DisseminationStrategy>(
    before: CrdtEngine<C, S>,
    registry: PeerRegistry,
    from: Seq<char>,
    crdt_id: Seq<char>,
    known: ClockModel,
    after: CrdtEngine<C, S>,
    response: Option<PullResponse<C::DeltaMessage>>,
) -> bool {
    &&& after.node_id@ == before.node_id@
    &&& after.crdt_id@ == before.crdt_id@
    &&& after.dissemination == before.dissemination
    &&& after.inner.crdt@ == before.inner.crdt@
    &&& after.inner.dvv@ == before.inner.dvv@
    &&& after.inner.gc.settings() == before.inner.gc.settings()
    &&& response is Some <==> crdt_id == before.crdt_id@
    &&& response is None ==> after.inner.gc@ == before.inner.gc@
    &&& response is Some ==> {
        &&& after.inner.gc@ == (CoordinatorModel {
            epoch: before.inner.gc@.epoch,
            matrix: match before.inner.gc@.matrix {
                Some(m) => Some(matrices::matrix_join(m, inners::one_row(from, known))),
                None => None,
            },
        })
        &&& inners::answers_pull::<C>(
            after.inner.crdt@,
            after.inner.dvv@,
            after.inner.gc@.matrix,
            registry@,
            from,
            known,
            response->0,
        )
    }
}

/// Are `number` and `message` the last word of a departing replica?
pub open spec fn last_word<C: DeltaCrdt>(
    state: C::V,
    dvv: DvvModel,
    number: Counter,
    message: <C::DeltaMessage as View>::V,
) -> bool {
    exists|d: <C::Delta as View>::V| #[trigger]
        C::is_full_state(state, dvv, d) && number == C::Delta::metadata(d).2 && message
            == C::delta_message(d)
}

/// A request to ask every peer for what the replica misses.
pub open spec fn pulled<C: DeltaCrdt, S: DisseminationStrategy>(
    before: CrdtEngine<C, S>,
    registry: PeerRegistry,
    after: CrdtEngine<C, S>,
    sent: Seq<(PeerHandle, Envelope)>,
) -> bool {
    &&& same_replica(after, before)
    &&& if S::pulls() {
        &&& strategy_at(
            before,
            after,
            sending::round_after(registry, before.dissemination.rounds()),
        )
        &&& sending::asks_everyone(
            registry,
            sent,
            before.crdt_id@,
            before.node_id@,
            before.inner.gc@.matrix is Some,
            dots::effective(before.inner.dvv@),
        )
    } else {
        &&& strategy_at(before, after, before.dissemination.rounds())
        &&& sent.len() == 0
    }
}

/// Is `reply` what is to be done about the request, and `after` the engine
/// then?
pub open spec fn handled<C: DeltaCrdt, S: DisseminationStrategy>(
    before: CrdtEngine<C, S>,
    registry: PeerRegistry,
    request: CrdtEngineRequest<C>,
    after: CrdtEngine<C, S>,
    reply: CrdtEngineReply<C::DeltaMessage>,
) -> bool {
    match request {
        CrdtEngineRequest::DoPullRound => reply matches CrdtEngineReply::Send(sent) && pulled(
            before,
            registry,
            after,
            sent@,
        ),
        CrdtEngineRequest::ClientOperation(op) => reply matches CrdtEngineReply::Send(sent)
            && wrote(before, registry, op@, after, sent@),
        CrdtEngineRequest::PrintState => reply matches CrdtEngineReply::Tell(t) && C::shows(
            before.inner.crdt@,
            t@,
        ) && after == before,
        CrdtEngineRequest::PrintInternals => reply is TellInternals && after == before,
        CrdtEngineRequest::PrintMatrix => reply matches CrdtEngineReply::Tell(t) && gc::shows_matrix(
            before.inner.gc@.matrix,
            t@,
        ) && after == before,
        CrdtEngineRequest::GetRandomElement => reply matches CrdtEngineReply::Tell(t) && offers::<
            C,
        >(before.inner.crdt@, t@) && after == before,
        CrdtEngineRequest::DeltaRequest(from, crdt_id, known) => match reply {
            CrdtEngineReply::Respond(to, response) => to == from && answered(
                before,
                registry,
                from@,
                crdt_id@,
                known@,
                after,
                Some(response),
            ),
            CrdtEngineReply::Ignore => answered(
                before,
                registry,
                from@,
                crdt_id@,
                known@,
                after,
                None,
            ),
            _ => false,
        },
        CrdtEngineRequest::DeltaResponse(_, crdt_id, payload, knowledge_matrix) => {
            reply matches CrdtEngineReply::Send(sent) && merged_in(
                before,
                registry,
                crdt_id@,
                payload,
                knowledge_matrix,
                after,
                sent@,
            )
        },
        CrdtEngineRequest::DeregistrationState => {
            reply matches CrdtEngineReply::Final(number, message) && last_word::<C>(
                before.inner.crdt@,
                before.inner.dvv@,
                number,
                message@,
            ) && after == before
        },
        CrdtEngineRequest::InitiateGc => reply matches CrdtEngineReply::Initiate(step)
            && step is ReadMetadata && after == before,
        CrdtEngineRequest::ObserveEpochChange => after == before && reply is ReadMetadata,
        CrdtEngineRequest::LogCrdtMetrics => reply matches CrdtEngineReply::LogMetrics(epoch)
            && epoch == before.inner.gc@.epoch && after == before,
    }
}

/// Is `text` the name of some element of the state, or that there is none?
pub open spec fn offers<C: DeltaCrdt>(state: C::V, text: Seq<char>) -> bool {
    C::may_offer(state, Some(text)) || C::may_offer(state, None) && text == no_element()
}

// ── The pace of collections ─────────────────────────────────────────────

/// How far the time between two tries may be off: a twentieth.
pub open spec fn jitter_range(interval: Interval) -> int {
    interval.nanos as int / 20
}

/// The time to the next try, `jitter` nanoseconds off the interval.
pub fn jittered(interval: &Interval, jitter: i64) -> (r: Interval)
    requires
        interval.nanos + jitter <= MAX_NANOS,
    ensures
        r.nanos == if interval.nanos + jitter < 0 {
            0
        } else {
            interval.nanos + jitter
        },
{
    if jitter >= 0 {
        Interval { nanos: interval.nanos + jitter as u128 }
    } else {
        let back: u128 = (-(jitter + 1)) as u128 + 1;
        Interval {
            nanos: if interval.nanos >= back {
                interval.nanos - back
            } else {
                0
            },
        }
    }
}

/// The time to the next try: the interval, give or take a twentieth. How much
/// is left to chance.
pub fn next_initiation_delay(interval: &Interval) -> (r: Interval)
    requires
        jitter_range(*interval) <= i64::MAX,
        interval.nanos + jitter_range(*interval) <= MAX_NANOS,
    ensures
        interval.nanos - jitter_range(*interval) <= r.nanos <= interval.nanos + jitter_range(
            *interval,
        ),
{
    let range = (interval.nanos / 20) as i128;
    let jitter = random_between(-range, range) as i64;
    jittered(interval, jitter)
}

} // verus!
