//! An engine without garbage collection.
//!
//! It owns a vector and a replicated value and has a strategy of
//! [`crate::dissemination`].

use vstd::prelude::*;

use crate::common::{same_id, NodeId};
use crate::crdt::or_set::{DeltaModel, OrSet, SetModel};
use crate::crdt::or_set_laws as set_laws;
use crate::crdt::or_set_wire as wire;
use crate::crdt::{DeltaContext, DeltaCrdt, ElementCodec};
use crate::dissemination as sending_all;
use crate::dissemination::{DisseminationStrategy, PullRoundEngine};
use crate::engine::engine_inner as inners;
use crate::engine::PullResponse;
use crate::logical_clocks::dot_version_vector as dots;
use crate::logical_clocks::dot_version_vector::{
    Dot, DotModel, DotVersionVector, DvvModel,
};
use crate::logical_clocks::version_vector as clocks;
use crate::logical_clocks::version_vector::{vv_leq, VersionVector};
use crate::network::dissemination as sending;
use crate::peers::peer_registry::{PeerHandle, PeerRegistry};
use crate::proto::{Envelope, ProtoOrSetDelta};

verus! {

/// The mathematical value of a [`CrdtEngine`].
pub struct EngineModel<S> {
    pub node_id: Seq<char>,
    pub crdt_id: Seq<char>,
    pub state: S,
    pub dvv: DvvModel,
}

/// The engine of one replica for one replicated value.
pub struct CrdtEngine<C: DeltaCrdt, D: DisseminationStrategy> {
    pub node_id: NodeId,
    pub crdt_id: String,
    pub crdt: C,
    pub dvv: DotVersionVector,
    pub dissemination: D,
}

impl<C: DeltaCrdt, D: DisseminationStrategy> View for CrdtEngine<C, D> {
    type V = EngineModel<C::V>;

    open spec fn view(&self) -> EngineModel<C::V> {
        EngineModel {
            node_id: self.node_id@,
            crdt_id: self.crdt_id@,
            state: self.crdt@,
            dvv: self.dvv@,
        }
    }
}

/// Was the clock of the engine advertised, as its strategy does after a
/// change?
pub open spec fn advertised<S, D: DisseminationStrategy>(
    e: EngineModel<S>,
    registry: PeerRegistry,
    sent: Seq<(PeerHandle, Envelope)>,
) -> bool {
    if D::pushes() {
        sending_all::asks_everyone(
            registry,
            sent,
            e.crdt_id,
            e.node_id,
            dots::effective(e.dvv),
        )
    } else {
        sent.len() == 0
    }
}

/// The engine after a message with the delta of a peer. What is for another
/// data type instance, or is no delta, changes nothing.
pub open spec fn after_delta<C: DeltaCrdt>(
    e: EngineModel<C::V>,
    crdt_id: Seq<char>,
    payload: Option<<C::DeltaMessage as View>::V>,
) -> EngineModel<C::V> {
    match payload {
        Some(m) => match C::read_delta(m) {
            Ok(d) => if crdt_id == e.crdt_id {
                EngineModel {
                    state: C::after_merge(e.state, d),
                    dvv: dots::merged(e.dvv, inners::delta_vector(C::Delta::metadata(d))),
                    ..e
                }
            } else {
                e
            },
            Err(_) => e,
        },
        None => e,
    }
}

/// Does the response answer a peer with the clock `known`? It has a delta
/// when this replica is ahead somewhere, and asks back when the peer is.
pub open spec fn answers<C: DeltaCrdt>(
    e: EngineModel<C::V>,
    known: Map<Seq<char>, u64>,
    r: PullResponse<C::DeltaMessage>,
) -> bool {
    &&& r.delta_payload is Some <==> !clocks::leq(dots::effective(e.dvv), known)
    &&& r.delta_payload is Some ==> exists|d: <C::Delta as View>::V| #[trigger]
        C::is_delta_since(e.state, known, e.dvv, d) && r.delta_payload->0@ == C::delta_message(d)
    &&& sending::clock_value(r.our_knowledge_request) == if clocks::leq(
        known,
        dots::effective(e.dvv),
    ) {
        None
    } else {
        Some(dots::effective(e.dvv))
    }
    &&& r.knowledge_matrix is None
}

/// The value of a message that may not have been one.
pub open spec fn message_value<M: View>(m: Option<M>) -> Option<M::V> {
    match m {
        Some(v) => Some(v@),
        None => None,
    }
}

impl<C: DeltaCrdt, D: DisseminationStrategy> CrdtEngine<C, D> {
    pub fn new(node_id: NodeId, crdt_id: String, crdt: C, dissemination: D) -> (r: Self)
        ensures
            r.dissemination == dissemination,
            r@ == (EngineModel {
                node_id: node_id@,
                crdt_id: crdt_id@,
                state: crdt@,
                dvv: DvvModel {
                    dot: DotModel { node_id: node_id@, counter: 0 },
                    context: Map::empty(),
                },
            }),
    {
        let dvv = DotVersionVector::new(node_id.clone());
        CrdtEngine { node_id, crdt_id, crdt, dvv, dissemination }
    }

    /// The name of some element, if there is one.
    pub fn get_random_element(&self) -> (r: Option<String>)
        ensures
            match r {
                Some(text) => C::may_offer(self@.state, Some(text@)),
                None => C::may_offer(self@.state, None),
            },
    {
        self.crdt.get_random_element()
    }

    /// The state as text.
    pub fn print_state(&self) -> (r: String)
        ensures
            C::shows(self@.state, r@),
    {
        self.crdt.print_state()
    }

    /// Perform a local write, and advertise the new clock.
    pub fn client_operation(&mut self, registry: &PeerRegistry, op: C::Op) -> (r: Vec<
        (PeerHandle, Envelope),
    >)
        requires
            clocks::counter_of(dots::effective(old(self)@.dvv), old(self)@.dvv.dot.node_id)
                < u64::MAX,
        ensures
            final(self)@ == (EngineModel {
                state: C::after_local(
                    old(self)@.state,
                    dots::after_event(old(self)@.dvv).dot,
                    op@,
                ),
                dvv: dots::after_event(old(self)@.dvv),
                ..old(self)@
            }),
            final(self).dissemination == old(self).dissemination,
            advertised::<C::V, D>(final(self)@, *registry, r@),
    {
        self.dvv.event();
        let dot = self.dvv.dot.clone();
        self.crdt.apply_local(dot, op, &self.dvv);
        let knowledge = self.dvv.effective_map();
        self.dissemination.push_version_vector(
            registry,
            &self.node_id,
            self.crdt_id.as_str(),
            &knowledge,
        )
    }

    /// Merge what a peer sent, and advertise the clock.
    pub fn server_delta(
        &mut self,
        registry: &PeerRegistry,
        crdt_id: &String,
        payload: &Option<C::DeltaMessage>,
    ) -> (r: Vec<(PeerHandle, Envelope)>)
        ensures
            final(self)@ == after_delta::<C>(old(self)@, crdt_id@, message_value(*payload)),
            final(self).dissemination == old(self).dissemination,
            advertised::<C::V, D>(final(self)@, *registry, r@),
    {
        if same_id(crdt_id, &self.crdt_id) {
            if let Some(message) = payload {
                self.handle_remote_delta(message);
            }
        }
        let knowledge = self.dvv.effective_map();
        self.dissemination.on_post_merge(
            registry,
            &self.node_id,
            self.crdt_id.as_str(),
            &knowledge,
        )
    }

    fn handle_remote_delta(&mut self, payload: &C::DeltaMessage)
        ensures
            final(self)@ == after_delta::<C>(old(self)@, old(self)@.crdt_id, Some(payload@)),
            final(self).dissemination == old(self).dissemination,
    {
        let delta = match C::decode_delta(payload) {
            Ok(d) => d,
            Err(_) => {
                return ;
            },
        };
        self.crdt.merge_delta(&delta);
        let (context, node, counter) = delta.causal_context();
        let remote = DotVersionVector { dot: Dot::new(node, counter), context };
        self.dvv.merge(&remote);
    }

    /// Answer a peer that sent its clock; none when it is for another data
    /// type instance.
    pub fn server_pull_request(&self, crdt_id: &String, remote_knowledge: &VersionVector) -> (r:
        Option<PullResponse<C::DeltaMessage>>)
        ensures
            r is Some <==> crdt_id@ == self@.crdt_id,
            r is Some ==> answers::<C>(self@, remote_knowledge@, r->0),
    {
        if !same_id(crdt_id, &self.crdt_id) {
            return None;
        }
        Some(self.handle_pull_request(remote_knowledge))
    }

    fn handle_pull_request(&self, remote_knowledge: &VersionVector) -> (r: PullResponse<
        C::DeltaMessage,
    >)
        ensures
            answers::<C>(self@, remote_knowledge@, r),
    {
        let our_knowledge = self.dvv.effective_map();
        let news = self.dvv.delta_since(remote_knowledge);
        proof {
            dots::law_no_news_iff_covered(self.dvv@, remote_knowledge@);
        }
        let delta_payload = if news.dot.counter != 0 || !news.context.is_empty() {
            let state = self.crdt.delta_since(remote_knowledge, &self.dvv);
            assert(C::is_delta_since(self@.state, remote_knowledge@, self@.dvv, state@));
            Some(C::encode_delta(&state))
        } else {
            None
        };
        let our_knowledge_request = if vv_leq(remote_knowledge, &our_knowledge) {
            None
        } else {
            Some(our_knowledge)
        };
        PullResponse { delta_payload, knowledge_matrix: None, our_knowledge_request }
    }

    /// Hand an answer to the strategy, the delta in it encoded.
    pub fn respond_to_pull_request(
        &self,
        registry: &PeerRegistry,
        from_node: &NodeId,
        delta_payload: Option<Vec<u8>>,
        our_knowledge_request: Option<VersionVector>,
    ) -> (r: Option<(PeerHandle, Envelope)>)
        ensures
            sending::sent_to(
                registry@,
                from_node@,
                r,
                sending::answer_to_pull(
                    D::asks_back(),
                    self@.crdt_id,
                    self@.node_id,
                    sending::bytes_value(delta_payload),
                    false,
                    None,
                    sending::clock_value(our_knowledge_request),
                ),
            ),
    {
        self.dissemination.respond_to_pull_request(
            registry,
            from_node,
            self.crdt_id.as_str(),
            &self.node_id,
            delta_payload,
            our_knowledge_request,
        )
    }
}

impl<C: DeltaCrdt, D: DisseminationStrategy> PullRoundEngine for CrdtEngine<C, D> {
    open spec fn pull_round_sends(
        &self,
        registry: PeerRegistry,
        sent: Seq<(PeerHandle, Envelope)>,
    ) -> bool {
        if D::pulls() {
            sending_all::asks_everyone(
                registry,
                sent,
                self@.crdt_id,
                self@.node_id,
                dots::effective(self@.dvv),
            )
        } else {
            sent.len() == 0
        }
    }

    fn do_pull_round(&self, registry: &PeerRegistry) -> (r: Vec<(PeerHandle, Envelope)>) {
        let our_knowledge = self.dvv.effective_map();
        self.dissemination.do_pull_round(
            registry,
            &self.node_id,
            self.crdt_id.as_str(),
            &our_knowledge,
        )
    }
}

// ── Laws ────────────────────────────────────────────────────────────────

/// An answer asks back just when the peer has seen something that this replica
/// has not, and then with this replica's clock; it has a delta just when this
/// replica has seen something that the peer has not; and it carries no matrix.
pub proof fn law_answer_exchanges_what_is_missed<C: DeltaCrdt>(
    e: EngineModel<C::V>,
    known: Map<Seq<char>, u64>,
    r: PullResponse<C::DeltaMessage>,
)
    requires
        answers::<C>(e, known, r),
    ensures
        r.our_knowledge_request is None <==> forall|n: Seq<char>| #[trigger]
            clocks::counter_of(known, n) <= clocks::counter_of(dots::effective(e.dvv), n),
        r.our_knowledge_request is Some ==> r.our_knowledge_request->0@ == dots::effective(e.dvv),
        r.delta_payload is Some <==> exists|n: Seq<char>| #[trigger]
            clocks::counter_of(dots::effective(e.dvv), n) > clocks::counter_of(known, n),
        r.knowledge_matrix is None,
{
    let own = dots::effective(e.dvv);
    if !clocks::leq(own, known) {
        let n = choose|n: Seq<char>| !(#[trigger] clocks::counter_of(own, n) <= clocks::counter_of(
            known,
            n,
        ));
        assert(clocks::counter_of(own, n) > clocks::counter_of(known, n));
    }
}

/// The delta of an answer holds just what the peer's clock does not cover, and
/// carries this replica's clock.
pub proof fn law_answer_holds_what_is_missed<E: ElementCodec>(
    e: EngineModel<SetModel<E::V>>,
    known: Map<Seq<char>, u64>,
    r: PullResponse<ProtoOrSetDelta>,
    p: (E::V, DotModel),
    stone: (DotModel, DotModel),
)
    requires
        answers::<OrSet<E>>(e, known, r),
        r.delta_payload is Some,
    ensures
        wire::read_delta::<E>(r.delta_payload->0@) is Ok,
        wire::read_delta::<E>(r.delta_payload->0@)->Ok_0.adds.contains(p)
            <==> e.state.adds.contains(p) && !dots::covers(known, p.1),
        wire::read_delta::<E>(r.delta_payload->0@)->Ok_0.tombstones.contains(stone)
            <==> e.state.tombstones.contains_key(stone.0) && e.state.tombstones[stone.0] == stone.1
            && !dots::covers(known, stone.1),
        wire::read_delta::<E>(r.delta_payload->0@)->Ok_0.context == dots::effective(e.dvv),
{
    let d = choose|d: DeltaModel<E::V>| #[trigger]
        OrSet::<E>::is_delta_since(e.state, known, e.dvv, d) && r.delta_payload->0@ == OrSet::<
            E,
        >::delta_message(d);
    wire::lemma_delta_round_trip::<E>(d);
    set_laws::law_delta_holds_what_is_missed::<E>(e.state, known, e.dvv, d, p, stone);
}

/// A delta is merged just when it is for the engine's instance and can be
/// read; the engine then knows of each replica the more of what it knew and
/// what came with the delta. Otherwise nothing changes.
pub proof fn law_delta_is_taken_in<C: DeltaCrdt>(
    e: EngineModel<C::V>,
    crdt_id: Seq<char>,
    payload: Option<<C::DeltaMessage as View>::V>,
    n: Seq<char>,
)
    ensures
        after_delta::<C>(e, crdt_id, payload).node_id == e.node_id,
        after_delta::<C>(e, crdt_id, payload).crdt_id == e.crdt_id,
        crdt_id != e.crdt_id || payload is None || C::read_delta(payload->0) is Err ==> after_delta::<
            C,
        >(e, crdt_id, payload) == e,
        crdt_id == e.crdt_id && payload is Some && C::read_delta(payload->0) is Ok ==> after_delta::<
            C,
        >(e, crdt_id, payload).state == C::after_merge(e.state, C::read_delta(payload->0)->Ok_0)
            && clocks::counter_of(
            dots::effective(after_delta::<C>(e, crdt_id, payload).dvv),
            n,
        ) >= clocks::counter_of(C::Delta::metadata(C::read_delta(payload->0)->Ok_0).0, n),
        clocks::counter_of(dots::effective(after_delta::<C>(e, crdt_id, payload).dvv), n)
            >= clocks::counter_of(dots::effective(e.dvv), n),
        after_delta::<C>(e, crdt_id, payload).dvv.dot.node_id == e.dvv.dot.node_id,
{
    if crdt_id == e.crdt_id && payload is Some && C::read_delta(payload->0) is Ok {
        let carried = inners::delta_vector(C::Delta::metadata(C::read_delta(payload->0)->Ok_0));
        dots::law_merge_takes_the_greater(e.dvv, carried, n);
        dots::law_effective_counts_context_and_dot(carried, n);
    }
}

/// A strategy that pushes advertises the engine's clock as it is after the
/// change to every connected peer; one that does not says nothing.
pub proof fn law_change_is_advertised<S, D: DisseminationStrategy>(
    e: EngineModel<S>,
    registry: PeerRegistry,
    sent: Seq<(PeerHandle, Envelope)>,
    i: int,
)
    requires
        advertised::<S, D>(e, registry, sent),
    ensures
        !D::pushes() ==> sent.len() == 0,
        D::pushes() ==> sent.len() == registry@.dom().len(),
        0 <= i < sent.len() ==> sent[i].1@ is Some && sent[i].1@->0 is CrdtPullRequest
            && sent[i].1@->0->CrdtPullRequest_0.knowledge == Some(dots::effective(e.dvv))
            && sent[i].1@->0->CrdtPullRequest_0.crdt_id == e.crdt_id
            && sent[i].1@->0->CrdtPullRequest_0.origin_node_id == e.node_id,
{
    if D::pushes() {
        sending_all::law_request_reaches_everyone(
            registry,
            sent,
            e.crdt_id,
            e.node_id,
            dots::effective(e.dvv),
        );
    }
}

} // verus!
