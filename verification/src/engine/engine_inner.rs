//! The replicated value with its vector and its garbage collection.

use vstd::prelude::*;

use crate::common::{ClockModel, MatrixModel, NodeId};
use crate::crdt::{DeltaContext, DeltaCrdt};
use crate::engine::PullResponse;
use crate::gc::coordinator::{CoordinatorModel, GcCoordinator, ReplicaModel};
use crate::logical_clocks::dot_version_vector as dots;
use crate::logical_clocks::dot_version_vector::{Dot, DotModel, DotVersionVector, DvvModel};
use crate::logical_clocks::matrix_clock as matrices;
use crate::logical_clocks::matrix_clock::MatrixClock;
use crate::logical_clocks::version_vector as clocks;
use crate::logical_clocks::version_vector::{vv_leq, VersionVector};
use crate::network::dissemination as sending;
use crate::peers::peer_registry;
use crate::peers::peer_registry::PeerRegistry;

verus! {

/// Is the peer connected, and does it initiate garbage collections?
pub open spec fn is_gc_peer(peers: Map<Seq<char>, (bool, u64)>, n: Seq<char>) -> bool {
    peers.contains_key(n) && peers[n].0
}

/// The vector that a delta carries.
pub open spec fn delta_vector(metadata: (ClockModel, Seq<char>, u64)) -> DvvModel {
    DvvModel {
        dot: DotModel { node_id: metadata.1, counter: metadata.2 },
        context: metadata.0,
    }
}

/// The matrix row that a peer's clock makes.
pub open spec fn one_row(node: Seq<char>, clock: ClockModel) -> MatrixModel {
    map![node => clock]
}

/// Does the response answer a peer `from` with the clock `known`?
///
/// It has a delta when this replica is ahead somewhere, or when both collect
/// garbage; it asks back when the peer is ahead somewhere; and it tells a
/// collecting peer what other replicas are known to have seen.
pub open spec fn answers_pull<C: DeltaCrdt>(
    state: C::V,
    dvv: DvvModel,
    matrix: Option<MatrixModel>,
    peers: Map<Seq<char>, (bool, u64)>,
    from: Seq<char>,
    known: ClockModel,
    r: PullResponse<C::DeltaMessage>,
) -> bool {
    &&& r.delta_payload is Some <==> (matrix is Some && is_gc_peer(peers, from)) || !clocks::leq(
        dots::effective(dvv),
        known,
    )
    &&& r.delta_payload is Some ==> exists|d: <C::Delta as View>::V| #[trigger]
        C::is_delta_since(state, known, dvv, d) && r.delta_payload->0@ == C::delta_message(d)
    &&& sending::clock_value(r.our_knowledge_request) == if clocks::leq(
        known,
        dots::effective(dvv),
    ) {
        None
    } else {
        Some(dots::effective(dvv))
    }
    &&& sending::matrix_value(r.knowledge_matrix) == match matrix {
        Some(m) => if is_gc_peer(peers, from) {
            Some(m.restrict(peer_registry::plain_peers(peers)))
        } else {
            None
        },
        None => None,
    }
}

/// Is `after` the replica once it has performed a local operation, and `d`
/// what it announces?
pub open spec fn performed<C: DeltaCrdt>(
    before: ReplicaModel<C::V>,
    op: <C::Op as View>::V,
    after: ReplicaModel<C::V>,
    d: <C::Delta as View>::V,
) -> bool {
    &&& after.gc == before.gc
    &&& after.dvv == dots::after_event(before.dvv)
    &&& after.state == C::after_local(before.state, after.dvv.dot, op)
    &&& C::announces_local(before.state, after.dvv.dot, op, after.dvv, d)
}

/// Is `after` the replica once it has got a message with a delta, and does
/// `taken` tell whether it could be read?
pub open spec fn took_in<C: DeltaCrdt>(
    before: ReplicaModel<C::V>,
    message: <C::DeltaMessage as View>::V,
    after: ReplicaModel<C::V>,
    taken: bool,
) -> bool {
    match C::read_delta(message) {
        Ok(d) => {
            &&& taken
            &&& after.gc == before.gc
            &&& after.state == C::after_merge(before.state, d)
            &&& after.dvv == dots::merged(before.dvv, delta_vector(C::Delta::metadata(d)))
        },
        Err(_) => !taken && after == before,
    }
}

/// Is `after` what a matrix says once it has learnt a peer's clock? A replica
/// without a matrix learns nothing.
pub open spec fn learns_row(
    before: Option<MatrixModel>,
    from: Seq<char>,
    known: ClockModel,
    after: Option<MatrixModel>,
) -> bool {
    match before {
        Some(m) => after == Some(matrices::matrix_join(m, one_row(from, known))),
        None => after is None,
    }
}

/// The replicated value with its vector and its garbage collection.
pub struct EngineInner<C: DeltaCrdt> {
    pub crdt: C,
    pub dvv: DotVersionVector,
    pub gc: GcCoordinator,
}

impl<C: DeltaCrdt> EngineInner<C> {
    /// Perform a local write: a new event, and the operation with its dot.
    pub fn client_operation(&mut self, op: C::Op) -> (r: C::Delta)
        requires
            clocks::counter_of(dots::effective(old(self).dvv@), old(self).dvv@.dot.node_id)
                < u64::MAX,
        ensures
            final(self).gc == old(self).gc,
            final(self).dvv@ == dots::after_event(old(self).dvv@),
            final(self).crdt@ == C::after_local(old(self).crdt@, final(self).dvv@.dot, op@),
            C::announces_local(
                old(self).crdt@,
                final(self).dvv@.dot,
                op@,
                final(self).dvv@,
                r@,
            ),
            performed::<C>(
                (ReplicaModel {
                    gc: old(self).gc@,
                    state: old(self).crdt@,
                    dvv: old(self).dvv@,
                }),
                op@,
                (ReplicaModel {
                    gc: final(self).gc@,
                    state: final(self).crdt@,
                    dvv: final(self).dvv@,
                }),
                r@,
            ),
    {
        self.dvv.event();
        let dot = Dot::new(self.dvv.dot.node_id.clone(), self.dvv.dot.counter);
        self.crdt.apply_local(dot, op, &self.dvv)
    }

    /// Answer a peer that sent its clock.
    pub fn server_pull_request(
        &mut self,
        registry: &PeerRegistry,
        from_node: &NodeId,
        remote_knowledge: &VersionVector,
    ) -> (r: PullResponse<C::DeltaMessage>)
        ensures
            final(self).crdt@ == old(self).crdt@,
            final(self).dvv@ == old(self).dvv@,
            final(self).gc.settings() == old(self).gc.settings(),
            final(self).gc@ == (CoordinatorModel {
                epoch: old(self).gc@.epoch,
                matrix: match old(self).gc@.matrix {
                    Some(m) => Some(
                        matrices::matrix_join(m, one_row(from_node@, remote_knowledge@)),
                    ),
                    None => None,
                },
            }),
            answers_pull::<C>(
                final(self).crdt@,
                final(self).dvv@,
                final(self).gc@.matrix,
                registry@,
                from_node@,
                remote_knowledge@,
                r,
            ),
            learns_row(
                old(self).gc@.matrix,
                from_node@,
                remote_knowledge@,
                final(self).gc@.matrix,
            ),
    {
        let mut knowledge = MatrixClock::new();
        knowledge.set_row(from_node.clone(), remote_knowledge.clone());
        assert(knowledge@ =~= one_row(from_node@, remote_knowledge@));
        self.gc.update_matrix_clock(&knowledge);

        let our_knowledge = self.dvv.effective_map();
        let from_gc_replica: bool = match registry.get(from_node) {
            Some((gc_replica, _)) => gc_replica,
            None => false,
        };
        let between_gc_replicas = self.gc.gc_replica() && from_gc_replica;

        let news = self.dvv.delta_since(remote_knowledge);
        proof {
            dots::law_no_news_iff_covered(self.dvv@, remote_knowledge@);
        }
        let delta_payload = if between_gc_replicas || news.dot.counter != 0
            || !news.context.is_empty() {
            let delta = self.crdt.delta_since(remote_knowledge, &self.dvv);
            let message = C::encode_delta(&delta);
            assert(C::is_delta_since(self.crdt@, remote_knowledge@, self.dvv@, delta@));
            Some(message)
        } else {
            None
        };

        let our_knowledge_request = if vv_leq(remote_knowledge, &our_knowledge) {
            None
        } else {
            Some(our_knowledge)
        };

        let knowledge_matrix = if from_gc_replica {
            self.gc.get_knowledge_matrix(registry)
        } else {
            None
        };

        PullResponse { delta_payload, knowledge_matrix, our_knowledge_request }
    }

    /// Merge what a peer sent; was it a delta?
    pub fn handle_remote_delta(&mut self, payload: &C::DeltaMessage) -> (r: bool)
        ensures
            final(self).gc == old(self).gc,
            match C::read_delta(payload@) {
                Ok(d) => r && final(self).crdt@ == C::after_merge(old(self).crdt@, d)
                    && final(self).dvv@ == dots::merged(
                    old(self).dvv@,
                    delta_vector(C::Delta::metadata(d)),
                ),
                Err(_) => !r && final(self).crdt@ == old(self).crdt@ && final(self).dvv@ == old(
                    self,
                ).dvv@,
            },
            took_in::<C>(
                (ReplicaModel {
                    gc: old(self).gc@,
                    state: old(self).crdt@,
                    dvv: old(self).dvv@,
                }),
                payload@,
                (ReplicaModel {
                    gc: final(self).gc@,
                    state: final(self).crdt@,
                    dvv: final(self).dvv@,
                }),
                r,
            ),
    {
        let delta = match C::decode_delta(payload) {
            Ok(d) => d,
            Err(_) => {
                return false;
            },
        };
        self.crdt.merge_delta(&delta);
        let (context, node, counter) = delta.causal_context();
        let remote = DotVersionVector { dot: Dot::new(node, counter), context };
        self.dvv.merge(&remote);
        true
    }
}

} // verus!
