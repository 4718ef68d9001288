//! What holds of sets that engines replicate.

use vstd::prelude::*;

use crate::common::{ClockModel, MatrixModel};
use crate::crdt::or_set as sets;
use crate::crdt::or_set::{DeltaModel, OpModel, OrSet, OrSetDelta, SetModel};
use crate::crdt::or_set_laws as laws;
use crate::crdt::or_set_wire as wire;
use crate::crdt::{DeltaContext, DeltaCrdt, ElementCodec};
use crate::engine::crdt_engine as engines;
use crate::engine::crdt_engine::{CrdtEngine, CrdtEngineReply, CrdtEngineRequest};
use crate::engine::engine_inner as inners;
use crate::engine::PullResponse;
use crate::gc::coordinator as gc;
use crate::gc::coordinator::ReplicaModel;
use crate::logical_clocks::dot_version_vector as dots;
use crate::logical_clocks::dot_version_vector::{DotModel, DvvModel};
use crate::logical_clocks::matrix_clock as matrices;
use crate::logical_clocks::matrix_clock::MatrixClock;
use crate::logical_clocks::version_vector as clocks;
use crate::network::dissemination as sending;
use crate::network::dissemination::DisseminationStrategy;
use crate::peers::peer_registry as registries;
use crate::peers::peer_registry::{PeerHandle, PeerRegistry};
use crate::proto::{Envelope, ProtoOrSetDelta};

verus! {

/// A replica whose answer to a peer holds no delta has nothing that the peer
/// misses.
pub proof fn law_no_answer_means_nothing_missed<E: ElementCodec>(
    state: SetModel<E::V>,
    dvv: DvvModel,
    matrix: Option<MatrixModel>,
    peers: Map<Seq<char>, (bool, u64)>,
    from: Seq<char>,
    known: ClockModel,
    r: PullResponse<ProtoOrSetDelta>,
)
    requires
        laws::known_by(state, dots::effective(dvv)),
        inners::answers_pull::<OrSet<E>>(state, dvv, matrix, peers, from, known, r),
        r.delta_payload is None,
    ensures
        sets::unseen(state, known) == sets::empty_set::<E::V>(),
{
    let own = dots::effective(dvv);
    assert forall|d: DotModel| dots::covers(own, d) implies #[trigger] dots::covers(known, d) by {
        assert(clocks::counter_of(own, d.node_id) <= clocks::counter_of(known, d.node_id));
    }
    assert(laws::known_by(state, known));
    laws::law_unseen_by_up_to_date_peer(state, known);
}

/// A peer that has all that its clock covers, and merges the answer to it,
/// is as if it had merged the whole state, and its clock is no longer behind.
pub proof fn law_answer_brings_up_to_date<E: ElementCodec>(
    state: SetModel<E::V>,
    dvv: DvvModel,
    matrix: Option<MatrixModel>,
    peers: Map<Seq<char>, (bool, u64)>,
    from: Seq<char>,
    r: PullResponse<ProtoOrSetDelta>,
    peer_state: SetModel<E::V>,
    peer_dvv: DvvModel,
    whole: DeltaModel<E::V>,
)
    requires
        sets::separated(peer_state),
        laws::caught_up(peer_state, state, dots::effective(peer_dvv)),
        inners::answers_pull::<OrSet<E>>(
            state,
            dvv,
            matrix,
            peers,
            from,
            dots::effective(peer_dvv),
            r,
        ),
        r.delta_payload is Some,
        sets::describes(whole, state),
    ensures
        wire::read_delta::<E>(r.delta_payload->0@) is Ok,
        sets::merge_into(peer_state, wire::read_delta::<E>(r.delta_payload->0@)->Ok_0)
            == sets::merge_into(peer_state, whole),
        clocks::leq(
            dots::effective(dvv),
            dots::effective(
                dots::merged(
                    peer_dvv,
                    inners::delta_vector(
                        OrSetDelta::<E>::metadata(
                            wire::read_delta::<E>(r.delta_payload->0@)->Ok_0,
                        ),
                    ),
                ),
            ),
        ),
{
    let known = dots::effective(peer_dvv);
    let d = choose|d: DeltaModel<E::V>| #[trigger]
        OrSet::<E>::is_delta_since(state, known, dvv, d) && r.delta_payload->0@ == OrSet::<
            E,
        >::delta_message(d);
    wire::lemma_delta_round_trip::<E>(d);
    laws::law_pull_converges(peer_state, state, known, d, whole);
    let carried = inners::delta_vector(OrSetDelta::<E>::metadata(d));
    let after = dots::merged(peer_dvv, carried);
    assert forall|n: Seq<char>| #[trigger]
        clocks::counter_of(dots::effective(dvv), n) <= clocks::counter_of(
            dots::effective(after),
            n,
        ) by {
        dots::law_merge_is_join(peer_dvv, carried, n);
        assert(clocks::counter_of(dots::effective(carried), n) >= clocks::counter_of(d.context, n));
    }
}

/// A replica's clock covers its state: a local write keeps it so, and so does
/// merging a delta that its own clock covers.
pub proof fn law_replica_knows_its_state<E: ElementCodec>(
    state: SetModel<E::V>,
    dvv: DvvModel,
    op: OpModel<E::V>,
    d: DeltaModel<E::V>,
)
    requires
        laws::known_by(state, dots::effective(dvv)),
        clocks::counter_of(dots::effective(dvv), dvv.dot.node_id) < u64::MAX,
        laws::self_contained(d),
    ensures
        laws::known_by(
            sets::applied(state, dots::after_event(dvv).dot, op),
            dots::effective(dots::after_event(dvv)),
        ),
        laws::known_by(
            sets::merge_into(state, d),
            dots::effective(
                dots::merged(dvv, inners::delta_vector(OrSetDelta::<E>::metadata(d))),
            ),
        ),
{
    laws::law_local_stays_known(state, dvv, op);
    let carried = inners::delta_vector(OrSetDelta::<E>::metadata(d));
    let after = dots::effective(dots::merged(dvv, carried));
    let joined = clocks::join(dots::effective(dvv), d.context);
    laws::law_merge_stays_known(state, dots::effective(dvv), d);
    assert forall|x: DotModel| dots::covers(joined, x) implies #[trigger] dots::covers(after, x) by {
        dots::law_merge_is_join(dvv, carried, x.node_id);
        assert(clocks::counter_of(dots::effective(carried), x.node_id) >= clocks::counter_of(
            d.context,
            x.node_id,
        ));
    }
}

// ── Answers ─────────────────────────────────────────────────────────────

/// An answer asks back just when the peer has seen something that this replica
/// has not, and then with this replica's clock. One that does not ask back
/// means that every event known to the peer is known here.
pub proof fn law_answer_asks_for_what_is_missed<C: DeltaCrdt>(
    state: C::V,
    dvv: DvvModel,
    matrix: Option<MatrixModel>,
    peers: Map<Seq<char>, (bool, u64)>,
    from: Seq<char>,
    known: ClockModel,
    r: PullResponse<C::DeltaMessage>,
)
    requires
        inners::answers_pull::<C>(state, dvv, matrix, peers, from, known, r),
    ensures
        r.our_knowledge_request is None <==> forall|n: Seq<char>| #[trigger]
            clocks::counter_of(known, n) <= clocks::counter_of(dots::effective(dvv), n),
        r.our_knowledge_request is Some ==> r.our_knowledge_request->0@ == dots::effective(dvv),
        r.our_knowledge_request is None ==> forall|d: DotModel|
            dots::covers(known, d) ==> #[trigger] dots::covers(dots::effective(dvv), d),
{
    if r.our_knowledge_request is None {
        assert forall|d: DotModel| dots::covers(known, d) implies #[trigger] dots::covers(
            dots::effective(dvv),
            d,
        ) by {
            assert(clocks::counter_of(known, d.node_id) <= clocks::counter_of(
                dots::effective(dvv),
                d.node_id,
            ));
        }
    }
}

/// An answer has a delta just when this replica has seen something that the
/// peer has not, or both collect garbage.
pub proof fn law_answer_brings_what_is_new<C: DeltaCrdt>(
    state: C::V,
    dvv: DvvModel,
    matrix: Option<MatrixModel>,
    peers: Map<Seq<char>, (bool, u64)>,
    from: Seq<char>,
    known: ClockModel,
    r: PullResponse<C::DeltaMessage>,
)
    requires
        inners::answers_pull::<C>(state, dvv, matrix, peers, from, known, r),
    ensures
        r.delta_payload is Some <==> {
            ||| exists|n: Seq<char>| #[trigger]
                clocks::counter_of(dots::effective(dvv), n) > clocks::counter_of(known, n)
            ||| matrix is Some && peers.contains_key(from) && peers[from].0
        },
{
    let own = dots::effective(dvv);
    if !clocks::leq(own, known) {
        let n = choose|n: Seq<char>| !(#[trigger] clocks::counter_of(own, n) <= clocks::counter_of(
            known,
            n,
        ));
        assert(clocks::counter_of(own, n) > clocks::counter_of(known, n));
    }
}

/// The delta of an answer holds just what the peer's clock does not cover, and
/// carries this replica's clock and dot.
pub proof fn law_answer_holds_what_is_missed<E: ElementCodec>(
    state: SetModel<E::V>,
    dvv: DvvModel,
    matrix: Option<MatrixModel>,
    peers: Map<Seq<char>, (bool, u64)>,
    from: Seq<char>,
    known: ClockModel,
    r: PullResponse<ProtoOrSetDelta>,
    p: (E::V, DotModel),
    stone: (DotModel, DotModel),
)
    requires
        inners::answers_pull::<OrSet<E>>(state, dvv, matrix, peers, from, known, r),
        r.delta_payload is Some,
    ensures
        wire::read_delta::<E>(r.delta_payload->0@) is Ok,
        wire::read_delta::<E>(r.delta_payload->0@)->Ok_0.adds.contains(p) <==> state.adds.contains(p)
            && !dots::covers(known, p.1),
        wire::read_delta::<E>(r.delta_payload->0@)->Ok_0.tombstones.contains(stone)
            <==> state.tombstones.contains_key(stone.0) && state.tombstones[stone.0] == stone.1
            && !dots::covers(known, stone.1),
        wire::read_delta::<E>(r.delta_payload->0@)->Ok_0.context == dots::effective(dvv),
        wire::read_delta::<E>(r.delta_payload->0@)->Ok_0.dot_node == dvv.dot.node_id,
        wire::read_delta::<E>(r.delta_payload->0@)->Ok_0.dot_counter == dvv.dot.counter,
{
    let d = choose|d: DeltaModel<E::V>| #[trigger]
        OrSet::<E>::is_delta_since(state, known, dvv, d) && r.delta_payload->0@ == OrSet::<
            E,
        >::delta_message(d);
    wire::lemma_delta_round_trip::<E>(d);
    laws::law_delta_holds_what_is_missed::<E>(state, known, dvv, d, p, stone);
}

/// An answer tells a collecting peer, and no other, what the connected peers
/// that do not collect are known to have seen.
pub proof fn law_answer_tells_collectors<C: DeltaCrdt>(
    state: C::V,
    dvv: DvvModel,
    matrix: Option<MatrixModel>,
    peers: Map<Seq<char>, (bool, u64)>,
    from: Seq<char>,
    known: ClockModel,
    r: PullResponse<C::DeltaMessage>,
    n: Seq<char>,
)
    requires
        inners::answers_pull::<C>(state, dvv, matrix, peers, from, known, r),
    ensures
        r.knowledge_matrix is Some <==> matrix is Some && peers.contains_key(from) && peers[from].0,
        r.knowledge_matrix is Some ==> (r.knowledge_matrix->0@.contains_key(n)
            <==> matrix->0.contains_key(n) && peers.contains_key(n) && !peers[n].0),
        r.knowledge_matrix is Some && r.knowledge_matrix->0@.contains_key(n)
            ==> r.knowledge_matrix->0@[n] == matrix->0[n],
{
}

/// A replica that keeps a matrix notes in it the clock that a peer sent: the
/// peer's row then says at least that, and no row says more than it said or
/// the peer sent.
pub proof fn law_peer_clock_is_noted(
    before: Option<MatrixModel>,
    from: Seq<char>,
    known: ClockModel,
    after: Option<MatrixModel>,
    row: Seq<char>,
    n: Seq<char>,
)
    requires
        inners::learns_row(before, from, known, after),
    ensures
        after is Some == before is Some,
        before is Some ==> (after->0.contains_key(row) <==> before->0.contains_key(row) || row
            == from),
        before is Some ==> clocks::counter_of(after->0[from], n) >= clocks::counter_of(known, n),
        before is Some && before->0.contains_key(row) ==> clocks::counter_of(after->0[row], n)
            >= clocks::counter_of(before->0[row], n),
        before is Some && before->0.contains_key(row) && row != from ==> after->0[row]
            == before->0[row],
        before is Some && before->0.contains_key(from) ==> clocks::counter_of(after->0[from], n)
            == clocks::counter_of(known, n) || clocks::counter_of(after->0[from], n)
            == clocks::counter_of(before->0[from], n),
        before is Some && !before->0.contains_key(from) ==> after->0[from] == known,
{
    if let Some(m) = before {
        matrices::law_matrix_join_takes_the_greater(m, inners::one_row(from, known), row, n);
        matrices::law_matrix_join_takes_the_greater(m, inners::one_row(from, known), from, n);
    }
}

// ── Writes and merges ───────────────────────────────────────────────────

/// A local operation is the replica's next event, and is applied with that
/// event's dot; of no other replica is anything learnt, and the coordinator
/// stays as it is.
pub proof fn law_write_is_the_next_event<C: DeltaCrdt>(
    before: ReplicaModel<C::V>,
    op: <C::Op as View>::V,
    after: ReplicaModel<C::V>,
    d: <C::Delta as View>::V,
    n: Seq<char>,
)
    requires
        inners::performed::<C>(before, op, after, d),
        clocks::counter_of(dots::effective(before.dvv), before.dvv.dot.node_id) < u64::MAX,
    ensures
        after.gc == before.gc,
        after.dvv.dot.node_id == before.dvv.dot.node_id,
        after.dvv.dot.counter == clocks::counter_of(
            dots::effective(before.dvv),
            before.dvv.dot.node_id,
        ) + 1,
        clocks::counter_of(dots::effective(after.dvv), after.dvv.dot.node_id)
            == after.dvv.dot.counter,
        n != before.dvv.dot.node_id ==> clocks::counter_of(dots::effective(after.dvv), n)
            == clocks::counter_of(dots::effective(before.dvv), n),
        after.state == C::after_local(before.state, after.dvv.dot, op),
        C::announces_local(before.state, after.dvv.dot, op, after.dvv, d),
{
    dots::law_event_is_fresh(before.dvv, n);
    dots::law_event_is_fresh(before.dvv, before.dvv.dot.node_id);
}

/// What a peer sent is merged just when it can be read: the replica then has
/// merged the delta, and knows of each replica the more of what it knew and
/// what came with the delta. Otherwise nothing changes.
pub proof fn law_delta_is_taken_in<C: DeltaCrdt>(
    before: ReplicaModel<C::V>,
    message: <C::DeltaMessage as View>::V,
    after: ReplicaModel<C::V>,
    taken: bool,
    n: Seq<char>,
)
    requires
        inners::took_in::<C>(before, message, after, taken),
    ensures
        taken == C::read_delta(message) is Ok,
        !taken ==> after == before,
        after.gc == before.gc,
        after.dvv.dot.node_id == before.dvv.dot.node_id,
        taken ==> after.state == C::after_merge(before.state, C::read_delta(message)->Ok_0),
        clocks::counter_of(dots::effective(after.dvv), n) >= clocks::counter_of(
            dots::effective(before.dvv),
            n,
        ),
        taken ==> clocks::counter_of(dots::effective(after.dvv), n) >= clocks::counter_of(
            C::Delta::metadata(C::read_delta(message)->Ok_0).0,
            n,
        ),
        taken && n == C::Delta::metadata(C::read_delta(message)->Ok_0).1 ==> clocks::counter_of(
            dots::effective(after.dvv),
            n,
        ) >= C::Delta::metadata(C::read_delta(message)->Ok_0).2,
        taken ==> {
            ||| clocks::counter_of(dots::effective(after.dvv), n) == clocks::counter_of(
                dots::effective(before.dvv),
                n,
            )
            ||| clocks::counter_of(dots::effective(after.dvv), n) == clocks::counter_of(
                C::Delta::metadata(C::read_delta(message)->Ok_0).0,
                n,
            )
            ||| n == C::Delta::metadata(C::read_delta(message)->Ok_0).1 && clocks::counter_of(
                dots::effective(after.dvv),
                n,
            ) == C::Delta::metadata(C::read_delta(message)->Ok_0).2
        },
{
    if taken {
        let metadata = C::Delta::metadata(C::read_delta(message)->Ok_0);
        let carried = inners::delta_vector(metadata);
        dots::law_merge_takes_the_greater(before.dvv, carried, n);
        dots::law_effective_counts_context_and_dot(carried, n);
    }
}

/// A delta of a set carries its sender's clock and dot.
pub proof fn law_set_delta_carries_its_clock<E: ElementCodec>(d: DeltaModel<E::V>)
    ensures
        OrSetDelta::<E>::metadata(d).0 == d.context,
        OrSetDelta::<E>::metadata(d).1 == d.dot_node,
        OrSetDelta::<E>::metadata(d).2 == d.dot_counter,
{
}

// ── Engines ─────────────────────────────────────────────────────────────

/// A strategy that pushes advertises the engine's clock as it is after the
/// change, to every peer or to one; one that does not says nothing.
pub proof fn law_change_is_advertised<C: DeltaCrdt, S: DisseminationStrategy>(
    e: CrdtEngine<C, S>,
    registry: PeerRegistry,
    sent: Seq<(PeerHandle, Envelope)>,
    i: int,
)
    requires
        engines::advertised(e, registry, sent),
    ensures
        !S::pushes() ==> sent.len() == 0,
        S::pushes() && S::pushes_to_all() ==> sent.len() == registry@.dom().len(),
        S::pushes() && !S::pushes_to_all() && (exists|n: Seq<char>| registry@.contains_key(n))
            ==> sent.len() == 1,
        0 <= i < sent.len() ==> sent[i].1@ is Some && sent[i].1@->0 is CrdtPullRequest
            && sent[i].1@->0->CrdtPullRequest_0.knowledge == Some(dots::effective(e.inner.dvv@))
            && sent[i].1@->0->CrdtPullRequest_0.crdt_id == e.crdt_id@
            && sent[i].1@->0->CrdtPullRequest_0.origin_node_id == e.node_id@
            && sent[i].1@->0->CrdtPullRequest_0.gc_replica == (e.inner.gc@.matrix is Some),
        0 <= i < sent.len() ==> registries::is_connected(registry@, sent[i].0.channel),
{
    if S::pushes() {
        sending::law_clock_reaches_peers(
            S::pushes_to_all(),
            registry,
            sent,
            e.crdt_id@,
            e.node_id@,
            e.inner.gc@.matrix is Some,
            dots::effective(e.inner.dvv@),
        );
        if 0 <= i < sent.len() {
            sending::law_request_carries_the_clock(
                S::pushes_to_all(),
                registry,
                sent,
                e.crdt_id@,
                e.node_id@,
                e.inner.gc@.matrix is Some,
                dots::effective(e.inner.dvv@),
                i,
            );
        }
    }
}

/// A write at an engine is its replica's next event, and is advertised.
pub proof fn law_engine_writes<C: DeltaCrdt, S: DisseminationStrategy>(
    before: CrdtEngine<C, S>,
    registry: PeerRegistry,
    op: <C::Op as View>::V,
    after: CrdtEngine<C, S>,
    sent: Seq<(PeerHandle, Envelope)>,
)
    requires
        engines::wrote(before, registry, op, after, sent),
        clocks::counter_of(dots::effective(before.inner.dvv@), before.inner.dvv@.dot.node_id)
            < u64::MAX,
    ensures
        after.node_id@ == before.node_id@,
        after.crdt_id@ == before.crdt_id@,
        after.inner.gc == before.inner.gc,
        after.inner.dvv@.dot.node_id == before.inner.dvv@.dot.node_id,
        after.inner.dvv@.dot.counter == clocks::counter_of(
            dots::effective(before.inner.dvv@),
            before.inner.dvv@.dot.node_id,
        ) + 1,
        after.inner.dvv@.context == before.inner.dvv@.context,
        after.inner.crdt@ == C::after_local(before.inner.crdt@, after.inner.dvv@.dot, op),
        engines::advertised(after, registry, sent),
        !S::pushes() ==> after.dissemination.rounds() == before.dissemination.rounds(),
        S::pushes() ==> after.dissemination.rounds() == sending::round_after(
            registry,
            before.dissemination.rounds(),
        ),
        after.dissemination.pull_every() == before.dissemination.pull_every(),
{
    dots::law_event_is_the_owners(before.inner.dvv@);
}

/// An engine merges a delta just when it is for its instance and can be read;
/// it then learns the matrix that came along, and advertises its clock.
/// Otherwise nothing changes and nothing is said.
pub proof fn law_engine_merges<C: DeltaCrdt, S: DisseminationStrategy>(
    before: CrdtEngine<C, S>,
    registry: PeerRegistry,
    crdt_id: Seq<char>,
    payload: Option<C::DeltaMessage>,
    knowledge_matrix: Option<MatrixClock>,
    after: CrdtEngine<C, S>,
    sent: Seq<(PeerHandle, Envelope)>,
    n: Seq<char>,
)
    requires
        engines::merged_in(
            before,
            registry,
            crdt_id,
            payload,
            knowledge_matrix,
            after,
            sent,
        ),
    ensures
        after.node_id@ == before.node_id@,
        after.crdt_id@ == before.crdt_id@,
        after.inner.gc@.epoch == before.inner.gc@.epoch,
        !(crdt_id == before.crdt_id@ && payload is Some && C::read_delta(payload->0@) is Ok)
            ==> sent.len() == 0 && after.inner.crdt@ == before.inner.crdt@ && after.inner.dvv@
            == before.inner.dvv@ && after.inner.gc@ == before.inner.gc@,
        crdt_id == before.crdt_id@ && payload is Some && C::read_delta(payload->0@) is Ok
            ==> after.inner.crdt@ == C::after_merge(
            before.inner.crdt@,
            C::read_delta(payload->0@)->Ok_0,
        ) && engines::advertised(after, registry, sent),
        crdt_id == before.crdt_id@ && payload is Some && C::read_delta(payload->0@) is Ok
            ==> clocks::counter_of(dots::effective(after.inner.dvv@), n) >= clocks::counter_of(
            C::Delta::metadata(C::read_delta(payload->0@)->Ok_0).0,
            n,
        ),
        clocks::counter_of(dots::effective(after.inner.dvv@), n) >= clocks::counter_of(
            dots::effective(before.inner.dvv@),
            n,
        ),
        after.inner.gc@.matrix is Some == before.inner.gc@.matrix is Some,
        crdt_id == before.crdt_id@ && payload is Some && C::read_delta(payload->0@) is Ok
            && knowledge_matrix is Some && before.inner.gc@.matrix is Some
            ==> after.inner.gc@.matrix == Some(
            matrices::matrix_join(before.inner.gc@.matrix->0, knowledge_matrix->0@),
        ),
        knowledge_matrix is None ==> after.inner.gc@.matrix == before.inner.gc@.matrix,
{
    if engines::accepts(before, crdt_id, payload) {
        let metadata = C::Delta::metadata(C::read_delta(payload->0@)->Ok_0);
        let carried = inners::delta_vector(metadata);
        dots::law_merge_takes_the_greater(before.inner.dvv@, carried, n);
        dots::law_effective_counts_context_and_dot(carried, n);
    }
}

/// An engine answers just those peers that ask for its instance; it answers
/// from its state and clock, which stay as they are, and notes the peer's
/// clock.
pub proof fn law_engine_answers<C: DeltaCrdt, S: DisseminationStrategy>(
    before: CrdtEngine<C, S>,
    registry: PeerRegistry,
    from: Seq<char>,
    crdt_id: Seq<char>,
    known: ClockModel,
    after: CrdtEngine<C, S>,
    response: Option<PullResponse<C::DeltaMessage>>,
)
    requires
        engines::answered(before, registry, from, crdt_id, known, after, response),
    ensures
        response is Some <==> crdt_id == before.crdt_id@,
        after.inner.crdt@ == before.inner.crdt@,
        after.inner.dvv@ == before.inner.dvv@,
        after.inner.gc@.epoch == before.inner.gc@.epoch,
        after.node_id@ == before.node_id@,
        after.crdt_id@ == before.crdt_id@,
        response is None ==> after.inner.gc@.matrix == before.inner.gc@.matrix,
        response is Some ==> inners::learns_row(
            before.inner.gc@.matrix,
            from,
            known,
            after.inner.gc@.matrix,
        ),
        response is Some ==> inners::answers_pull::<C>(
            before.inner.crdt@,
            before.inner.dvv@,
            after.inner.gc@.matrix,
            registry@,
            from,
            known,
            response->0,
        ),
{
}

/// A round of pulling asks every connected peer with the engine's clock, where
/// the strategy pulls, and says nothing otherwise; the replica stays as it is.
pub proof fn law_engine_pulls<C: DeltaCrdt, S: DisseminationStrategy>(
    before: CrdtEngine<C, S>,
    registry: PeerRegistry,
    after: CrdtEngine<C, S>,
    sent: Seq<(PeerHandle, Envelope)>,
    i: int,
)
    requires
        engines::pulled(before, registry, after, sent),
    ensures
        after.inner.crdt@ == before.inner.crdt@,
        after.inner.dvv@ == before.inner.dvv@,
        after.inner.gc@ == before.inner.gc@,
        !S::pulls() ==> sent.len() == 0,
        S::pulls() ==> sent.len() == registry@.dom().len(),
        S::pulls() ==> forall|n: Seq<char>| #[trigger]
            registry@.contains_key(n) ==> exists|k: int|
                0 <= k < sent.len() && (#[trigger] sent[k]).0.channel == registry@[n].1,
        0 <= i < sent.len() ==> sent[i].1@ is Some && sent[i].1@->0 is CrdtPullRequest
            && sent[i].1@->0->CrdtPullRequest_0.knowledge == Some(
            dots::effective(before.inner.dvv@),
        ) && sent[i].1@->0->CrdtPullRequest_0.crdt_id == before.crdt_id@
            && sent[i].1@->0->CrdtPullRequest_0.origin_node_id == before.node_id@,
{
    if S::pulls() {
        sending::law_clock_reaches_peers(
            true,
            registry,
            sent,
            before.crdt_id@,
            before.node_id@,
            before.inner.gc@.matrix is Some,
            dots::effective(before.inner.dvv@),
        );
        if 0 <= i < sent.len() {
            sending::law_request_carries_the_clock(
                true,
                registry,
                sent,
                before.crdt_id@,
                before.node_id@,
                before.inner.gc@.matrix is Some,
                dots::effective(before.inner.dvv@),
                i,
            );
        }
    }
}

/// Of the requests to an engine, only writes, deltas, clocks of peers and
/// rounds of pulling leave anything changed.
pub proof fn law_questions_change_nothing<C: DeltaCrdt, S: DisseminationStrategy>(
    before: CrdtEngine<C, S>,
    registry: PeerRegistry,
    request: CrdtEngineRequest<C>,
    after: CrdtEngine<C, S>,
    reply: CrdtEngineReply<C::DeltaMessage>,
)
    requires
        engines::handled(before, registry, request, after, reply),
    ensures
        !(request is ClientOperation || request is DeltaResponse || request is DeltaRequest
            || request is DoPullRound) ==> after == before,
        !(request is ClientOperation || request is DeltaResponse) ==> after.inner.crdt@
            == before.inner.crdt@ && after.inner.dvv@ == before.inner.dvv@,
        request is PrintState ==> reply is Tell && C::shows(before.inner.crdt@, reply->Tell_0@),
        request is PrintMatrix ==> reply is Tell && gc::shows_matrix(
            before.inner.gc@.matrix,
            reply->Tell_0@,
        ),
        request is GetRandomElement ==> reply is Tell && (C::may_offer(
            before.inner.crdt@,
            Some(reply->Tell_0@),
        ) || C::may_offer(before.inner.crdt@, None) && reply->Tell_0@ == "error: empty crdt"@),
        request is LogCrdtMetrics ==> reply == CrdtEngineReply::<C::DeltaMessage>::LogMetrics(
            before.inner.gc@.epoch,
        ),
        request is ObserveEpochChange ==> reply is ReadMetadata,
        request is InitiateGc ==> reply is Initiate && reply->Initiate_0 is ReadMetadata,
        request is PrintInternals ==> reply is TellInternals,
        request is DeregistrationState ==> reply is Final,
        request is DeltaRequest ==> (reply is Respond <==> request->DeltaRequest_1@
            == before.crdt_id@),
        request is DeltaRequest && reply is Respond ==> reply->Respond_0 == request->DeltaRequest_0,
{
}

/// The last word of a departing replica numbers its last event, and holds its
/// whole state.
pub proof fn law_last_word_tells_all<E: ElementCodec>(
    state: SetModel<E::V>,
    dvv: DvvModel,
    number: u64,
    message: crate::proto::WireDelta,
)
    requires
        engines::last_word::<OrSet<E>>(state, dvv, number, message),
        sets::separated(state),
    ensures
        number == dvv.dot.counter,
        wire::read_delta::<E>(message) is Ok,
        OrSet::<E>::after_merge(sets::empty_set(), wire::read_delta::<E>(message)->Ok_0) == state,
        wire::read_delta::<E>(message)->Ok_0.context == dots::effective(dvv),
{
    let d = choose|d: DeltaModel<E::V>| #[trigger]
        OrSet::<E>::is_full_state(state, dvv, d) && number == OrSetDelta::<E>::metadata(d).2
            && message == OrSet::<E>::delta_message(d);
    wire::lemma_delta_round_trip::<E>(d);
    laws::law_full_state_sync(state, d);
}

} // verus!
