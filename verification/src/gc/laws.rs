//! What holds of garbage collection across its steps.

use vstd::prelude::*;

use crate::common::{ClockModel, MatrixModel};
use crate::crdt::or_set as sets;
use crate::crdt::or_set::{DeltaModel, OrSet, SetModel};
use crate::crdt::or_set_laws;
use crate::crdt::or_set_wire;
use crate::crdt::{DeltaCrdt, ElementCodec};
use crate::gc::coordinator as gc;
use crate::gc::coordinator::{
    BootstrapEventModel, BootstrapModel, GcInitiationAbortReason, InitiationEventModel,
    InitiationModel, ReplicaModel,
};
use crate::gc::stable;
use crate::gc::storage::{EpochMetadataModel, EpochStateModel};
use crate::logical_clocks::dot_version_vector as dots;
use crate::logical_clocks::dot_version_vector::{DotModel, DvvModel};
use crate::logical_clocks::version_vector as clocks;
use crate::proto::WireDelta;

verus! {

/// A mark that a replica has left for an epoch is taken back before it is
/// done, whatever comes of the steps.
pub proof fn law_claimed_mark_is_released<C: DeltaCrdt>(
    node: Seq<char>,
    before: ReplicaModel<C::V>,
    step: InitiationModel<<C::DeltaMessage as View>::V>,
    event: InitiationEventModel,
    after: ReplicaModel<C::V>,
    next: InitiationModel<<C::DeltaMessage as View>::V>,
)
    requires
        gc::initiation_follows::<C>(node, before, step, event, after, next),
        !(step is Done),
        next is Done,
    ensures
        step is ReleaseIntent && event is Released || step is ClaimIntent && event
            == InitiationEventModel::Claimed(false),
{
}

/// A replica moves to the new epoch only once both its records are written.
pub proof fn law_epoch_moves_after_records<C: DeltaCrdt>(
    node: Seq<char>,
    before: ReplicaModel<C::V>,
    step: InitiationModel<<C::DeltaMessage as View>::V>,
    event: InitiationEventModel,
    after: ReplicaModel<C::V>,
    next: InitiationModel<<C::DeltaMessage as View>::V>,
)
    requires
        gc::initiation_follows::<C>(node, before, step, event, after, next),
        after.gc.epoch != before.gc.epoch,
    ensures
        step is WriteMetadata,
        event is Written,
        after.gc.epoch == step->WriteMetadata_metadata.epoch,
{
}

/// A replica that finds another one about to begin the epoch, or a new
/// member, or no progress, changes nothing.
pub proof fn law_abort_changes_nothing<C: DeltaCrdt>(
    node: Seq<char>,
    before: ReplicaModel<C::V>,
    step: InitiationModel<<C::DeltaMessage as View>::V>,
    event: InitiationEventModel,
    after: ReplicaModel<C::V>,
    next: InitiationModel<<C::DeltaMessage as View>::V>,
)
    requires
        gc::initiation_follows::<C>(node, before, step, event, after, next),
        match next {
            InitiationModel::ReleaseIntent { epoch: _, outcome } => outcome is Some,
            InitiationModel::Done { outcome } => outcome is Some,
            _ => false,
        },
    ensures
        after == before,
{
    if let InitiationModel::ReadFinalDots { epoch, previous, members } = step {
        if let InitiationEventModel::FinalDots(final_dots) = event {
            let (v, obsolete) = choose|v: ClockModel, obsolete: Set<Seq<char>>| #[trigger]
                gc::finds_stable(before, node, members, final_dots, v, obsolete) && gc::collects::<
                    C,
                >(node, epoch, previous, v, obsolete, before, after, next);
            assert(gc::collects::<C>(node, epoch, previous, v, obsolete, before, after, next));
        }
    }
}

/// A tombstone is collected only when every member has seen both the addition
/// and the removal.
pub proof fn law_collected_seen_by_members<E: ElementCodec>(
    node: Seq<char>,
    epoch: u64,
    previous: ClockModel,
    members: Seq<Seq<char>>,
    final_dots: ClockModel,
    matrix: MatrixModel,
    v: ClockModel,
    obsolete: Set<Seq<char>>,
    before: ReplicaModel<SetModel<E::V>>,
    after: ReplicaModel<SetModel<E::V>>,
    next: InitiationModel<WireDelta>,
    d: DotModel,
    i: int,
)
    requires
        before.gc.matrix == Some(matrix),
        gc::finds_stable(before, node, members, final_dots, v, obsolete),
        gc::collects::<OrSet<E>>(node, epoch, previous, v, obsolete, before, after, next),
        before.state.tombstones.contains_key(d),
        !after.state.tombstones.contains_key(d),
        d.counter > 0,
        before.state.tombstones[d].counter > 0,
        0 <= i < members.len(),
    ensures
        stable::seen_by(matrix, node, dots::effective(before.dvv), members[i]) is Some,
        dots::covers(
            stable::seen_by(matrix, node, dots::effective(before.dvv), members[i])->0,
            d,
        ),
        dots::covers(
            stable::seen_by(matrix, node, dots::effective(before.dvv), members[i])->0,
            before.state.tombstones[d],
        ),
{
    let own = dots::effective(before.dvv);
    let kept = v.remove_keys(obsolete);
    let removal = before.state.tombstones[d];
    let frontier = dots::effective(dots::with_clock(node, kept));
    assert(sets::is_stable(frontier, d, removal));
    dots::law_with_clock_keeps_counters(node, kept, d.node_id);
    dots::law_with_clock_keeps_counters(node, kept, removal.node_id);
    assert(dots::covers(v, d));
    assert(dots::covers(v, removal));
    stable::law_stable_seen_by_members(
        matrix,
        node,
        own,
        members,
        final_dots,
        v,
        obsolete,
        d,
        i,
    );
    stable::law_stable_seen_by_members(
        matrix,
        node,
        own,
        members,
        final_dots,
        v,
        obsolete,
        removal,
        i,
    );
}

/// A collection neither removes an element at the collecting replica nor
/// brings one back.
pub proof fn law_collection_keeps_members<E: ElementCodec>(
    node: Seq<char>,
    epoch: u64,
    previous: ClockModel,
    v: ClockModel,
    obsolete: Set<Seq<char>>,
    before: ReplicaModel<SetModel<E::V>>,
    after: ReplicaModel<SetModel<E::V>>,
    next: InitiationModel<WireDelta>,
)
    requires
        sets::separated(before.state),
        gc::collects::<OrSet<E>>(node, epoch, previous, v, obsolete, before, after, next),
    ensures
        sets::members(after.state) == sets::members(before.state),
{
    let kept = v.remove_keys(obsolete);
    or_set_laws::law_gc_keeps_members(
        before.state,
        dots::effective(dots::with_clock(node, kept)),
    );
}

/// A replica's clock covers its state: after a collection it still covers
/// every event of a replica that was not forgotten.
pub proof fn law_collection_stays_known<E: ElementCodec>(
    node: Seq<char>,
    epoch: u64,
    previous: ClockModel,
    v: ClockModel,
    obsolete: Set<Seq<char>>,
    before: ReplicaModel<SetModel<E::V>>,
    after: ReplicaModel<SetModel<E::V>>,
    next: InitiationModel<WireDelta>,
)
    requires
        or_set_laws::known_by(before.state, dots::effective(before.dvv)),
        gc::collects::<OrSet<E>>(node, epoch, previous, v, obsolete, before, after, next),
    ensures
        or_set_laws::known_by(after.state, dots::effective(before.dvv)),
        forall|d: DotModel|
            dots::covers(dots::effective(before.dvv), d) && !obsolete.contains(d.node_id)
                ==> #[trigger] dots::covers(dots::effective(after.dvv), d),
{
    let kept = v.remove_keys(obsolete);
    or_set_laws::law_gc_stays_known(
        before.state,
        dots::effective(before.dvv),
        dots::effective(dots::with_clock(node, kept)),
    );
}

/// A replica that joins empty with the state that an initiator wrote has the
/// initiator's state.
pub proof fn law_joining_restores_state<E: ElementCodec>(
    node: Seq<char>,
    epoch: u64,
    before: ReplicaModel<SetModel<E::V>>,
    written: SetModel<E::V>,
    full: DeltaModel<E::V>,
    clock: ClockModel,
)
    requires
        before.state == sets::empty_set::<E::V>(),
        sets::separated(written),
        sets::describes(full, written),
    ensures
        gc::joined_from::<OrSet<E>>(
            node,
            before,
            epoch,
            (EpochStateModel {
                epoch,
                state_payload: Some(or_set_wire::delta_message::<E>(full)),
                initiator_clock: clock,
            }),
        ).state == written,
{
    or_set_wire::lemma_delta_round_trip::<E>(full);
    or_set_laws::law_full_state_sync(written, full);
}

// ── What a collection publishes ─────────────────────────────────────────

/// What a collection publishes as stable is the stable timestamp of the
/// members, with the last events that were found, without the replicas to
/// forget; those are published beside it.
pub proof fn law_published_is_what_was_found<C: DeltaCrdt>(
    node: Seq<char>,
    epoch: u64,
    previous: ClockModel,
    members: Seq<Seq<char>>,
    final_dots: ClockModel,
    before: ReplicaModel<C::V>,
    after: ReplicaModel<C::V>,
    state: EpochStateModel<<C::DeltaMessage as View>::V>,
    metadata: EpochMetadataModel,
)
    requires
        gc::initiation_follows::<C>(
            node,
            before,
            InitiationModel::ReadFinalDots { epoch, previous, members },
            InitiationEventModel::FinalDots(final_dots),
            after,
            InitiationModel::WriteState { state, metadata },
        ),
    ensures
        members.len() > 0,
        before.gc.matrix is Some,
        exists|v: ClockModel| #[trigger]
            stable::is_stable_timestamp(
                before.gc.matrix->0,
                node,
                dots::effective(before.dvv),
                members,
                final_dots,
                v,
                metadata.obsolete_dots,
            ) && !clocks::leq(v, previous) && (forall|n: Seq<char>| #[trigger]
                metadata.v_stable.contains_key(n) <==> v.contains_key(n)
                    && !metadata.obsolete_dots.contains(n)) && (forall|n: Seq<char>| #[trigger]
                metadata.v_stable.contains_key(n) ==> metadata.v_stable[n] == v[n]),
        metadata.epoch == epoch,
        state.epoch == epoch,
{
    let next = InitiationModel::WriteState { state, metadata };
    let (v, obsolete) = choose|v: ClockModel, obsolete: Set<Seq<char>>| #[trigger]
        gc::finds_stable(before, node, members, final_dots, v, obsolete) && gc::collects::<C>(
            node,
            epoch,
            previous,
            v,
            obsolete,
            before,
            after,
            next,
        );
    assert(gc::collects::<C>(node, epoch, previous, v, obsolete, before, after, next));
    assert(!clocks::leq(v, previous));
    let n = choose|n: Seq<char>| !(#[trigger] clocks::counter_of(v, n) <= clocks::counter_of(
        previous,
        n,
    ));
    assert(v.contains_key(n));
    assert(obsolete == metadata.obsolete_dots);
}

/// What a collection publishes as stable, every member is known to have seen.
pub proof fn law_published_seen_by_members<C: DeltaCrdt>(
    node: Seq<char>,
    epoch: u64,
    previous: ClockModel,
    members: Seq<Seq<char>>,
    final_dots: ClockModel,
    before: ReplicaModel<C::V>,
    after: ReplicaModel<C::V>,
    state: EpochStateModel<<C::DeltaMessage as View>::V>,
    metadata: EpochMetadataModel,
    i: int,
    n: Seq<char>,
)
    requires
        gc::initiation_follows::<C>(
            node,
            before,
            InitiationModel::ReadFinalDots { epoch, previous, members },
            InitiationEventModel::FinalDots(final_dots),
            after,
            InitiationModel::WriteState { state, metadata },
        ),
        0 <= i < members.len(),
    ensures
        before.gc.matrix is Some,
        members[i] == node ==> clocks::counter_of(metadata.v_stable, n) <= clocks::counter_of(
            dots::effective(before.dvv),
            n,
        ),
        members[i] != node ==> before.gc.matrix->0.contains_key(members[i]) && clocks::counter_of(
            metadata.v_stable,
            n,
        ) <= clocks::counter_of(before.gc.matrix->0[members[i]], n),
{
    law_published_is_what_was_found::<C>(
        node,
        epoch,
        previous,
        members,
        final_dots,
        before,
        after,
        state,
        metadata,
    );
    let matrix = before.gc.matrix->0;
    let own = dots::effective(before.dvv);
    let v = choose|v: ClockModel| #[trigger]
        stable::is_stable_timestamp(
            matrix,
            node,
            own,
            members,
            final_dots,
            v,
            metadata.obsolete_dots,
        ) && !clocks::leq(v, previous) && (forall|n: Seq<char>| #[trigger]
            metadata.v_stable.contains_key(n) <==> v.contains_key(n)
                && !metadata.obsolete_dots.contains(n)) && (forall|n: Seq<char>| #[trigger]
            metadata.v_stable.contains_key(n) ==> metadata.v_stable[n] == v[n]);
    stable::law_seen_by_own_clock_or_row(matrix, node, own, members[i]);
    let k = choose|k: Seq<char>| !(#[trigger] clocks::counter_of(v, k) <= clocks::counter_of(
        previous,
        k,
    ));
    let some = DotModel { node_id: k, counter: clocks::counter_of(v, k) };
    stable::law_stable_seen_by_members(
        matrix,
        node,
        own,
        members,
        final_dots,
        v,
        metadata.obsolete_dots,
        some,
        i,
    );
    let d = DotModel { node_id: n, counter: clocks::counter_of(metadata.v_stable, n) };
    if d.counter > 0 {
        stable::law_stable_seen_by_members(
            matrix,
            node,
            own,
            members,
            final_dots,
            v,
            metadata.obsolete_dots,
            d,
            i,
        );
    }
}

/// A collection publishes as stable all that every member has seen, and every
/// departed replica that is not forgotten; but nothing of those that are.
pub proof fn law_published_is_all_that_is_stable<C: DeltaCrdt>(
    node: Seq<char>,
    epoch: u64,
    previous: ClockModel,
    members: Seq<Seq<char>>,
    final_dots: ClockModel,
    before: ReplicaModel<C::V>,
    after: ReplicaModel<C::V>,
    state: EpochStateModel<<C::DeltaMessage as View>::V>,
    metadata: EpochMetadataModel,
    d: DotModel,
)
    requires
        gc::initiation_follows::<C>(
            node,
            before,
            InitiationModel::ReadFinalDots { epoch, previous, members },
            InitiationEventModel::FinalDots(final_dots),
            after,
            InitiationModel::WriteState { state, metadata },
        ),
        d.counter > 0,
        !metadata.obsolete_dots.contains(d.node_id),
        forall|i: int|
            0 <= i < members.len() && #[trigger] members[i] == node ==> dots::covers(
                dots::effective(before.dvv),
                d,
            ),
        forall|i: int|
            0 <= i < members.len() && #[trigger] members[i] != node ==> dots::covers(
                before.gc.matrix->0[members[i]],
                d,
            ),
        forall|p: Seq<char>| #[trigger]
            before.gc.matrix->0.contains_key(p) && !members.contains(p)
                && !metadata.obsolete_dots.contains(p) ==> dots::covers(before.gc.matrix->0[p], d),
    ensures
        dots::covers(metadata.v_stable, d),
        forall|n: Seq<char>| #[trigger]
            metadata.obsolete_dots.contains(n) ==> !metadata.v_stable.contains_key(n),
{
    law_published_is_what_was_found::<C>(
        node,
        epoch,
        previous,
        members,
        final_dots,
        before,
        after,
        state,
        metadata,
    );
    let matrix = before.gc.matrix->0;
    let own = dots::effective(before.dvv);
    let v = choose|v: ClockModel| #[trigger]
        stable::is_stable_timestamp(
            matrix,
            node,
            own,
            members,
            final_dots,
            v,
            metadata.obsolete_dots,
        ) && !clocks::leq(v, previous) && (forall|n: Seq<char>| #[trigger]
            metadata.v_stable.contains_key(n) <==> v.contains_key(n)
                && !metadata.obsolete_dots.contains(n)) && (forall|n: Seq<char>| #[trigger]
            metadata.v_stable.contains_key(n) ==> metadata.v_stable[n] == v[n]);
    assert forall|i: int| 0 <= i < members.len() implies stable::seen_by(
        matrix,
        node,
        own,
        #[trigger] members[i],
    ) is Some && dots::covers(stable::seen_by(matrix, node, own, members[i])->0, d) by {
        law_published_seen_by_members::<C>(
            node,
            epoch,
            previous,
            members,
            final_dots,
            before,
            after,
            state,
            metadata,
            i,
            d.node_id,
        );
        stable::law_seen_by_own_clock_or_row(matrix, node, own, members[i]);
    }
    stable::law_seen_by_all_is_stable(
        matrix,
        node,
        own,
        members,
        final_dots,
        v,
        metadata.obsolete_dots,
        d,
    );
    assert(metadata.v_stable.contains_key(d.node_id));
    assert forall|n: Seq<char>| #[trigger] metadata.obsolete_dots.contains(
        n,
    ) implies !metadata.v_stable.contains_key(n) by {}
}

/// Whoever observes what a collection published, collects only tombstones
/// whose addition and removal every member is known to have seen.
pub proof fn law_observers_collect_what_members_saw<E: ElementCodec>(
    node: Seq<char>,
    epoch: u64,
    previous: ClockModel,
    members: Seq<Seq<char>>,
    final_dots: ClockModel,
    before: ReplicaModel<SetModel<E::V>>,
    after: ReplicaModel<SetModel<E::V>>,
    state: EpochStateModel<WireDelta>,
    metadata: EpochMetadataModel,
    observer: Seq<char>,
    held: SetModel<E::V>,
    d: DotModel,
    i: int,
)
    requires
        gc::initiation_follows::<OrSet<E>>(
            node,
            before,
            InitiationModel::ReadFinalDots { epoch, previous, members },
            InitiationEventModel::FinalDots(final_dots),
            after,
            InitiationModel::WriteState { state, metadata },
        ),
        held.tombstones.contains_key(d),
        !OrSet::<E>::after_gc(
            held,
            dots::with_clock(observer, metadata.v_stable),
        ).tombstones.contains_key(d),
        0 <= i < members.len(),
    ensures
        before.gc.matrix is Some,
        members[i] == node ==> dots::covers(dots::effective(before.dvv), d) && dots::covers(
            dots::effective(before.dvv),
            held.tombstones[d],
        ),
        members[i] != node ==> dots::covers(before.gc.matrix->0[members[i]], d) && dots::covers(
            before.gc.matrix->0[members[i]],
            held.tombstones[d],
        ),
{
    let removal = held.tombstones[d];
    law_published_seen_by_members::<OrSet<E>>(
        node,
        epoch,
        previous,
        members,
        final_dots,
        before,
        after,
        state,
        metadata,
        i,
        d.node_id,
    );
    law_published_seen_by_members::<OrSet<E>>(
        node,
        epoch,
        previous,
        members,
        final_dots,
        before,
        after,
        state,
        metadata,
        i,
        removal.node_id,
    );
    dots::law_with_clock_keeps_counters(observer, metadata.v_stable, d.node_id);
    dots::law_with_clock_keeps_counters(observer, metadata.v_stable, removal.node_id);
    or_set_laws::law_gc_drops_just_the_stable::<E>(
        held,
        dots::with_clock(observer, metadata.v_stable),
        d,
    );
}

/// A collection goes on just when something is stable that was not before:
/// otherwise nothing is written, and the mark is taken back.
pub proof fn law_collects_just_on_progress<C: DeltaCrdt>(
    node: Seq<char>,
    epoch: u64,
    previous: ClockModel,
    members: Seq<Seq<char>>,
    final_dots: ClockModel,
    before: ReplicaModel<C::V>,
    after: ReplicaModel<C::V>,
    next: InitiationModel<<C::DeltaMessage as View>::V>,
)
    requires
        gc::initiation_follows::<C>(
            node,
            before,
            InitiationModel::ReadFinalDots { epoch, previous, members },
            InitiationEventModel::FinalDots(final_dots),
            after,
            next,
        ),
    ensures
        !(next is WriteState) ==> (next is ReleaseIntent && next->ReleaseIntent_epoch == epoch
            && next->ReleaseIntent_outcome == Some(GcInitiationAbortReason::NoProgress)),
        before.gc.matrix is None ==> next is ReleaseIntent,
        before.gc.matrix is Some ==> exists|v: ClockModel, obsolete: Set<Seq<char>>| #[trigger]
            stable::is_stable_timestamp(
                before.gc.matrix->0,
                node,
                dots::effective(before.dvv),
                members,
                final_dots,
                v,
                obsolete,
            ) && (next is WriteState <==> exists|n: Seq<char>| #[trigger]
                clocks::counter_of(v, n) > clocks::counter_of(previous, n)),
{
    let (v, obsolete) = choose|v: ClockModel, obsolete: Set<Seq<char>>| #[trigger]
        gc::finds_stable(before, node, members, final_dots, v, obsolete) && gc::collects::<C>(
            node,
            epoch,
            previous,
            v,
            obsolete,
            before,
            after,
            next,
        );
    assert(gc::collects::<C>(node, epoch, previous, v, obsolete, before, after, next));
    if clocks::leq(v, previous) {
        assert forall|n: Seq<char>| !(#[trigger] clocks::counter_of(v, n) > clocks::counter_of(
            previous,
            n,
        )) by {
            assert(clocks::counter_of(v, n) <= clocks::counter_of(previous, n));
        }
    } else {
        let n = choose|n: Seq<char>| !(#[trigger] clocks::counter_of(v, n) <= clocks::counter_of(
            previous,
            n,
        ));
        assert(clocks::counter_of(v, n) > clocks::counter_of(previous, n));
    }
}

/// A matrix that forgets some replicas keeps the rows of all others, and in
/// each row what it says of the others.
pub proof fn law_matrix_forgets_just_these(
    m: MatrixModel,
    gone: Set<Seq<char>>,
    row: Seq<char>,
    n: Seq<char>,
)
    ensures
        gc::matrix_without(m, gone).contains_key(row) <==> m.contains_key(row) && !gone.contains(
            row,
        ),
        gc::matrix_without(m, gone).contains_key(row) ==> (gc::matrix_without(
            m,
            gone,
        )[row].contains_key(n) <==> m[row].contains_key(n) && !gone.contains(n)),
        gc::matrix_without(m, gone).contains_key(row) && m[row].contains_key(n) && !gone.contains(n)
            ==> gc::matrix_without(m, gone)[row][n] == m[row][n],
{
}

/// A vector that forgets some replicas keeps its own dot, and what it says of
/// all others.
pub proof fn law_vector_forgets_just_these(v: DvvModel, gone: Set<Seq<char>>, n: Seq<char>)
    ensures
        gc::dvv_without(v, gone).dot == v.dot,
        gc::dvv_without(v, gone).context.contains_key(n) <==> v.context.contains_key(n)
            && !gone.contains(n),
        v.context.contains_key(n) && !gone.contains(n) ==> gc::dvv_without(v, gone).context[n]
            == v.context[n],
{
}

/// A collection leaves its replica in the epoch it was in, without the
/// replicas to forget and without the tombstones that are stable by what it
/// publishes; it publishes its clock as it then is.
pub proof fn law_collector_keeps_the_rest<E: ElementCodec>(
    node: Seq<char>,
    epoch: u64,
    previous: ClockModel,
    members: Seq<Seq<char>>,
    final_dots: ClockModel,
    before: ReplicaModel<SetModel<E::V>>,
    after: ReplicaModel<SetModel<E::V>>,
    state: EpochStateModel<WireDelta>,
    metadata: EpochMetadataModel,
    d: DotModel,
)
    requires
        gc::initiation_follows::<OrSet<E>>(
            node,
            before,
            InitiationModel::ReadFinalDots { epoch, previous, members },
            InitiationEventModel::FinalDots(final_dots),
            after,
            InitiationModel::WriteState { state, metadata },
        ),
    ensures
        after.gc.epoch == before.gc.epoch,
        after.gc.matrix == Some(
            gc::matrix_without(before.gc.matrix->0, metadata.obsolete_dots),
        ),
        after.dvv == gc::dvv_without(before.dvv, metadata.obsolete_dots),
        state.initiator_clock == dots::effective(after.dvv),
        after.state.adds == before.state.adds,
        after.state.tombstones.contains_key(d) <==> before.state.tombstones.contains_key(d) && !(
        dots::covers(metadata.v_stable, d) && dots::covers(
            metadata.v_stable,
            before.state.tombstones[d],
        )),
        after.state.tombstones.contains_key(d) ==> after.state.tombstones[d]
            == before.state.tombstones[d],
{
    law_published_is_what_was_found::<OrSet<E>>(
        node,
        epoch,
        previous,
        members,
        final_dots,
        before,
        after,
        state,
        metadata,
    );
    let next = InitiationModel::WriteState { state, metadata };
    let (v, obsolete) = choose|v: ClockModel, obsolete: Set<Seq<char>>| #[trigger]
        gc::finds_stable(before, node, members, final_dots, v, obsolete) && gc::collects::<
            OrSet<E>,
        >(node, epoch, previous, v, obsolete, before, after, next);
    assert(gc::collects::<OrSet<E>>(
        node,
        epoch,
        previous,
        v,
        obsolete,
        before,
        after,
        next,
    ));
    let frontier = dots::with_clock(node, metadata.v_stable);
    or_set_laws::law_gc_drops_just_the_stable::<E>(before.state, frontier, d);
    dots::law_with_clock_keeps_counters(node, metadata.v_stable, d.node_id);
    dots::law_with_clock_keeps_counters(
        node,
        metadata.v_stable,
        before.state.tombstones[d].node_id,
    );
}

/// Whoever starts empty from the state that a collection publishes has the
/// state that the collecting replica then has.
pub proof fn law_published_state_is_the_collectors<E: ElementCodec>(
    node: Seq<char>,
    epoch: u64,
    previous: ClockModel,
    members: Seq<Seq<char>>,
    final_dots: ClockModel,
    before: ReplicaModel<SetModel<E::V>>,
    after: ReplicaModel<SetModel<E::V>>,
    state: EpochStateModel<WireDelta>,
    metadata: EpochMetadataModel,
)
    requires
        gc::initiation_follows::<OrSet<E>>(
            node,
            before,
            InitiationModel::ReadFinalDots { epoch, previous, members },
            InitiationEventModel::FinalDots(final_dots),
            after,
            InitiationModel::WriteState { state, metadata },
        ),
        sets::separated(before.state),
    ensures
        OrSet::<E>::read_delta(state.state_payload) is Ok,
        OrSet::<E>::after_merge(
            sets::empty_set(),
            OrSet::<E>::read_delta(state.state_payload)->Ok_0,
        ) == after.state,
{
    let next = InitiationModel::WriteState { state, metadata };
    let (v, obsolete) = choose|v: ClockModel, obsolete: Set<Seq<char>>| #[trigger]
        gc::finds_stable(before, node, members, final_dots, v, obsolete) && gc::collects::<
            OrSet<E>,
        >(node, epoch, previous, v, obsolete, before, after, next);
    assert(gc::collects::<OrSet<E>>(
        node,
        epoch,
        previous,
        v,
        obsolete,
        before,
        after,
        next,
    ));
    let d = choose|d: DeltaModel<E::V>| #[trigger]
        OrSet::<E>::is_full_state(after.state, after.dvv, d) && next == (
        InitiationModel::WriteState {
            state: EpochStateModel {
                epoch,
                state_payload: OrSet::<E>::delta_message(d),
                initiator_clock: dots::effective(after.dvv),
            },
            metadata: EpochMetadataModel {
                epoch,
                v_stable: v.remove_keys(obsolete),
                obsolete_dots: obsolete,
            },
        });
    assert(state.state_payload == OrSet::<E>::delta_message(d));
    or_set_wire::lemma_delta_round_trip::<E>(d);
    or_set_laws::law_gc_keeps_members(
        before.state,
        dots::effective(dots::with_clock(node, v.remove_keys(obsolete))),
    );
    or_set_laws::law_full_state_sync(after.state, d);
}

// ── The order of a collection ───────────────────────────────────────────

/// The state and the record of an epoch are written only by a replica that
/// has left the mark for it, found no new member since, and read the last
/// events of the departed; and what is told to the next step is what was
/// found.
pub proof fn law_collection_goes_in_order<C: DeltaCrdt>(
    node: Seq<char>,
    before: ReplicaModel<C::V>,
    step: InitiationModel<<C::DeltaMessage as View>::V>,
    event: InitiationEventModel,
    after: ReplicaModel<C::V>,
    next: InitiationModel<<C::DeltaMessage as View>::V>,
)
    requires
        gc::initiation_follows::<C>(node, before, step, event, after, next),
        next != step,
    ensures
        next is ListMembers ==> step is ReadMetadata && event is Metadata,
        next is ClaimIntent ==> step is ListMembers && event == InitiationEventModel::Members(
            next->ClaimIntent_members,
        ) && next->ClaimIntent_epoch == step->ListMembers_epoch && next->ClaimIntent_previous
            == step->ListMembers_previous,
        next is ListMembersAgain ==> step is ClaimIntent && event == InitiationEventModel::Claimed(
            true,
        ) && next->ListMembersAgain_epoch == step->ClaimIntent_epoch
            && next->ListMembersAgain_previous == step->ClaimIntent_previous
            && next->ListMembersAgain_members == step->ClaimIntent_members,
        next is ReadFinalDots ==> step is ListMembersAgain && event
            == InitiationEventModel::Members(next->ReadFinalDots_members)
            && next->ReadFinalDots_epoch == step->ListMembersAgain_epoch
            && next->ReadFinalDots_previous == step->ListMembersAgain_previous && (forall|k: int|
            0 <= k < next->ReadFinalDots_members.len() ==> step->ListMembersAgain_members.contains(
                #[trigger] next->ReadFinalDots_members[k],
            )),
        next is WriteState ==> step is ReadFinalDots && event is FinalDots,
        next is WriteMetadata ==> step is WriteState && event is Written
            && next->WriteMetadata_metadata == step->WriteState_metadata,
        !(next is ReadMetadata),
{
    if let InitiationModel::ReadFinalDots { epoch, previous, members } = step {
        if let InitiationEventModel::FinalDots(final_dots) = event {
            law_collects_just_on_progress::<C>(
                node,
                epoch,
                previous,
                members,
                final_dots,
                before,
                after,
                next,
            );
        }
    }
}

/// Each answer moves a collection on: to the epoch after the latest one, past
/// the mark just when it was left, past the members just when none is new, and
/// after both records to the end.
pub proof fn law_collection_moves_on<C: DeltaCrdt>(
    node: Seq<char>,
    before: ReplicaModel<C::V>,
    step: InitiationModel<<C::DeltaMessage as View>::V>,
    event: InitiationEventModel,
    after: ReplicaModel<C::V>,
    next: InitiationModel<<C::DeltaMessage as View>::V>,
)
    requires
        gc::initiation_follows::<C>(node, before, step, event, after, next),
        event is Metadata ==> event->Metadata_0.epoch < u64::MAX,
    ensures
        step is ReadMetadata && event is Metadata ==> next is ListMembers
            && next->ListMembers_epoch == event->Metadata_0.epoch + 1
            && next->ListMembers_previous == event->Metadata_0.v_stable,
        step is ListMembers && event is Members ==> next is ClaimIntent,
        step is ClaimIntent && event == InitiationEventModel::Claimed(true)
            ==> next is ListMembersAgain,
        step is ClaimIntent && event == InitiationEventModel::Claimed(false) ==> next is Done
            && next->Done_outcome == Some(GcInitiationAbortReason::ConcurrentInitiator),
        step is ListMembersAgain && event is Members ==> (next is ReadFinalDots <==> (forall|k: int|
            0 <= k < event->Members_0.len() ==> step->ListMembersAgain_members.contains(
                #[trigger] event->Members_0[k],
            ))),
        step is ListMembersAgain && event is Members && !(next is ReadFinalDots)
            ==> next is ReleaseIntent && next->ReleaseIntent_epoch == step->ListMembersAgain_epoch
            && next->ReleaseIntent_outcome == Some(GcInitiationAbortReason::MembershipChange),
        step is ReadFinalDots && event is FinalDots ==> next is WriteState || next is ReleaseIntent,
        step is WriteState && event is Written ==> next is WriteMetadata,
        step is WriteMetadata && event is Written ==> next is ReleaseIntent
            && next->ReleaseIntent_epoch == step->WriteMetadata_metadata.epoch
            && next->ReleaseIntent_outcome is None,
        step is ReleaseIntent && event is Released ==> next is Done && next->Done_outcome
            == step->ReleaseIntent_outcome,
        step is Done ==> next == step,
{
    if let InitiationModel::ReadFinalDots { epoch, previous, members } = step {
        if let InitiationEventModel::FinalDots(final_dots) = event {
            law_collects_just_on_progress::<C>(
                node,
                epoch,
                previous,
                members,
                final_dots,
                before,
                after,
                next,
            );
        }
    }
}

/// Of the steps of a collection only two change the replica: the one that
/// collects, and the one that ends once both records are written, which moves
/// the epoch alone.
pub proof fn law_collection_changes_in_two_steps<C: DeltaCrdt>(
    node: Seq<char>,
    before: ReplicaModel<C::V>,
    step: InitiationModel<<C::DeltaMessage as View>::V>,
    event: InitiationEventModel,
    after: ReplicaModel<C::V>,
    next: InitiationModel<<C::DeltaMessage as View>::V>,
)
    requires
        gc::initiation_follows::<C>(node, before, step, event, after, next),
        !(next is WriteState) || step is WriteState,
    ensures
        after.state == before.state,
        after.dvv == before.dvv,
        after.gc.matrix == before.gc.matrix,
        after.gc.epoch == if step is WriteMetadata && event is Written {
            step->WriteMetadata_metadata.epoch
        } else {
            before.gc.epoch
        },
{
    if let InitiationModel::ReadFinalDots { epoch, previous, members } = step {
        if let InitiationEventModel::FinalDots(final_dots) = event {
            let (v, obsolete) = choose|v: ClockModel, obsolete: Set<Seq<char>>| #[trigger]
                gc::finds_stable(before, node, members, final_dots, v, obsolete) && gc::collects::<
                    C,
                >(node, epoch, previous, v, obsolete, before, after, next);
            assert(gc::collects::<C>(node, epoch, previous, v, obsolete, before, after, next));
        }
    }
}

// ── Observing an epoch ──────────────────────────────────────────────────

/// A replica takes up just those epochs that are later than its own; it then
/// has the epoch, has dropped just the tombstones that the record says are
/// stable, and has forgotten just the replicas that the record names.
pub proof fn law_observing_follows_the_record<E: ElementCodec>(
    node: Seq<char>,
    before: ReplicaModel<SetModel<E::V>>,
    metadata: EpochMetadataModel,
    after: ReplicaModel<SetModel<E::V>>,
    changed: bool,
    d: DotModel,
    n: Seq<char>,
)
    requires
        gc::epoch_observed::<OrSet<E>>(node, before, metadata, after, changed),
    ensures
        changed == (metadata.epoch > before.gc.epoch),
        !changed ==> after == before,
        changed ==> after.gc.epoch == metadata.epoch,
        changed ==> after.state.adds == before.state.adds,
        changed ==> (after.state.tombstones.contains_key(d) <==> before.state.tombstones.contains_key(
            d,
        ) && !(dots::covers(metadata.v_stable, d) && dots::covers(
            metadata.v_stable,
            before.state.tombstones[d],
        ))),
        after.state.tombstones.contains_key(d) ==> after.state.tombstones[d]
            == before.state.tombstones[d],
        after.dvv.dot == before.dvv.dot,
        changed ==> (after.dvv.context.contains_key(n) <==> before.dvv.context.contains_key(n)
            && !metadata.obsolete_dots.contains(n)),
        after.dvv.context.contains_key(n) ==> after.dvv.context[n] == before.dvv.context[n],
        after.gc.matrix is Some == before.gc.matrix is Some,
        changed && before.gc.matrix is Some ==> after.gc.matrix == Some(
            gc::matrix_without(before.gc.matrix->0, metadata.obsolete_dots),
        ),
{
    let frontier = dots::with_clock(node, metadata.v_stable);
    or_set_laws::law_gc_drops_just_the_stable::<E>(before.state, frontier, d);
    dots::law_with_clock_keeps_counters(node, metadata.v_stable, d.node_id);
    dots::law_with_clock_keeps_counters(
        node,
        metadata.v_stable,
        before.state.tombstones[d].node_id,
    );
}

/// An epoch that a replica has taken up is no news to it.
pub proof fn law_epoch_is_taken_up_once<C: DeltaCrdt>(
    node: Seq<char>,
    before: ReplicaModel<C::V>,
    metadata: EpochMetadataModel,
    after: ReplicaModel<C::V>,
    changed: bool,
    later: ReplicaModel<C::V>,
    changed_again: bool,
)
    requires
        gc::epoch_observed::<C>(node, before, metadata, after, changed),
        gc::epoch_observed::<C>(node, after, metadata, later, changed_again),
    ensures
        !changed_again,
        later == after,
        after.gc.epoch >= before.gc.epoch,
        after.gc.epoch >= metadata.epoch,
{
}

// ── Joining ─────────────────────────────────────────────────────────────

/// Joining ends with success only when the state of the chosen epoch has come
/// and could be read; the replica then has merged that state and the
/// initiator's clock, and is in that epoch.
pub proof fn law_joined_only_with_the_state<C: DeltaCrdt>(
    node: Seq<char>,
    before: ReplicaModel<C::V>,
    step: BootstrapModel,
    event: BootstrapEventModel<<C::DeltaMessage as View>::V>,
    n: Seq<char>,
)
    requires
        !(step is Done),
        gc::bootstrap_next::<C>(step, event) is Done,
        gc::bootstrap_next::<C>(step, event)->Done_outcome is Ok,
    ensures
        step is ReadState || step is PauseThenReadState,
        event is State,
        step is ReadState ==> event->State_0.epoch == step->ReadState_epoch,
        step is PauseThenReadState ==> event->State_0.epoch == step->PauseThenReadState_epoch,
        event->State_0.state_payload is Some,
        C::read_delta(event->State_0.state_payload->0) is Ok,
        gc::bootstrap_after::<C>(node, before, step, event).state == C::after_merge(
            before.state,
            C::read_delta(event->State_0.state_payload->0)->Ok_0,
        ),
        gc::bootstrap_after::<C>(node, before, step, event).gc.epoch == event->State_0.epoch,
        gc::bootstrap_after::<C>(node, before, step, event).gc.matrix == before.gc.matrix,
        gc::bootstrap_after::<C>(node, before, step, event).dvv.dot.node_id
            == before.dvv.dot.node_id,
        clocks::counter_of(
            dots::effective(gc::bootstrap_after::<C>(node, before, step, event).dvv),
            n,
        ) == if clocks::counter_of(dots::effective(before.dvv), n) >= clocks::counter_of(
            event->State_0.initiator_clock,
            n,
        ) {
            clocks::counter_of(dots::effective(before.dvv), n)
        } else {
            clocks::counter_of(event->State_0.initiator_clock, n)
        },
{
    let clock = event->State_0.initiator_clock;
    dots::law_with_clock_keeps_counters(node, clock, n);
    dots::law_merge_takes_the_greater(before.dvv, dots::with_clock(node, clock), n);
}

/// Until joining has succeeded, the replica stays as it was.
pub proof fn law_unchanged_until_joined<C: DeltaCrdt>(
    node: Seq<char>,
    before: ReplicaModel<C::V>,
    step: BootstrapModel,
    event: BootstrapEventModel<<C::DeltaMessage as View>::V>,
)
    requires
        step is Done || !(gc::bootstrap_next::<C>(step, event) is Done) || gc::bootstrap_next::<C>(
            step,
            event,
        )->Done_outcome is Err,
    ensures
        gc::bootstrap_after::<C>(node, before, step, event) == before,
{
}

/// Joining fails only when the state of the chosen epoch has come and could
/// not be read.
pub proof fn law_joining_fails_only_unread<C: DeltaCrdt>(
    step: BootstrapModel,
    event: BootstrapEventModel<<C::DeltaMessage as View>::V>,
)
    requires
        !(step is Done),
        gc::bootstrap_next::<C>(step, event) is Done,
        gc::bootstrap_next::<C>(step, event)->Done_outcome is Err,
    ensures
        event is State,
        step is ReadState && event->State_0.epoch == step->ReadState_epoch
            || step is PauseThenReadState && event->State_0.epoch
            == step->PauseThenReadState_epoch,
        event->State_0.state_payload is None || C::read_delta(
            event->State_0.state_payload->0,
        ) is Err,
{
}

/// A new replica turns to the state of an epoch only when no collection is in
/// progress that would replace it: no mark for the next epoch was there, or
/// the epoch is one that came while the replica waited.
pub proof fn law_joining_waits_for_collections<C: DeltaCrdt>(
    step: BootstrapModel,
    event: BootstrapEventModel<<C::DeltaMessage as View>::V>,
)
    requires
        gc::bootstrap_next::<C>(step, event) is ReadState,
        !(step is ReadState),
    ensures
        event is Intent,
        step is ReadIntent || step is ReadIntentAgain,
        step is ReadIntent ==> !event->Intent_0 && gc::bootstrap_next::<C>(
            step,
            event,
        )->ReadState_epoch == step->ReadIntent_epoch,
        step is ReadIntentAgain ==> (!event->Intent_0 || step->ReadIntentAgain_seen
            > step->ReadIntentAgain_epoch) && gc::bootstrap_next::<C>(step, event)->ReadState_epoch
            == step->ReadIntentAgain_seen,
{
}

/// Each answer moves joining on: from the latest epoch to its mark; on to the
/// state when the mark is not there, and to the record again when it is; and
/// to the end with the state of the epoch, while that of another epoch is
/// waited out.
pub proof fn law_joining_moves_on<C: DeltaCrdt>(
    step: BootstrapModel,
    event: BootstrapEventModel<<C::DeltaMessage as View>::V>,
)
    ensures
        step is ReadMetadata && event is Epoch ==> gc::bootstrap_next::<C>(step, event) is ReadIntent
            && gc::bootstrap_next::<C>(step, event)->ReadIntent_epoch == event->Epoch_0,
        step is ReadIntent && event == BootstrapEventModel::<<C::DeltaMessage as View>::V>::Intent(
            false,
        ) ==> gc::bootstrap_next::<C>(step, event) is ReadState,
        step is ReadIntent && event == BootstrapEventModel::<<C::DeltaMessage as View>::V>::Intent(
            true,
        ) ==> gc::bootstrap_next::<C>(step, event) is PauseThenReadMetadata
            && gc::bootstrap_next::<C>(step, event)->PauseThenReadMetadata_epoch
            == step->ReadIntent_epoch,
        step is PauseThenReadMetadata && event is Epoch ==> gc::bootstrap_next::<C>(
            step,
            event,
        ) is ReadIntentAgain && gc::bootstrap_next::<C>(step, event)->ReadIntentAgain_epoch
            == step->PauseThenReadMetadata_epoch && gc::bootstrap_next::<C>(
            step,
            event,
        )->ReadIntentAgain_seen == event->Epoch_0,
        step is ReadIntentAgain && event is Intent ==> (gc::bootstrap_next::<C>(
            step,
            event,
        ) is ReadState <==> step->ReadIntentAgain_seen > step->ReadIntentAgain_epoch
            || !event->Intent_0),
        step is ReadIntentAgain && event is Intent && !(gc::bootstrap_next::<C>(
            step,
            event,
        ) is ReadState) ==> gc::bootstrap_next::<C>(step, event) is PauseThenReadMetadata
            && gc::bootstrap_next::<C>(step, event)->PauseThenReadMetadata_epoch
            == step->ReadIntentAgain_epoch,
        step is ReadState && event is State ==> (gc::bootstrap_next::<C>(step, event) is Done
            <==> event->State_0.epoch == step->ReadState_epoch),
        step is ReadState && event is State && event->State_0.epoch != step->ReadState_epoch
            ==> gc::bootstrap_next::<C>(step, event) is PauseThenReadState
            && gc::bootstrap_next::<C>(step, event)->PauseThenReadState_epoch
            == step->ReadState_epoch,
        step is PauseThenReadState && event is State ==> (gc::bootstrap_next::<C>(
            step,
            event,
        ) is Done <==> event->State_0.epoch == step->PauseThenReadState_epoch),
        step is PauseThenReadState && event is State && event->State_0.epoch
            != step->PauseThenReadState_epoch ==> gc::bootstrap_next::<C>(step, event) == step,
        step is Done ==> gc::bootstrap_next::<C>(step, event) == step,
{
}

/// A state of the chosen epoch that can be read is joined with.
pub proof fn law_readable_state_is_joined<C: DeltaCrdt>(
    step: BootstrapModel,
    event: BootstrapEventModel<<C::DeltaMessage as View>::V>,
)
    requires
        event is State,
        event->State_0.state_payload is Some,
        C::read_delta(event->State_0.state_payload->0) is Ok,
        step == (BootstrapModel::ReadState { epoch: event->State_0.epoch }) || step == (
        BootstrapModel::PauseThenReadState { epoch: event->State_0.epoch }),
    ensures
        gc::bootstrap_next::<C>(step, event) is Done,
        gc::bootstrap_next::<C>(step, event)->Done_outcome is Ok,
{
}

/// What does not answer a step leaves joining where it is.
pub proof fn law_joining_heeds_only_answers<C: DeltaCrdt>(
    step: BootstrapModel,
    event: BootstrapEventModel<<C::DeltaMessage as View>::V>,
)
    requires
        gc::bootstrap_next::<C>(step, event) != step,
    ensures
        event is Epoch ==> step is ReadMetadata || step is PauseThenReadMetadata,
        event is Intent ==> step is ReadIntent || step is ReadIntentAgain,
        event is State ==> step is ReadState || step is PauseThenReadState,
{
}

/// The epoch after another one is the next number, until the numbers run out.
pub proof fn law_next_epoch_counts_on(epoch: u64)
    ensures
        gc::next_epoch(epoch) is Some <==> epoch < u64::MAX,
        gc::next_epoch(epoch) is Some ==> gc::next_epoch(epoch)->0 == epoch + 1,
{
}

} // verus!
