//! The coordinator of garbage collection at one replica.
//!
//! The durable records and the list of live members are outside; beginning a
//! collection and joining as a new replica therefore go step by step. A step
//! says what is to be done outside, and what came of it leads to the next.

use vstd::prelude::*;
use vstd::string::StringExecFns;

use crate::common::{ClockModel, MatrixModel, NodeId};
use crate::crdt::{CodecError, DeltaCrdt};
use crate::gc::stable;
use crate::gc::stable::compute_stable_timestamp;
use crate::gc::storage::{
    EpochMetadata, EpochMetadataModel, EpochState, EpochStateModel, StoredState,
};
use crate::gc::GcConfig;
use crate::logical_clocks::dot_version_vector as dots;
use crate::logical_clocks::dot_version_vector::{frontier_dvv, DotVersionVector, DvvModel};
use crate::logical_clocks::matrix_clock as matrices;
use crate::logical_clocks::matrix_clock::MatrixClock;
use crate::logical_clocks::version_vector as clocks;
use crate::logical_clocks::version_vector::{vv_leq, VersionVector};
use crate::peers::peer_registry;
use crate::peers::peer_registry::PeerRegistry;
use crate::seqs;
use crate::text as texts;
use crate::text::{has_text, sorted_unique};
use crate::time::Interval;

verus! {

/// How long a replica that joins waits before it looks again, in milliseconds.
pub const GC_INTENT_POLL_INTERVAL_MS: u64 = 200;

/// Why a collection was not begun.
#[derive(Clone, Copy, Debug, PartialEq, Eq, Structural)]
pub enum GcInitiationAbortReason {
    /// A replica joined meanwhile.
    MembershipChange,
    /// Nothing became stable since the last collection.
    NoProgress,
    /// Another replica is about to begin the same epoch.
    ConcurrentInitiator,
}

/// What is recorded of a coordinator.
pub struct GcMetrics {
    /// The bytes that the matrix takes; none when they cannot be counted.
    pub matrix_clock_size_bytes: Option<usize>,
    /// What is stable now.
    pub v_stable: VersionVector,
}

// ── Members ─────────────────────────────────────────────────────────────

/// Does the new list hold a replica that the old one does not?
pub open spec fn has_new_member(before: Seq<Seq<char>>, after: Seq<Seq<char>>) -> bool {
    exists|i: int| 0 <= i < after.len() && !before.contains(#[trigger] after[i])
}

/// Does the new list hold a replica that the old one does not?
pub fn new_member_exists(old: &[NodeId], new: &[NodeId]) -> (r: bool)
    ensures
        r == has_new_member(texts::texts_of(old@), texts::texts_of(new@)),
{
    let ghost before = texts::texts_of(old@);
    let ghost after = texts::texts_of(new@);
    let mut i: usize = 0;
    while i < new.len()
        invariant
            i <= new.len(),
            before == texts::texts_of(old@),
            after == texts::texts_of(new@),
            forall|j: int| 0 <= j < i ==> before.contains(#[trigger] after[j]),
        decreases new.len() - i,
    {
        assert(after[i as int] == new@[i as int]@);
        if !has_text(old, new[i].as_str()) {
            return true;
        }
        i += 1;
    }
    false
}

/// The live members, in order, each once.
pub fn live_members(node_ids: &Vec<NodeId>) -> (r: Vec<NodeId>)
    ensures
        texts::in_order(texts::texts_of(r@)),
        texts::texts_of(r@).no_duplicates(),
        texts::texts_of(r@).to_set() == texts::texts_of(node_ids@).to_set(),
{
    sorted_unique(node_ids)
}

// ── Forgetting replicas ─────────────────────────────────────────────────

/// The matrix without the replicas that are gone.
pub open spec fn matrix_without(m: MatrixModel, gone: Set<Seq<char>>) -> MatrixModel {
    Map::new(
        |n: Seq<char>| m.contains_key(n) && !gone.contains(n),
        |n: Seq<char>| m[n].remove_keys(gone),
    )
}

/// The vector without the replicas that are gone; it keeps its own dot.
pub open spec fn dvv_without(v: DvvModel, gone: Set<Seq<char>>) -> DvvModel {
    DvvModel { dot: v.dot, context: v.context.remove_keys(gone) }
}

/// Is `text` the text `t` with the title of the matrix before it?
pub open spec fn titled(t: Seq<char>, text: Seq<char>) -> bool {
    text == "Matrix Clock: "@ + t
}

/// Is `text` the printed matrix?
pub open spec fn shows_matrix(matrix: Option<MatrixModel>, text: Seq<char>) -> bool {
    match matrix {
        Some(m) => exists|t: Seq<char>| #[trigger] titled(t, text) && matrices::prints_matrix(m, t),
        None => text == "Matrix Clock: GC replica disabled"@,
    }
}

// ── The coordinator ─────────────────────────────────────────────────────

/// The mathematical value of a [`GcCoordinator`].
pub struct CoordinatorModel {
    pub epoch: u64,
    /// What the other replicas are known to have seen; only a collecting
    /// replica keeps track of it.
    pub matrix: Option<MatrixModel>,
}

/// The coordinator of garbage collection at one replica.
pub struct GcCoordinator {
    epoch: u64,
    config: GcConfig,
    matrix_clock: Option<MatrixClock>,
}

impl View for GcCoordinator {
    type V = CoordinatorModel;

    closed spec fn view(&self) -> CoordinatorModel {
        CoordinatorModel {
            epoch: self.epoch,
            matrix: match self.matrix_clock {
                Some(m) => Some(m@),
                None => None,
            },
        }
    }
}

/// Is `after` the replica once it has seen the record of the latest epoch, and
/// does `changed` tell whether that was a new one to it?
pub open spec fn epoch_observed<C: DeltaCrdt>(
    node: Seq<char>,
    before: ReplicaModel<C::V>,
    metadata: EpochMetadataModel,
    after: ReplicaModel<C::V>,
    changed: bool,
) -> bool {
    if metadata.epoch > before.gc.epoch {
        &&& changed
        &&& after.gc.epoch == metadata.epoch
        &&& after.gc.matrix == match before.gc.matrix {
            Some(m) => Some(matrix_without(m, metadata.obsolete_dots)),
            None => None,
        }
        &&& after.state == C::after_gc(before.state, dots::with_clock(node, metadata.v_stable))
        &&& after.dvv == dvv_without(before.dvv, metadata.obsolete_dots)
    } else {
        !changed && after == before
    }
}

impl GcCoordinator {
    #[verifier::type_invariant]
    spec fn tracks_iff_collecting(self) -> bool {
        self.matrix_clock is Some <==> self.config.gc_replica
    }

    /// The configuration that the coordinator was made with.
    pub closed spec fn settings(&self) -> GcConfig {
        self.config
    }

    pub fn new(config: GcConfig) -> (r: Self)
        ensures
            r.settings() == config,
            r@ == (CoordinatorModel {
                epoch: 0,
                matrix: if config.gc_replica {
                    Some(Map::empty())
                } else {
                    None
                },
            }),
    {
        let matrix_clock = if config.gc_replica {
            Some(MatrixClock::new())
        } else {
            None
        };
        GcCoordinator { epoch: 0, config, matrix_clock }
    }

    /// The epoch that this replica has reached.
    pub fn epoch(&self) -> (r: u64)
        ensures
            r == self@.epoch,
    {
        self.epoch
    }

    /// Does this replica initiate collections?
    pub fn gc_replica(&self) -> (r: bool)
        ensures
            r == self.settings().gc_replica,
            r == (self@.matrix is Some),
    {
        proof {
            use_type_invariant(self);
        }
        self.config.gc_replica
    }

    /// How often to try a collection, at a collecting replica.
    pub fn initiate_interval(&self) -> (r: Option<Interval>)
        ensures
            r == (match self.settings().gc_replica_config {
                Some(c) => Some(c.initiate_interval),
                None => None,
            }),
    {
        match &self.config.gc_replica_config {
            Some(c) => Some(c.initiate_interval),
            None => None,
        }
    }

    /// How often to look for a new epoch.
    pub fn observe_interval(&self) -> (r: Interval)
        ensures
            r == self.settings().observe_interval,
    {
        self.config.observe_interval
    }

    /// What the connected peers that do not collect are known to have seen.
    pub fn get_knowledge_matrix(&self, registry: &PeerRegistry) -> (r: Option<MatrixClock>)
        ensures
            match (r, self@.matrix) {
                (Some(k), Some(m)) => k@ == m.restrict(peer_registry::plain_peers(registry@)),
                (None, None) => true,
                _ => false,
            },
    {
        match &self.matrix_clock {
            Some(m) => {
                let peers = registry.get_all_non_gc_replicas();
                Some(m.rows_of(&peers))
            },
            None => None,
        }
    }

    /// The matrix as text.
    pub fn print_matrix_clock(&self) -> (r: String)
        ensures
            shows_matrix(self@.matrix, r@),
    {
        match &self.matrix_clock {
            Some(m) => {
                let text = m.print();
                let mut r = "Matrix Clock: ".to_owned();
                r.append(text.as_str());
                assert(titled(text@, r@));
                r
            },
            None => "Matrix Clock: GC replica disabled".to_owned(),
        }
    }

    /// Learn what other replicas are known to have seen.
    pub fn update_matrix_clock(&mut self, knowledge_matrix: &MatrixClock)
        ensures
            final(self).settings() == old(self).settings(),
            final(self)@ == (CoordinatorModel {
                epoch: old(self)@.epoch,
                matrix: match old(self)@.matrix {
                    Some(m) => Some(matrices::matrix_join(m, knowledge_matrix@)),
                    None => None,
                },
            }),
    {
        proof {
            use_type_invariant(&*self);
        }
        if let Some(m) = &self.matrix_clock {
            let mut m = m.clone();
            m.raise(knowledge_matrix);
            self.matrix_clock = Some(m);
        }
    }

    /// Forget what a replica is known to have seen.
    pub fn remove_matrix_clock_row(&mut self, node_id: &NodeId)
        ensures
            final(self).settings() == old(self).settings(),
            final(self)@ == (CoordinatorModel {
                epoch: old(self)@.epoch,
                matrix: match old(self)@.matrix {
                    Some(m) => Some(m.remove(node_id@)),
                    None => None,
                },
            }),
    {
        proof {
            use_type_invariant(&*self);
        }
        if let Some(m) = &self.matrix_clock {
            let mut m = m.clone();
            m.remove_row(node_id);
            self.matrix_clock = Some(m);
        }
    }

    /// Forget what is known to have been seen of a replica.
    pub fn remove_matrix_clock_column(&mut self, node_id: &NodeId)
        ensures
            final(self).settings() == old(self).settings(),
            final(self)@ == (CoordinatorModel {
                epoch: old(self)@.epoch,
                matrix: match old(self)@.matrix {
                    Some(m) => Some(matrices::without_column(m, node_id@)),
                    None => None,
                },
            }),
    {
        proof {
            use_type_invariant(&*self);
        }
        if let Some(m) = &self.matrix_clock {
            let mut m = m.clone();
            m.remove_column(node_id);
            self.matrix_clock = Some(m);
        }
    }

    /// Forget replicas, in the matrix and in the replica's own vector.
    fn forget(&mut self, gone: &Vec<NodeId>, dvv: &mut DotVersionVector)
        ensures
            final(self).settings() == old(self).settings(),
            final(self)@ == (CoordinatorModel {
                epoch: old(self)@.epoch,
                matrix: match old(self)@.matrix {
                    Some(m) => Some(matrix_without(m, texts::texts_of(gone@).to_set())),
                    None => None,
                },
            }),
            final(dvv)@ == dvv_without(old(dvv)@, texts::texts_of(gone@).to_set()),
    {
        let ghost ids = texts::texts_of(gone@);
        let ghost v = dvv@;
        let ghost start = self@;
        let ghost fixed = self.settings();
        let mut i: usize = 0;
        proof {
            assert(ids.take(0).to_set() =~= Set::<Seq<char>>::empty());
            assert(dvv@.context =~= v.context.remove_keys(ids.take(0).to_set()));
            if let Some(m) = start.matrix {
                assert forall|n: Seq<char>| m.contains_key(n) implies (#[trigger] m[n])
                    == m[n].remove_keys(ids.take(0).to_set()) by {
                    assert(m[n] =~= m[n].remove_keys(ids.take(0).to_set()));
                }
                assert(m =~= matrix_without(m, ids.take(0).to_set()));
            }
        }
        while i < gone.len()
            invariant
                i <= gone.len(),
                ids == texts::texts_of(gone@),
                self.settings() == fixed,
                self@.epoch == start.epoch,
                self@.matrix == (match start.matrix {
                    Some(m) => Some(matrix_without(m, ids.take(i as int).to_set())),
                    None => None,
                }),
                dvv@ == dvv_without(v, ids.take(i as int).to_set()),
            decreases gone.len() - i,
        {
            let ghost had = ids.take(i as int).to_set();
            let ghost p = ids[i as int];
            proof {
                assert(ids.take(i + 1) =~= ids.take(i as int).push(p));
                seqs::lemma_push_to_set(ids.take(i as int), p);
                assert(p == gone@[i as int]@);
            }
            self.remove_matrix_clock_row(&gone[i]);
            self.remove_matrix_clock_column(&gone[i]);
            dvv.remove(&gone[i]);
            proof {
                assert(dvv@.context =~= v.context.remove_keys(had.insert(p)));
                if let Some(m) = start.matrix {
                    let now = matrices::without_column(matrix_without(m, had).remove(p), p);
                    let then = matrix_without(m, had.insert(p));
                    assert forall|n: Seq<char>| now.contains_key(n) implies now[n] == then[n] by {
                        assert(now[n] =~= then[n]);
                    }
                    assert(now =~= then);
                }
            }
            i += 1;
        }
        assert(ids.take(i as int) =~= ids);
    }

    /// Catch up with the latest epoch, as its record tells; was there a new
    /// one?
    pub fn observe_epoch_change<C: DeltaCrdt>(
        &mut self,
        metadata: &EpochMetadata,
        node_id: &NodeId,
        crdt: &mut C,
        dvv: &mut DotVersionVector,
    ) -> (r: bool)
        ensures
            final(self).settings() == old(self).settings(),
            r == (metadata.epoch > old(self)@.epoch),
            !r ==> final(self)@ == old(self)@ && final(crdt)@ == old(crdt)@ && final(dvv)@ == old(
                dvv,
            )@,
            r ==> {
                &&& final(self)@ == (CoordinatorModel {
                    epoch: metadata.epoch,
                    matrix: match old(self)@.matrix {
                        Some(m) => Some(matrix_without(m, metadata@.obsolete_dots)),
                        None => None,
                    },
                })
                &&& final(crdt)@ == C::after_gc(
                    old(crdt)@,
                    dots::with_clock(node_id@, metadata.v_stable@),
                )
                &&& final(dvv)@ == dvv_without(old(dvv)@, metadata@.obsolete_dots)
            },
            epoch_observed::<C>(
                node_id@,
                (ReplicaModel { gc: old(self)@, state: old(crdt)@, dvv: old(dvv)@ }),
                metadata@,
                (ReplicaModel { gc: final(self)@, state: final(crdt)@, dvv: final(dvv)@ }),
                r,
            ),
    {
        if metadata.epoch <= self.epoch {
            return false;
        }
        let frontier = frontier_dvv(node_id, &metadata.v_stable);
        crdt.perform_gc(&frontier);
        proof {
            use_type_invariant(&*self);
        }
        self.epoch = metadata.epoch;
        self.forget(&metadata.obsolete_dots, dvv);
        true
    }
}

// ── Beginning a collection ──────────────────────────────────────────────

/// The mathematical value of an [`InitiationStep`].
pub enum InitiationModel<P> {
    ReadMetadata,
    ListMembers { epoch: u64, previous: ClockModel },
    ClaimIntent { epoch: u64, previous: ClockModel, members: Seq<Seq<char>> },
    ListMembersAgain { epoch: u64, previous: ClockModel, members: Seq<Seq<char>> },
    ReadFinalDots { epoch: u64, previous: ClockModel, members: Seq<Seq<char>> },
    WriteState { state: EpochStateModel<P>, metadata: EpochMetadataModel },
    WriteMetadata { metadata: EpochMetadataModel },
    ReleaseIntent { epoch: u64, outcome: Option<GcInitiationAbortReason> },
    Done { outcome: Option<GcInitiationAbortReason> },
}

/// What is to be done outside next while a collection is begun.
pub enum InitiationStep<P> {
    /// Read the record of the latest epoch.
    ReadMetadata,
    /// List the live members.
    ListMembers { epoch: u64, previous: VersionVector },
    /// Leave the mark for the epoch, unless another replica has.
    ClaimIntent { epoch: u64, previous: VersionVector, members: Vec<NodeId> },
    /// List the live members again.
    ListMembersAgain { epoch: u64, previous: VersionVector, members: Vec<NodeId> },
    /// Read the last events of departed replicas.
    ReadFinalDots { epoch: u64, previous: VersionVector, members: Vec<NodeId> },
    /// Write the collected state.
    WriteState { state: EpochState<P>, metadata: EpochMetadata },
    /// Write the record of the epoch.
    WriteMetadata { metadata: EpochMetadata },
    /// Take the mark for the epoch back.
    ReleaseIntent { epoch: u64, outcome: Option<GcInitiationAbortReason> },
    /// Nothing: the collection was begun, or given up for a reason.
    Done { outcome: Option<GcInitiationAbortReason> },
}

impl<P: View> View for InitiationStep<P> {
    type V = InitiationModel<P::V>;

    open spec fn view(&self) -> InitiationModel<P::V> {
        match self {
            InitiationStep::ReadMetadata => InitiationModel::ReadMetadata,
            InitiationStep::ListMembers { epoch, previous } => InitiationModel::ListMembers {
                epoch: *epoch,
                previous: previous@,
            },
            InitiationStep::ClaimIntent { epoch, previous, members } =>
            InitiationModel::ClaimIntent {
                epoch: *epoch,
                previous: previous@,
                members: texts::texts_of(members@),
            },
            InitiationStep::ListMembersAgain { epoch, previous, members } =>
            InitiationModel::ListMembersAgain {
                epoch: *epoch,
                previous: previous@,
                members: texts::texts_of(members@),
            },
            InitiationStep::ReadFinalDots { epoch, previous, members } =>
            InitiationModel::ReadFinalDots {
                epoch: *epoch,
                previous: previous@,
                members: texts::texts_of(members@),
            },
            InitiationStep::WriteState { state, metadata } => InitiationModel::WriteState {
                state: state@,
                metadata: metadata@,
            },
            InitiationStep::WriteMetadata { metadata } => InitiationModel::WriteMetadata {
                metadata: metadata@,
            },
            InitiationStep::ReleaseIntent { epoch, outcome } => InitiationModel::ReleaseIntent {
                epoch: *epoch,
                outcome: *outcome,
            },
            InitiationStep::Done { outcome } => InitiationModel::Done { outcome: *outcome },
        }
    }
}

/// The mathematical value of an [`InitiationEvent`].
pub enum InitiationEventModel {
    Metadata(EpochMetadataModel),
    Members(Seq<Seq<char>>),
    Claimed(bool),
    FinalDots(ClockModel),
    Written,
    Released,
}

/// What came of a step.
pub enum InitiationEvent {
    Metadata(EpochMetadata),
    Members(Vec<NodeId>),
    Claimed(bool),
    FinalDots(VersionVector),
    Written,
    Released,
}

impl View for InitiationEvent {
    type V = InitiationEventModel;

    open spec fn view(&self) -> InitiationEventModel {
        match self {
            InitiationEvent::Metadata(m) => InitiationEventModel::Metadata(m@),
            InitiationEvent::Members(m) => InitiationEventModel::Members(texts::texts_of(m@)),
            InitiationEvent::Claimed(b) => InitiationEventModel::Claimed(*b),
            InitiationEvent::FinalDots(f) => InitiationEventModel::FinalDots(f@),
            InitiationEvent::Written => InitiationEventModel::Written,
            InitiationEvent::Released => InitiationEventModel::Released,
        }
    }
}

/// A replica in the course of a collection: its coordinator, its state and
/// its vector.
pub struct ReplicaModel<S> {
    pub gc: CoordinatorModel,
    pub state: S,
    pub dvv: DvvModel,
}

/// A collection by a replica that finds `v` stable and `obsolete` to be
/// forgotten: given up when `v` is not beyond `previous`, else done locally
/// and to be written.
pub open spec fn collects<C: DeltaCrdt>(
    node: Seq<char>,
    epoch: u64,
    previous: ClockModel,
    v: ClockModel,
    obsolete: Set<Seq<char>>,
    before: ReplicaModel<C::V>,
    after: ReplicaModel<C::V>,
    next: InitiationModel<<C::DeltaMessage as View>::V>,
) -> bool {
    if clocks::leq(v, previous) {
        &&& after == before
        &&& next == InitiationModel::<<C::DeltaMessage as View>::V>::ReleaseIntent {
            epoch,
            outcome: Some(GcInitiationAbortReason::NoProgress),
        }
    } else {
        let kept = v.remove_keys(obsolete);
        &&& after.gc == CoordinatorModel {
            epoch: before.gc.epoch,
            matrix: match before.gc.matrix {
                Some(m) => Some(matrix_without(m, obsolete)),
                None => None,
            },
        }
        &&& after.dvv == dvv_without(before.dvv, obsolete)
        &&& after.state == C::after_gc(before.state, dots::with_clock(node, kept))
        &&& exists|d: <C::Delta as View>::V| #[trigger]
            C::is_full_state(after.state, after.dvv, d) && next == (InitiationModel::WriteState {
                state: EpochStateModel {
                    epoch,
                    state_payload: C::delta_message(d),
                    initiator_clock: dots::effective(after.dvv),
                },
                metadata: EpochMetadataModel { epoch, v_stable: kept, obsolete_dots: obsolete },
            })
    }
}

/// A collection with the members `members` and the last events `final_dots`.
pub open spec fn collection_follows<C: DeltaCrdt>(
    node: Seq<char>,
    epoch: u64,
    previous: ClockModel,
    members: Seq<Seq<char>>,
    final_dots: ClockModel,
    before: ReplicaModel<C::V>,
    after: ReplicaModel<C::V>,
    next: InitiationModel<<C::DeltaMessage as View>::V>,
) -> bool {
    exists|v: ClockModel, obsolete: Set<Seq<char>>| #[trigger]
        finds_stable(before, node, members, final_dots, v, obsolete) && collects::<C>(
            node,
            epoch,
            previous,
            v,
            obsolete,
            before,
            after,
            next,
        )
}

/// The step after `step` when `event` came of it, where nothing is collected.
/// An event that is no answer to the step leaves it as it is.
pub open spec fn initiation_next<P>(
    step: InitiationModel<P>,
    event: InitiationEventModel,
) -> InitiationModel<P> {
    match (step, event) {
        (InitiationModel::ReadMetadata, InitiationEventModel::Metadata(m)) => {
            InitiationModel::ListMembers { epoch: (m.epoch + 1) as u64, previous: m.v_stable }
        },
        (
            InitiationModel::ListMembers { epoch, previous },
            InitiationEventModel::Members(members),
        ) => InitiationModel::ClaimIntent { epoch, previous, members },
        (
            InitiationModel::ClaimIntent { epoch, previous, members },
            InitiationEventModel::Claimed(claimed),
        ) => if claimed {
            InitiationModel::ListMembersAgain { epoch, previous, members }
        } else {
            InitiationModel::Done { outcome: Some(GcInitiationAbortReason::ConcurrentInitiator) }
        },
        (
            InitiationModel::ListMembersAgain { epoch, previous, members },
            InitiationEventModel::Members(now),
        ) => if has_new_member(members, now) {
            InitiationModel::ReleaseIntent {
                epoch,
                outcome: Some(GcInitiationAbortReason::MembershipChange),
            }
        } else {
            InitiationModel::ReadFinalDots { epoch, previous, members: now }
        },
        (InitiationModel::WriteState { state, metadata }, InitiationEventModel::Written) => {
            InitiationModel::WriteMetadata { metadata }
        },
        (InitiationModel::WriteMetadata { metadata }, InitiationEventModel::Written) => {
            InitiationModel::ReleaseIntent { epoch: metadata.epoch, outcome: None }
        },
        (InitiationModel::ReleaseIntent { epoch, outcome }, InitiationEventModel::Released) => {
            InitiationModel::Done { outcome }
        },
        _ => step,
    }
}

/// Is `next` the step after `step` when `event` came of it, and `after` the
/// replica then?
pub open spec fn initiation_follows<C: DeltaCrdt>(
    node: Seq<char>,
    before: ReplicaModel<C::V>,
    step: InitiationModel<<C::DeltaMessage as View>::V>,
    event: InitiationEventModel,
    after: ReplicaModel<C::V>,
    next: InitiationModel<<C::DeltaMessage as View>::V>,
) -> bool {
    match (step, event) {
        (
            InitiationModel::ReadFinalDots { epoch, previous, members },
            InitiationEventModel::FinalDots(final_dots),
        ) => collection_follows::<C>(
            node,
            epoch,
            previous,
            members,
            final_dots,
            before,
            after,
            next,
        ),
        (InitiationModel::WriteMetadata { metadata }, InitiationEventModel::Written) => {
            &&& next == initiation_next(step, event)
            &&& after == ReplicaModel {
                gc: CoordinatorModel { epoch: metadata.epoch, matrix: before.gc.matrix },
                state: before.state,
                dvv: before.dvv,
            }
        },
        _ => next == initiation_next(step, event) && after == before,
    }
}

/// Does the replica find `v` stable and `obsolete` to be forgotten? Without a
/// matrix nothing is stable.
pub open spec fn finds_stable<S>(
    before: ReplicaModel<S>,
    node: Seq<char>,
    members: Seq<Seq<char>>,
    final_dots: ClockModel,
    v: ClockModel,
    obsolete: Set<Seq<char>>,
) -> bool {
    match before.gc.matrix {
        Some(m) => stable::is_stable_timestamp(
            m,
            node,
            dots::effective(before.dvv),
            members,
            final_dots,
            v,
            obsolete,
        ),
        None => v == Map::<Seq<char>, u64>::empty() && obsolete == Set::<Seq<char>>::empty(),
    }
}

impl GcCoordinator {
    /// The stable timestamp, and the departed replicas to forget.
    pub fn compute_stable_timestamp(
        &self,
        node_id: &NodeId,
        members: &[NodeId],
        final_dots: &VersionVector,
        self_clock: &VersionVector,
    ) -> (r: (VersionVector, Vec<NodeId>))
        ensures
            match self@.matrix {
                Some(m) => stable::is_stable_timestamp(
                    m,
                    node_id@,
                    self_clock@,
                    texts::texts_of(members@),
                    final_dots@,
                    r.0@,
                    texts::texts_of(r.1@).to_set(),
                ),
                None => r.0@ == Map::<Seq<char>, u64>::empty() && texts::texts_of(r.1@).to_set()
                    == Set::<Seq<char>>::empty(),
            },
    {
        match &self.matrix_clock {
            Some(m) => compute_stable_timestamp(m, node_id, members, final_dots, self_clock),
            None => {
                let none: Vec<NodeId> = Vec::new();
                assert(texts::texts_of(none@).to_set() =~= Set::<Seq<char>>::empty());
                (VersionVector::new(), none)
            },
        }
    }

    /// What is recorded of a coordinator, with the members and the last events
    /// that were found. Of a replica that does not collect, nothing is.
    pub fn log_metrics(
        &self,
        node_id: &NodeId,
        members: &[NodeId],
        final_dots: &VersionVector,
        dvv: &DotVersionVector,
    ) -> (r: Option<GcMetrics>)
        ensures
            match (r, self@.matrix) {
                (Some(metrics), Some(m)) => {
                    &&& matrices::counts(
                        metrics.matrix_clock_size_bytes,
                        matrices::matrix_size(m),
                    )
                    &&& exists|obsolete: Set<Seq<char>>| #[trigger]
                        stable::is_stable_timestamp(
                            m,
                            node_id@,
                            dots::effective(dvv@),
                            texts::texts_of(members@),
                            final_dots@,
                            metrics.v_stable@,
                            obsolete,
                        )
                },
                (None, None) => true,
                _ => false,
            },
    {
        match &self.matrix_clock {
            Some(m) => {
                let (v_stable, obsolete) = self.compute_stable_timestamp(
                    node_id,
                    members,
                    final_dots,
                    &dvv.effective_map(),
                );
                let metrics = GcMetrics { matrix_clock_size_bytes: m.size_bytes(), v_stable };
                assert(stable::is_stable_timestamp(
                    self@.matrix->0,
                    node_id@,
                    dots::effective(dvv@),
                    texts::texts_of(members@),
                    final_dots@,
                    metrics.v_stable@,
                    texts::texts_of(obsolete@).to_set(),
                ));
                Some(metrics)
            },
            None => None,
        }
    }

    /// Collect with the members and the last events that were found.
    fn collect<C: DeltaCrdt>(
        &mut self,
        epoch: u64,
        previous: VersionVector,
        members: Vec<NodeId>,
        final_dots: VersionVector,
        node_id: &NodeId,
        crdt: &mut C,
        dvv: &mut DotVersionVector,
    ) -> (r: InitiationStep<C::DeltaMessage>)
        ensures
            final(self).settings() == old(self).settings(),
            collection_follows::<C>(
                node_id@,
                epoch,
                previous@,
                texts::texts_of(members@),
                final_dots@,
                (ReplicaModel { gc: old(self)@, state: old(crdt)@, dvv: old(dvv)@ }),
                (ReplicaModel { gc: final(self)@, state: final(crdt)@, dvv: final(dvv)@ }),
                r@,
            ),
    {
        let ghost before = ReplicaModel { gc: self@, state: crdt@, dvv: dvv@ };
        let (mut v_stable, obsolete) = self.compute_stable_timestamp(
            node_id,
            members.as_slice(),
            &final_dots,
            &dvv.effective_map(),
        );
        let ghost gone = texts::texts_of(obsolete@).to_set();
        let ghost v = v_stable@;
        assert(finds_stable(
            before,
            node_id@,
            texts::texts_of(members@),
            final_dots@,
            v,
            gone,
        ));
        if vv_leq(&v_stable, &previous) {
            let r: InitiationStep<C::DeltaMessage> = InitiationStep::ReleaseIntent {
                epoch,
                outcome: Some(GcInitiationAbortReason::NoProgress),
            };
            assert(collects::<C>(node_id@, epoch, previous@, v, gone, before, before, r@));
            return r;
        }
        self.forget(&obsolete, dvv);
        remove_all(&mut v_stable, &obsolete);
        let frontier = frontier_dvv(node_id, &v_stable);
        crdt.perform_gc(&frontier);
        let full = crdt.full_state(dvv);
        let state = EpochState {
            epoch,
            state_payload: C::encode_delta(&full),
            initiator_clock: dvv.effective_map(),
        };
        let metadata = EpochMetadata { epoch, v_stable, obsolete_dots: obsolete };
        let r = InitiationStep::WriteState { state, metadata };
        proof {
            let after = ReplicaModel { gc: self@, state: crdt@, dvv: dvv@ };
            assert(C::is_full_state(after.state, after.dvv, full@));
            assert(collects::<C>(node_id@, epoch, previous@, v, gone, before, after, r@));
        }
        r
    }

    /// Go on beginning a collection: what came of a step leads to the next.
    pub fn initiate_gc<C: DeltaCrdt>(
        &mut self,
        step: InitiationStep<C::DeltaMessage>,
        event: InitiationEvent,
        node_id: &NodeId,
        crdt: &mut C,
        dvv: &mut DotVersionVector,
    ) -> (r: InitiationStep<C::DeltaMessage>)
        requires
            event matches InitiationEvent::Metadata(m) ==> m.epoch < u64::MAX,
        ensures
            final(self).settings() == old(self).settings(),
            initiation_follows::<C>(
                node_id@,
                (ReplicaModel { gc: old(self)@, state: old(crdt)@, dvv: old(dvv)@ }),
                step@,
                event@,
                (ReplicaModel { gc: final(self)@, state: final(crdt)@, dvv: final(dvv)@ }),
                r@,
            ),
    {
        match (step, event) {
            (InitiationStep::ReadMetadata, InitiationEvent::Metadata(m)) => {
                InitiationStep::ListMembers { epoch: m.epoch + 1, previous: m.v_stable }
            },
            (
                InitiationStep::ListMembers { epoch, previous },
                InitiationEvent::Members(members),
            ) => { InitiationStep::ClaimIntent { epoch, previous, members } },
            (
                InitiationStep::ClaimIntent { epoch, previous, members },
                InitiationEvent::Claimed(claimed),
            ) => {
                if claimed {
                    InitiationStep::ListMembersAgain { epoch, previous, members }
                } else {
                    InitiationStep::Done {
                        outcome: Some(GcInitiationAbortReason::ConcurrentInitiator),
                    }
                }
            },
            (
                InitiationStep::ListMembersAgain { epoch, previous, members },
                InitiationEvent::Members(now),
            ) => {
                if new_member_exists(members.as_slice(), now.as_slice()) {
                    InitiationStep::ReleaseIntent {
                        epoch,
                        outcome: Some(GcInitiationAbortReason::MembershipChange),
                    }
                } else {
                    InitiationStep::ReadFinalDots { epoch, previous, members: now }
                }
            },
            (
                InitiationStep::ReadFinalDots { epoch, previous, members },
                InitiationEvent::FinalDots(final_dots),
            ) => self.collect(epoch, previous, members, final_dots, node_id, crdt, dvv),
            (InitiationStep::WriteState { state: _, metadata }, InitiationEvent::Written) => {
                InitiationStep::WriteMetadata { metadata }
            },
            (InitiationStep::WriteMetadata { metadata }, InitiationEvent::Written) => {
                proof {
                    use_type_invariant(&*self);
                }
                self.epoch = metadata.epoch;
                InitiationStep::ReleaseIntent { epoch: metadata.epoch, outcome: None }
            },
            (
                InitiationStep::ReleaseIntent { epoch: _, outcome },
                InitiationEvent::Released,
            ) => { InitiationStep::Done { outcome } },
            (step, _) => step,
        }
    }
}

// ── Joining as a new replica ────────────────────────────────────────────

/// The mathematical value of a [`BootstrapStep`].
pub enum BootstrapModel {
    ReadMetadata,
    ReadIntent { epoch: u64 },
    PauseThenReadMetadata { epoch: u64 },
    ReadIntentAgain { epoch: u64, seen: u64 },
    ReadState { epoch: u64 },
    PauseThenReadState { epoch: u64 },
    Done { outcome: Result<(), CodecError> },
}

/// What is to be done outside next while a new replica joins.
#[derive(Clone, Copy)]
pub enum BootstrapStep {
    /// Read the record of the latest epoch.
    ReadMetadata,
    /// Look for the mark of the epoch after `epoch`.
    ReadIntent { epoch: u64 },
    /// Wait a moment, then read the record of the latest epoch again.
    PauseThenReadMetadata { epoch: u64 },
    /// Look again for the mark of the epoch after `epoch`, now that the
    /// latest epoch was `seen`.
    ReadIntentAgain { epoch: u64, seen: u64 },
    /// Read the collected state.
    ReadState { epoch: u64 },
    /// Wait a moment, then read the collected state again.
    PauseThenReadState { epoch: u64 },
    /// Nothing: the replica has joined, or the state could not be read.
    Done { outcome: Result<(), CodecError> },
}

impl View for BootstrapStep {
    type V = BootstrapModel;

    open spec fn view(&self) -> BootstrapModel {
        match *self {
            BootstrapStep::ReadMetadata => BootstrapModel::ReadMetadata,
            BootstrapStep::ReadIntent { epoch } => BootstrapModel::ReadIntent { epoch },
            BootstrapStep::PauseThenReadMetadata { epoch } => {
                BootstrapModel::PauseThenReadMetadata { epoch }
            },
            BootstrapStep::ReadIntentAgain { epoch, seen } => {
                BootstrapModel::ReadIntentAgain { epoch, seen }
            },
            BootstrapStep::ReadState { epoch } => BootstrapModel::ReadState { epoch },
            BootstrapStep::PauseThenReadState { epoch } => {
                BootstrapModel::PauseThenReadState { epoch }
            },
            BootstrapStep::Done { outcome } => BootstrapModel::Done { outcome },
        }
    }
}

impl BootstrapStep {
    /// The epoch whose mark is to be looked for; none when no mark is, or when
    /// there is no such epoch.
    pub fn intent_epoch(&self) -> (r: Option<u64>)
        ensures
            r == match *self {
                BootstrapStep::ReadIntent { epoch } => next_epoch(epoch),
                BootstrapStep::ReadIntentAgain { epoch, seen: _ } => next_epoch(epoch),
                _ => None,
            },
    {
        match self {
            BootstrapStep::ReadIntent { epoch } => epoch.checked_add(1),
            BootstrapStep::ReadIntentAgain { epoch, seen: _ } => epoch.checked_add(1),
            _ => None,
        }
    }
}

/// The epoch after `epoch`, if there is one.
pub open spec fn next_epoch(epoch: u64) -> Option<u64> {
    if epoch < u64::MAX {
        Some((epoch + 1) as u64)
    } else {
        None
    }
}

/// The mathematical value of a [`BootstrapEvent`].
pub enum BootstrapEventModel<P> {
    Epoch(u64),
    Intent(bool),
    State(EpochStateModel<Option<P>>),
}

/// What came of a step.
pub enum BootstrapEvent<P> {
    /// The latest epoch.
    Epoch(u64),
    /// Is the mark there?
    Intent(bool),
    /// The collected state as it was read.
    State(StoredState<P>),
}

impl<P: View> View for BootstrapEvent<P> {
    type V = BootstrapEventModel<P::V>;

    open spec fn view(&self) -> BootstrapEventModel<P::V> {
        match self {
            BootstrapEvent::Epoch(n) => BootstrapEventModel::Epoch(*n),
            BootstrapEvent::Intent(b) => BootstrapEventModel::Intent(*b),
            BootstrapEvent::State(s) => BootstrapEventModel::State(s@),
        }
    }
}

/// The step after `step` when `event` came of it. While the next epoch is
/// being begun, the replica waits for it to be there or given up; while the
/// state is not yet that of the epoch, it waits for it.
pub open spec fn bootstrap_next<C: DeltaCrdt>(
    step: BootstrapModel,
    event: BootstrapEventModel<<C::DeltaMessage as View>::V>,
) -> BootstrapModel {
    match (step, event) {
        (BootstrapModel::ReadMetadata, BootstrapEventModel::Epoch(epoch)) => {
            BootstrapModel::ReadIntent { epoch }
        },
        (BootstrapModel::ReadIntent { epoch }, BootstrapEventModel::Intent(present)) => {
            if present {
                BootstrapModel::PauseThenReadMetadata { epoch }
            } else {
                BootstrapModel::ReadState { epoch }
            }
        },
        (BootstrapModel::PauseThenReadMetadata { epoch }, BootstrapEventModel::Epoch(seen)) => {
            BootstrapModel::ReadIntentAgain { epoch, seen }
        },
        (BootstrapModel::ReadIntentAgain { epoch, seen }, BootstrapEventModel::Intent(present)) => {
            if seen > epoch || !present {
                BootstrapModel::ReadState { epoch: seen }
            } else {
                BootstrapModel::PauseThenReadMetadata { epoch }
            }
        },
        (BootstrapModel::ReadState { epoch }, BootstrapEventModel::State(state)) => {
            state_received::<C>(epoch, state)
        },
        (BootstrapModel::PauseThenReadState { epoch }, BootstrapEventModel::State(state)) => {
            state_received::<C>(epoch, state)
        },
        _ => step,
    }
}

/// The step after a state was read.
pub open spec fn state_received<C: DeltaCrdt>(
    epoch: u64,
    state: EpochStateModel<Option<<C::DeltaMessage as View>::V>>,
) -> BootstrapModel {
    if state.epoch != epoch {
        BootstrapModel::PauseThenReadState { epoch }
    } else {
        match payload_read::<C>(state.state_payload) {
            Ok(_) => BootstrapModel::Done { outcome: Ok(()) },
            Err(e) => BootstrapModel::Done { outcome: Err(e) },
        }
    }
}

/// The delta in a message that may not have been one, or why there is none.
pub open spec fn payload_read<C: DeltaCrdt>(
    payload: Option<<C::DeltaMessage as View>::V>,
) -> Result<<C::Delta as View>::V, CodecError> {
    match payload {
        Some(message) => C::read_delta(message),
        None => Err(CodecError::InvalidMessage),
    }
}

/// The replica after the step: it changes only when the state of the epoch
/// arrives and can be read.
pub open spec fn bootstrap_after<C: DeltaCrdt>(
    node: Seq<char>,
    before: ReplicaModel<C::V>,
    step: BootstrapModel,
    event: BootstrapEventModel<<C::DeltaMessage as View>::V>,
) -> ReplicaModel<C::V> {
    match (step, event) {
        (BootstrapModel::ReadState { epoch }, BootstrapEventModel::State(state)) => {
            joined_from::<C>(node, before, epoch, state)
        },
        (BootstrapModel::PauseThenReadState { epoch }, BootstrapEventModel::State(state)) => {
            joined_from::<C>(node, before, epoch, state)
        },
        _ => before,
    }
}

/// The replica after it has joined with a collected state: it has merged the
/// state, and what the initiator had seen.
pub open spec fn joined_from<C: DeltaCrdt>(
    node: Seq<char>,
    before: ReplicaModel<C::V>,
    epoch: u64,
    state: EpochStateModel<Option<<C::DeltaMessage as View>::V>>,
) -> ReplicaModel<C::V> {
    match payload_read::<C>(state.state_payload) {
        Ok(d) => if state.epoch == epoch {
            ReplicaModel {
                gc: CoordinatorModel { epoch, matrix: before.gc.matrix },
                state: C::after_merge(before.state, d),
                dvv: dots::merged(before.dvv, dots::with_clock(node, state.initiator_clock)),
            }
        } else {
            before
        },
        Err(_) => before,
    }
}

impl GcCoordinator {
    /// Join with a collected state.
    fn join_from<C: DeltaCrdt>(
        &mut self,
        epoch: u64,
        state: StoredState<C::DeltaMessage>,
        node_id: &NodeId,
        crdt: &mut C,
        dvv: &mut DotVersionVector,
    ) -> (r: BootstrapStep)
        ensures
            final(self).settings() == old(self).settings(),
            r@ == state_received::<C>(epoch, state@),
            (ReplicaModel { gc: final(self)@, state: final(crdt)@, dvv: final(dvv)@ })
                == joined_from::<C>(
                node_id@,
                (ReplicaModel { gc: old(self)@, state: old(crdt)@, dvv: old(dvv)@ }),
                epoch,
                state@,
            ),
    {
        if state.epoch != epoch {
            return BootstrapStep::PauseThenReadState { epoch };
        }
        let message = match &state.state_payload {
            Some(m) => m,
            None => {
                return BootstrapStep::Done { outcome: Err(CodecError::InvalidMessage) };
            },
        };
        match C::decode_delta(message) {
            Err(e) => BootstrapStep::Done { outcome: Err(e) },
            Ok(delta) => {
                let frontier = frontier_dvv(node_id, &state.initiator_clock);
                crdt.merge_delta(&delta);
                dvv.merge(&frontier);
                proof {
                    use_type_invariant(&*self);
                }
                self.epoch = epoch;
                BootstrapStep::Done { outcome: Ok(()) }
            },
        }
    }

    /// Go on joining: what came of a step leads to the next.
    pub fn new_replica_bootstrap<C: DeltaCrdt>(
        &mut self,
        step: BootstrapStep,
        event: BootstrapEvent<C::DeltaMessage>,
        node_id: &NodeId,
        crdt: &mut C,
        dvv: &mut DotVersionVector,
    ) -> (r: BootstrapStep)
        ensures
            final(self).settings() == old(self).settings(),
            r@ == bootstrap_next::<C>(step@, event@),
            (ReplicaModel { gc: final(self)@, state: final(crdt)@, dvv: final(dvv)@ })
                == bootstrap_after::<C>(
                node_id@,
                (ReplicaModel { gc: old(self)@, state: old(crdt)@, dvv: old(dvv)@ }),
                step@,
                event@,
            ),
    {
        match (step, event) {
            (BootstrapStep::ReadMetadata, BootstrapEvent::Epoch(epoch)) => {
                BootstrapStep::ReadIntent { epoch }
            },
            (BootstrapStep::ReadIntent { epoch }, BootstrapEvent::Intent(present)) => {
                if present {
                    BootstrapStep::PauseThenReadMetadata { epoch }
                } else {
                    BootstrapStep::ReadState { epoch }
                }
            },
            (BootstrapStep::PauseThenReadMetadata { epoch }, BootstrapEvent::Epoch(seen)) => {
                BootstrapStep::ReadIntentAgain { epoch, seen }
            },
            (BootstrapStep::ReadIntentAgain { epoch, seen }, BootstrapEvent::Intent(present)) => {
                if seen > epoch || !present {
                    BootstrapStep::ReadState { epoch: seen }
                } else {
                    BootstrapStep::PauseThenReadMetadata { epoch }
                }
            },
            (BootstrapStep::ReadState { epoch }, BootstrapEvent::State(state)) => {
                self.join_from(epoch, state, node_id, crdt, dvv)
            },
            (BootstrapStep::PauseThenReadState { epoch }, BootstrapEvent::State(state)) => {
                self.join_from(epoch, state, node_id, crdt, dvv)
            },
            (step, _) => step,
        }
    }
}

/// Drop the entries of these replicas.
fn remove_all(clock: &mut VersionVector, gone: &Vec<NodeId>)
    ensures
        final(clock)@ == old(clock)@.remove_keys(texts::texts_of(gone@).to_set()),
{
    let ghost ids = texts::texts_of(gone@);
    let ghost start = clock@;
    let mut i: usize = 0;
    assert(clock@ =~= start.remove_keys(ids.take(0).to_set()));
    while i < gone.len()
        invariant
            i <= gone.len(),
            ids == texts::texts_of(gone@),
            clock@ == start.remove_keys(ids.take(i as int).to_set()),
        decreases gone.len() - i,
    {
        proof {
            assert(ids.take(i + 1) =~= ids.take(i as int).push(ids[i as int]));
            seqs::lemma_push_to_set(ids.take(i as int), ids[i as int]);
        }
        clock.remove(&gone[i]);
        assert(clock@ =~= start.remove_keys(ids.take(i + 1).to_set()));
        i += 1;
    }
    assert(ids.take(i as int) =~= ids);
}

} // verus!
