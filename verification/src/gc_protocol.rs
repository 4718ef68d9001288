//! Garbage collection agreed on through an object store.
//!
//! Each epoch is one round. A replica claims the round with a mark that only
//! one can leave, finds what every member has seen, collects, and commits the
//! round by writing its stable timestamp and the collected state. Live
//! replicas catch up with the latest round; a new one starts from what its
//! initiator had seen.

use vstd::prelude::*;
use vstd::string::StringExecFns;

use crate::common::{ClockModel, NodeId};
use crate::crdt::or_set::{OrSet, SetModel};
use crate::crdt::or_set_laws as laws;
use crate::crdt::{DeltaContext, DeltaCrdt, ElementCodec};
use crate::engine::engine_inner as inners;
use crate::gc::coordinator as gc;
use crate::logical_clocks::dot_version_vector as dots;
use crate::logical_clocks::dot_version_vector::{
    frontier_dvv, Dot, DotVersionVector, DvvModel,
};
use crate::logical_clocks::version_vector as clocks;
use crate::logical_clocks::version_vector::{vv_join, vv_leq, vv_meet, VersionVector};
use crate::numbers;
use crate::numbers::decimal;
use crate::object_store as store;
use crate::object_store::{
    bottom_state_key, epoch_entry_key, latest_number, BottomState, BottomStateModel, EpochEntry,
    EpochEntryModel, GcIntent, IntentModel,
};
use crate::text as texts;
use crate::text::{same_texts, strip_prefixes};

verus! {

// ── Clocks ──────────────────────────────────────────────────────────────

/// The pointwise minimum of the clocks, an absent entry counting as zero; of
/// no clocks, one that has seen nothing.
pub open spec fn lowest_clock(members: Seq<ClockModel>) -> ClockModel
    decreases members.len(),
{
    if members.len() == 0 {
        Map::empty()
    } else if members.len() == 1 {
        members[0]
    } else {
        clocks::meet(lowest_clock(members.drop_last()), members.last())
    }
}

/// The values of a list of clocks.
pub open spec fn clock_values(v: Seq<VersionVector>) -> Seq<ClockModel> {
    v.map_values(|c: VersionVector| c@)
}

/// The stable timestamp: what every member has seen, by their clocks.
pub fn compute_stable_timestamp(members: &Vec<VersionVector>) -> (r: VersionVector)
    ensures
        r@ == lowest_clock(clock_values(members@)),
{
    if members.len() == 0 {
        return VersionVector::new();
    }
    let ghost all = clock_values(members@);
    let mut r = members[0].clone();
    let mut i: usize = 1;
    assert(all.take(1).len() == 1 && all.take(1)[0] == members@[0]@);
    while i < members.len()
        invariant
            1 <= i <= members.len(),
            all == clock_values(members@),
            r@ == lowest_clock(all.take(i as int)),
        decreases members.len() - i,
    {
        assert(all.take(i + 1).drop_last() =~= all.take(i as int));
        assert(all.take(i + 1).last() == members@[i as int]@);
        r = vv_meet(&r, &members[i]);
        i += 1;
    }
    assert(all.take(i as int) =~= all);
    r
}

/// Is the first clock strictly beyond the second? A missing counter counts as
/// zero.
pub open spec fn strictly_greater(a: ClockModel, b: ClockModel) -> bool {
    clocks::leq(b, a) && !clocks::leq(a, b)
}

/// Is the first clock strictly beyond the second?
pub fn is_strictly_greater(vv1: &VersionVector, vv2: &VersionVector) -> (r: bool)
    ensures
        r == strictly_greater(vv1@, vv2@),
{
    vv_leq(vv2, vv1) && !vv_leq(vv1, vv2)
}

// ── The replica ─────────────────────────────────────────────────────────

/// Why a round could not be taken up.
#[derive(Clone, Copy, Debug, PartialEq, Eq, Structural)]
pub enum GcProtocolError {
    /// The stable timestamp of an epoch is not there.
    EpochEntryMissing(u64),
    /// The collected state of an epoch is not there.
    BottomStateMissing(u64),
}

impl GcProtocolError {
    /// The failure in words.
    pub open spec fn says(self) -> Seq<char> {
        match self {
            GcProtocolError::EpochEntryMissing(epoch) => store::numbered(
                "epoch_entry missing for epoch "@,
                epoch,
            ),
            GcProtocolError::BottomStateMissing(epoch) => store::numbered(
                "bottom_state missing for epoch "@,
                epoch,
            ),
        }
    }

    /// The failure in words.
    pub fn message(&self) -> (r: String)
        ensures
            r@ == self.says(),
    {
        match self {
            GcProtocolError::EpochEntryMissing(epoch) => {
                let mut r = "epoch_entry missing for epoch ".to_owned();
                r.append(decimal(*epoch).as_str());
                r
            },
            GcProtocolError::BottomStateMissing(epoch) => {
                let mut r = "bottom_state missing for epoch ".to_owned();
                r.append(decimal(*epoch).as_str());
                r
            },
        }
    }
}

/// The mathematical value of a [`GcReplica`].
pub struct GcReplicaModel<S> {
    pub node_id: Seq<char>,
    pub epoch: u64,
    pub state: S,
    pub dvv: DvvModel,
}

/// A replica that takes part in the rounds.
pub struct GcReplica<C: DeltaCrdt> {
    pub node_id: NodeId,
    /// The round that this replica has taken up.
    pub epoch: u64,
    pub crdt_state: C,
    pub dvv: DotVersionVector,
}

impl<C: DeltaCrdt> View for GcReplica<C> {
    type V = GcReplicaModel<C::V>;

    open spec fn view(&self) -> GcReplicaModel<C::V> {
        GcReplicaModel {
            node_id: self.node_id@,
            epoch: self.epoch,
            state: self.crdt_state@,
            dvv: self.dvv@,
        }
    }
}

/// A replica that has collected what is stable under a clock.
pub open spec fn collected<C: DeltaCrdt>(
    before: GcReplicaModel<C::V>,
    stable: ClockModel,
) -> GcReplicaModel<C::V> {
    GcReplicaModel {
        state: C::after_gc(before.state, dots::with_clock(before.node_id, stable)),
        ..before
    }
}

// ── Catching up ─────────────────────────────────────────────────────────

/// The mathematical value of a [`CatchUpStep`].
pub enum CatchUpModel {
    ListEpochs,
    ReadEntry { epoch: u64 },
    WriteClock { clock: ClockModel },
    Done { outcome: Result<(), GcProtocolError> },
}

/// What is to be done outside next while a replica catches up.
pub enum CatchUpStep {
    /// List the keys of the stable timestamps.
    ListEpochs,
    /// Read the stable timestamp of an epoch.
    ReadEntry { epoch: u64 },
    /// Publish the replica's clock.
    WriteClock { clock: VersionVector },
    /// Nothing: the replica is up to date, or could not be.
    Done { outcome: Result<(), GcProtocolError> },
}

impl View for CatchUpStep {
    type V = CatchUpModel;

    open spec fn view(&self) -> CatchUpModel {
        match self {
            CatchUpStep::ListEpochs => CatchUpModel::ListEpochs,
            CatchUpStep::ReadEntry { epoch } => CatchUpModel::ReadEntry { epoch: *epoch },
            CatchUpStep::WriteClock { clock } => CatchUpModel::WriteClock { clock: clock@ },
            CatchUpStep::Done { outcome } => CatchUpModel::Done { outcome: *outcome },
        }
    }
}

/// The mathematical value of a [`CatchUpEvent`].
pub enum CatchUpEventModel {
    Keys(Seq<Seq<char>>),
    Entry(Option<EpochEntryModel>),
    Written,
}

/// What came of a step.
pub enum CatchUpEvent {
    Keys(Vec<String>),
    Entry(Option<EpochEntry>),
    Written,
}

/// The value of a stable timestamp that may not be there.
pub open spec fn entry_value(entry: Option<EpochEntry>) -> Option<EpochEntryModel> {
    match entry {
        Some(e) => Some(e@),
        None => None,
    }
}

impl View for CatchUpEvent {
    type V = CatchUpEventModel;

    open spec fn view(&self) -> CatchUpEventModel {
        match self {
            CatchUpEvent::Keys(keys) => CatchUpEventModel::Keys(texts::texts_of(keys@)),
            CatchUpEvent::Entry(entry) => CatchUpEventModel::Entry(entry_value(*entry)),
            CatchUpEvent::Written => CatchUpEventModel::Written,
        }
    }
}

/// The step after `step` when `event` came of it. An event that is no answer
/// to the step leaves it as it is.
pub open spec fn catch_up_next<S>(
    before: GcReplicaModel<S>,
    step: CatchUpModel,
    event: CatchUpEventModel,
) -> CatchUpModel {
    match (step, event) {
        (CatchUpModel::ListEpochs, CatchUpEventModel::Keys(keys)) => {
            let latest = store::latest_in("epoch_entry/"@, keys);
            if latest <= before.epoch {
                CatchUpModel::Done { outcome: Ok(()) }
            } else {
                CatchUpModel::ReadEntry { epoch: latest }
            }
        },
        (CatchUpModel::ReadEntry { epoch }, CatchUpEventModel::Entry(entry)) => match entry {
            Some(_) => CatchUpModel::WriteClock { clock: dots::effective(before.dvv) },
            None => CatchUpModel::Done { outcome: Err(GcProtocolError::EpochEntryMissing(epoch)) },
        },
        (CatchUpModel::WriteClock { clock: _ }, CatchUpEventModel::Written) => {
            CatchUpModel::Done { outcome: Ok(()) }
        },
        _ => step,
    }
}

/// The replica then.
pub open spec fn catch_up_after<C: DeltaCrdt>(
    before: GcReplicaModel<C::V>,
    step: CatchUpModel,
    event: CatchUpEventModel,
) -> GcReplicaModel<C::V> {
    match (step, event) {
        (CatchUpModel::ReadEntry { epoch }, CatchUpEventModel::Entry(Some(entry))) => {
            GcReplicaModel { epoch, ..collected::<C>(before, entry.stable_timestamp) }
        },
        _ => before,
    }
}

// ── Beginning a round ───────────────────────────────────────────────────

/// The mathematical value of an [`InitiateStep`].
pub enum InitiateModel {
    CatchUp(CatchUpModel),
    ListEpochs,
    ListMembers { epoch: u64 },
    Claim { intent: IntentModel, members: Seq<Seq<char>> },
    ListMembersAgain { epoch: u64, members: Seq<Seq<char>> },
    ReadClocks { epoch: u64, members: Seq<Seq<char>> },
    ReadPrevious { epoch: u64, stable: ClockModel },
    WriteEntry { entry: EpochEntryModel, bottom: BottomStateModel },
    WriteBottom { epoch: u64, bottom: BottomStateModel },
    Release { epoch: u64, begun: bool },
    Done { outcome: Result<bool, GcProtocolError> },
}

/// What is to be done outside next while a round is begun.
pub enum InitiateStep {
    /// Catch up first.
    CatchUp(CatchUpStep),
    /// List the keys of the stable timestamps.
    ListEpochs,
    /// List the keys of the members.
    ListMembers { epoch: u64 },
    /// Leave the mark for the epoch, if none is there.
    Claim { intent: GcIntent, members: Vec<NodeId> },
    /// List the keys of the members again.
    ListMembersAgain { epoch: u64, members: Vec<NodeId> },
    /// Read the clock of each member, one that has seen nothing where there
    /// is none.
    ReadClocks { epoch: u64, members: Vec<NodeId> },
    /// Read the stable timestamp of the epoch before.
    ReadPrevious { epoch: u64, stable: VersionVector },
    /// Write the stable timestamp of the epoch.
    WriteEntry { entry: EpochEntry, bottom: BottomState },
    /// Write the collected state of the epoch.
    WriteBottom { epoch: u64, bottom: BottomState },
    /// Take the mark for the epoch back.
    Release { epoch: u64, begun: bool },
    /// Nothing: the round was begun, or given up, or could not be.
    Done { outcome: Result<bool, GcProtocolError> },
}

impl View for InitiateStep {
    type V = InitiateModel;

    open spec fn view(&self) -> InitiateModel {
        match self {
            InitiateStep::CatchUp(step) => InitiateModel::CatchUp(step@),
            InitiateStep::ListEpochs => InitiateModel::ListEpochs,
            InitiateStep::ListMembers { epoch } => InitiateModel::ListMembers { epoch: *epoch },
            InitiateStep::Claim { intent, members } => InitiateModel::Claim {
                intent: intent@,
                members: texts::texts_of(members@),
            },
            InitiateStep::ListMembersAgain { epoch, members } => InitiateModel::ListMembersAgain {
                epoch: *epoch,
                members: texts::texts_of(members@),
            },
            InitiateStep::ReadClocks { epoch, members } => InitiateModel::ReadClocks {
                epoch: *epoch,
                members: texts::texts_of(members@),
            },
            InitiateStep::ReadPrevious { epoch, stable } => InitiateModel::ReadPrevious {
                epoch: *epoch,
                stable: stable@,
            },
            InitiateStep::WriteEntry { entry, bottom } => InitiateModel::WriteEntry {
                entry: entry@,
                bottom: bottom@,
            },
            InitiateStep::WriteBottom { epoch, bottom } => InitiateModel::WriteBottom {
                epoch: *epoch,
                bottom: bottom@,
            },
            InitiateStep::Release { epoch, begun } => InitiateModel::Release {
                epoch: *epoch,
                begun: *begun,
            },
            InitiateStep::Done { outcome } => InitiateModel::Done { outcome: *outcome },
        }
    }
}

impl InitiateStep {
    /// The epoch whose stable timestamp is to be read; none when none is, or
    /// when there is no epoch before.
    pub fn previous_epoch(&self) -> (r: Option<u64>)
        ensures
            r == match *self {
                InitiateStep::ReadPrevious { epoch, stable: _ } => if epoch > 0 {
                    Some((epoch - 1) as u64)
                } else {
                    None
                },
                _ => None,
            },
    {
        match self {
            InitiateStep::ReadPrevious { epoch, stable: _ } => epoch.checked_sub(1),
            _ => None,
        }
    }
}

/// The mathematical value of an [`InitiateEvent`].
pub enum InitiateEventModel {
    CatchUp(CatchUpEventModel),
    Keys(Seq<Seq<char>>),
    Claimed(bool),
    Clocks(Seq<ClockModel>),
    Entry(Option<EpochEntryModel>),
    Written,
    Released,
}

/// What came of a step.
pub enum InitiateEvent {
    CatchUp(CatchUpEvent),
    Keys(Vec<String>),
    Claimed(bool),
    Clocks(Vec<VersionVector>),
    Entry(Option<EpochEntry>),
    Written,
    Released,
}

impl View for InitiateEvent {
    type V = InitiateEventModel;

    open spec fn view(&self) -> InitiateEventModel {
        match self {
            InitiateEvent::CatchUp(event) => InitiateEventModel::CatchUp(event@),
            InitiateEvent::Keys(keys) => InitiateEventModel::Keys(texts::texts_of(keys@)),
            InitiateEvent::Claimed(claimed) => InitiateEventModel::Claimed(*claimed),
            InitiateEvent::Clocks(clocks) => InitiateEventModel::Clocks(clock_values(clocks@)),
            InitiateEvent::Entry(entry) => InitiateEventModel::Entry(entry_value(*entry)),
            InitiateEvent::Written => InitiateEventModel::Written,
            InitiateEvent::Released => InitiateEventModel::Released,
        }
    }
}

/// Is the stable timestamp beyond that of the epoch before, if there is one?
pub open spec fn makes_progress(stable: ClockModel, previous: Option<EpochEntryModel>) -> bool {
    previous matches Some(p) ==> strictly_greater(stable, p.stable_timestamp)
}

/// The step that commits a round, for a replica with this clock.
pub open spec fn commit_step(epoch: u64, stable: ClockModel, clock: ClockModel) -> InitiateModel {
    InitiateModel::WriteEntry {
        entry: EpochEntryModel { epoch, stable_timestamp: stable },
        bottom: BottomStateModel { state_bytes: Seq::empty(), initiator_vv: clock },
    }
}

/// The step after `step` when `event` came of it. An event that is no answer
/// to the step leaves it as it is.
pub open spec fn initiate_next<S>(
    before: GcReplicaModel<S>,
    step: InitiateModel,
    event: InitiateEventModel,
) -> InitiateModel {
    match (step, event) {
        (InitiateModel::CatchUp(s), InitiateEventModel::CatchUp(e)) => {
            match catch_up_next(before, s, e) {
                CatchUpModel::Done { outcome: Ok(()) } => InitiateModel::ListEpochs,
                CatchUpModel::Done { outcome: Err(error) } => InitiateModel::Done {
                    outcome: Err(error),
                },
                next => InitiateModel::CatchUp(next),
            }
        },
        (InitiateModel::ListEpochs, InitiateEventModel::Keys(keys)) => {
            if before.epoch != store::latest_in("epoch_entry/"@, keys) {
                InitiateModel::Done { outcome: Ok(false) }
            } else {
                InitiateModel::ListMembers { epoch: (before.epoch + 1) as u64 }
            }
        },
        (InitiateModel::ListMembers { epoch }, InitiateEventModel::Keys(keys)) => {
            InitiateModel::Claim {
                intent: IntentModel { epoch, initiator_id: before.node_id },
                members: texts::suffixes(keys, "member/"@),
            }
        },
        (InitiateModel::Claim { intent, members }, InitiateEventModel::Claimed(claimed)) => {
            if claimed {
                InitiateModel::ListMembersAgain { epoch: intent.epoch, members }
            } else {
                InitiateModel::Done { outcome: Ok(false) }
            }
        },
        (InitiateModel::ListMembersAgain { epoch, members }, InitiateEventModel::Keys(keys)) => {
            if texts::suffixes(keys, "member/"@) != members {
                InitiateModel::Release { epoch, begun: false }
            } else {
                InitiateModel::ReadClocks { epoch, members }
            }
        },
        (InitiateModel::ReadClocks { epoch, members }, InitiateEventModel::Clocks(found)) => {
            if found.len() != members.len() {
                step
            } else if epoch > 1 {
                InitiateModel::ReadPrevious { epoch, stable: lowest_clock(found) }
            } else {
                commit_step(epoch, lowest_clock(found), dots::effective(before.dvv))
            }
        },
        (InitiateModel::ReadPrevious { epoch, stable }, InitiateEventModel::Entry(previous)) => {
            if makes_progress(stable, previous) {
                commit_step(epoch, stable, dots::effective(before.dvv))
            } else {
                InitiateModel::Release { epoch, begun: false }
            }
        },
        (InitiateModel::WriteEntry { entry, bottom }, InitiateEventModel::Written) => {
            InitiateModel::WriteBottom { epoch: entry.epoch, bottom }
        },
        (InitiateModel::WriteBottom { epoch, bottom: _ }, InitiateEventModel::Written) => {
            InitiateModel::Release { epoch, begun: true }
        },
        (InitiateModel::Release { epoch: _, begun }, InitiateEventModel::Released) => {
            InitiateModel::Done { outcome: Ok(begun) }
        },
        _ => step,
    }
}

/// The replica then: it collects when the round is to be committed, and takes
/// the round up once both of its records are written.
pub open spec fn initiate_after<C: DeltaCrdt>(
    before: GcReplicaModel<C::V>,
    step: InitiateModel,
    event: InitiateEventModel,
) -> GcReplicaModel<C::V> {
    match (step, event) {
        (InitiateModel::CatchUp(s), InitiateEventModel::CatchUp(e)) => {
            catch_up_after::<C>(before, s, e)
        },
        (InitiateModel::ReadClocks { epoch, members }, InitiateEventModel::Clocks(found)) => {
            if found.len() == members.len() && epoch <= 1 {
                collected::<C>(before, lowest_clock(found))
            } else {
                before
            }
        },
        (InitiateModel::ReadPrevious { epoch: _, stable }, InitiateEventModel::Entry(previous)) => {
            if makes_progress(stable, previous) {
                collected::<C>(before, stable)
            } else {
                before
            }
        },
        (InitiateModel::WriteBottom { epoch, bottom: _ }, InitiateEventModel::Written) => {
            GcReplicaModel { epoch, ..before }
        },
        _ => before,
    }
}

// ── Joining ─────────────────────────────────────────────────────────────

/// The mathematical value of a [`JoinStep`].
pub enum JoinModel {
    WriteMember,
    ListBottoms,
    ReadIntent { epoch: u64 },
    ReadBottom { epoch: u64 },
    ReadEntry { epoch: u64, bottom: BottomStateModel },
    WriteClock { clock: ClockModel },
    Done { outcome: Result<(), GcProtocolError> },
}

/// What is to be done outside next while a new replica joins.
pub enum JoinStep {
    /// Say that the replica is a member.
    WriteMember,
    /// List the keys of the collected states.
    ListBottoms,
    /// Look for the mark of the epoch after `epoch`. The replica goes on with
    /// the epoch that is there, whether or not the next one is being begun.
    ReadIntent { epoch: u64 },
    /// Read the collected state of an epoch.
    ReadBottom { epoch: u64 },
    /// Read the stable timestamp of an epoch.
    ReadEntry { epoch: u64, bottom: BottomState },
    /// Publish the replica's clock.
    WriteClock { clock: VersionVector },
    /// Nothing: the replica has joined, or could not.
    Done { outcome: Result<(), GcProtocolError> },
}

impl View for JoinStep {
    type V = JoinModel;

    open spec fn view(&self) -> JoinModel {
        match self {
            JoinStep::WriteMember => JoinModel::WriteMember,
            JoinStep::ListBottoms => JoinModel::ListBottoms,
            JoinStep::ReadIntent { epoch } => JoinModel::ReadIntent { epoch: *epoch },
            JoinStep::ReadBottom { epoch } => JoinModel::ReadBottom { epoch: *epoch },
            JoinStep::ReadEntry { epoch, bottom } => JoinModel::ReadEntry {
                epoch: *epoch,
                bottom: bottom@,
            },
            JoinStep::WriteClock { clock } => JoinModel::WriteClock { clock: clock@ },
            JoinStep::Done { outcome } => JoinModel::Done { outcome: *outcome },
        }
    }
}

impl JoinStep {
    /// The epoch whose mark is to be looked for; none when no mark is, or when
    /// there is no such epoch.
    pub fn intent_epoch(&self) -> (r: Option<u64>)
        ensures
            r == match *self {
                JoinStep::ReadIntent { epoch } => gc::next_epoch(epoch),
                _ => None,
            },
    {
        match self {
            JoinStep::ReadIntent { epoch } => epoch.checked_add(1),
            _ => None,
        }
    }
}

/// The mathematical value of a [`JoinEvent`].
pub enum JoinEventModel {
    Written,
    Keys(Seq<Seq<char>>),
    Intent(bool),
    Bottom(Option<BottomStateModel>),
    Entry(Option<EpochEntryModel>),
}

/// What came of a step.
pub enum JoinEvent {
    Written,
    Keys(Vec<String>),
    /// Is the mark there?
    Intent(bool),
    Bottom(Option<BottomState>),
    Entry(Option<EpochEntry>),
}

/// The value of a collected state that may not be there.
pub open spec fn bottom_value(bottom: Option<BottomState>) -> Option<BottomStateModel> {
    match bottom {
        Some(b) => Some(b@),
        None => None,
    }
}

impl View for JoinEvent {
    type V = JoinEventModel;

    open spec fn view(&self) -> JoinEventModel {
        match self {
            JoinEvent::Written => JoinEventModel::Written,
            JoinEvent::Keys(keys) => JoinEventModel::Keys(texts::texts_of(keys@)),
            JoinEvent::Intent(present) => JoinEventModel::Intent(*present),
            JoinEvent::Bottom(bottom) => JoinEventModel::Bottom(bottom_value(*bottom)),
            JoinEvent::Entry(entry) => JoinEventModel::Entry(entry_value(*entry)),
        }
    }
}

/// The replica that starts from what was seen in an epoch. It keeps its
/// state.
pub open spec fn joined<S>(
    before: GcReplicaModel<S>,
    epoch: u64,
    initiator: ClockModel,
    stable: ClockModel,
) -> GcReplicaModel<S> {
    GcReplicaModel {
        epoch,
        dvv: dots::with_clock(before.node_id, clocks::join(initiator, stable)),
        ..before
    }
}

/// The step after `step` when `event` came of it. An event that is no answer
/// to the step leaves it as it is.
pub open spec fn join_next<S>(
    before: GcReplicaModel<S>,
    step: JoinModel,
    event: JoinEventModel,
) -> JoinModel {
    match (step, event) {
        (JoinModel::WriteMember, JoinEventModel::Written) => JoinModel::ListBottoms,
        (JoinModel::ListBottoms, JoinEventModel::Keys(keys)) => JoinModel::ReadIntent {
            epoch: store::latest_in("bottom_state/"@, keys),
        },
        (JoinModel::ReadIntent { epoch }, JoinEventModel::Intent(_)) => JoinModel::ReadBottom {
            epoch,
        },
        (JoinModel::ReadBottom { epoch }, JoinEventModel::Bottom(bottom)) => match bottom {
            Some(b) => JoinModel::ReadEntry { epoch, bottom: b },
            None => JoinModel::Done { outcome: Err(GcProtocolError::BottomStateMissing(epoch)) },
        },
        (JoinModel::ReadEntry { epoch, bottom }, JoinEventModel::Entry(entry)) => match entry {
            Some(e) => JoinModel::WriteClock {
                clock: dots::effective(
                    joined(before, epoch, bottom.initiator_vv, e.stable_timestamp).dvv,
                ),
            },
            None => JoinModel::Done { outcome: Err(GcProtocolError::EpochEntryMissing(epoch)) },
        },
        (JoinModel::WriteClock { clock: _ }, JoinEventModel::Written) => JoinModel::Done {
            outcome: Ok(()),
        },
        _ => step,
    }
}

/// The replica then.
pub open spec fn join_after<S>(
    before: GcReplicaModel<S>,
    step: JoinModel,
    event: JoinEventModel,
) -> GcReplicaModel<S> {
    match (step, event) {
        (JoinModel::ReadEntry { epoch, bottom }, JoinEventModel::Entry(Some(e))) => joined(
            before,
            epoch,
            bottom.initiator_vv,
            e.stable_timestamp,
        ),
        _ => before,
    }
}

impl<C: DeltaCrdt> GcReplica<C> {
    pub fn new(node_id: NodeId, crdt_state: C, dvv: DotVersionVector) -> (r: Self)
        ensures
            r@ == (GcReplicaModel {
                node_id: node_id@,
                epoch: 0,
                state: crdt_state@,
                dvv: dvv@,
            }),
    {
        GcReplica { node_id, epoch: 0, crdt_state, dvv }
    }

    /// Collect what is stable under a clock.
    fn collect(&mut self, stable: &VersionVector)
        ensures
            final(self)@ == collected::<C>(old(self)@, stable@),
    {
        let frontier = frontier_dvv(&self.node_id, stable);
        self.crdt_state.perform_gc(&frontier);
    }

    /// Go on catching up: what came of a step leads to the next.
    pub fn observe_epoch_change(&mut self, step: CatchUpStep, event: CatchUpEvent) -> (r:
        CatchUpStep)
        ensures
            r@ == catch_up_next(old(self)@, step@, event@),
            final(self)@ == catch_up_after::<C>(old(self)@, step@, event@),
    {
        match (step, event) {
            (CatchUpStep::ListEpochs, CatchUpEvent::Keys(keys)) => {
                let latest = latest_number("epoch_entry/", &keys);
                if latest <= self.epoch {
                    CatchUpStep::Done { outcome: Ok(()) }
                } else {
                    CatchUpStep::ReadEntry { epoch: latest }
                }
            },
            (CatchUpStep::ReadEntry { epoch }, CatchUpEvent::Entry(entry)) => match entry {
                Some(e) => {
                    self.collect(&e.stable_timestamp);
                    self.epoch = epoch;
                    CatchUpStep::WriteClock { clock: self.dvv.effective_map() }
                },
                None => CatchUpStep::Done {
                    outcome: Err(GcProtocolError::EpochEntryMissing(epoch)),
                },
            },
            (CatchUpStep::WriteClock { clock: _ }, CatchUpEvent::Written) => {
                CatchUpStep::Done { outcome: Ok(()) }
            },
            (step, _) => step,
        }
    }

    /// Collect, and go on to commit the round.
    fn commit(&mut self, epoch: u64, stable: VersionVector) -> (r: InitiateStep)
        ensures
            final(self)@ == collected::<C>(old(self)@, stable@),
            r@ == commit_step(epoch, stable@, dots::effective(old(self)@.dvv)),
    {
        self.collect(&stable);
        let bottom = BottomState {
            state_bytes: Vec::new(),
            initiator_vv: self.dvv.effective_map(),
        };
        InitiateStep::WriteEntry { entry: EpochEntry { epoch, stable_timestamp: stable }, bottom }
    }

    /// Go on beginning a round: what came of a step leads to the next. It
    /// starts with catching up.
    pub fn initiate_gc(&mut self, step: InitiateStep, event: InitiateEvent) -> (r: InitiateStep)
        requires
            step is ListEpochs ==> old(self).epoch < u64::MAX,
        ensures
            r@ == initiate_next(old(self)@, step@, event@),
            final(self)@ == initiate_after::<C>(old(self)@, step@, event@),
    {
        match (step, event) {
            (InitiateStep::CatchUp(s), InitiateEvent::CatchUp(e)) => {
                match self.observe_epoch_change(s, e) {
                    CatchUpStep::Done { outcome: Ok(()) } => InitiateStep::ListEpochs,
                    CatchUpStep::Done { outcome: Err(error) } => InitiateStep::Done {
                        outcome: Err(error),
                    },
                    next => InitiateStep::CatchUp(next),
                }
            },
            (InitiateStep::ListEpochs, InitiateEvent::Keys(keys)) => {
                if self.epoch != latest_number("epoch_entry/", &keys) {
                    InitiateStep::Done { outcome: Ok(false) }
                } else {
                    InitiateStep::ListMembers { epoch: self.epoch + 1 }
                }
            },
            (InitiateStep::ListMembers { epoch }, InitiateEvent::Keys(keys)) => {
                let intent = GcIntent { epoch, initiator_id: self.node_id.clone() };
                InitiateStep::Claim { intent, members: strip_prefixes(&keys, "member/") }
            },
            (InitiateStep::Claim { intent, members }, InitiateEvent::Claimed(claimed)) => {
                if claimed {
                    InitiateStep::ListMembersAgain { epoch: intent.epoch, members }
                } else {
                    InitiateStep::Done { outcome: Ok(false) }
                }
            },
            (InitiateStep::ListMembersAgain { epoch, members }, InitiateEvent::Keys(keys)) => {
                let now = strip_prefixes(&keys, "member/");
                if same_texts(&now, &members) {
                    InitiateStep::ReadClocks { epoch, members }
                } else {
                    InitiateStep::Release { epoch, begun: false }
                }
            },
            (InitiateStep::ReadClocks { epoch, members }, InitiateEvent::Clocks(found)) => {
                if found.len() == members.len() {
                    let stable = compute_stable_timestamp(&found);
                    if epoch > 1 {
                        InitiateStep::ReadPrevious { epoch, stable }
                    } else {
                        self.commit(epoch, stable)
                    }
                } else {
                    InitiateStep::ReadClocks { epoch, members }
                }
            },
            (InitiateStep::ReadPrevious { epoch, stable }, InitiateEvent::Entry(previous)) => {
                let progress: bool = match &previous {
                    Some(p) => is_strictly_greater(&stable, &p.stable_timestamp),
                    None => true,
                };
                if progress {
                    self.commit(epoch, stable)
                } else {
                    InitiateStep::Release { epoch, begun: false }
                }
            },
            (InitiateStep::WriteEntry { entry, bottom }, InitiateEvent::Written) => {
                InitiateStep::WriteBottom { epoch: entry.epoch, bottom }
            },
            (InitiateStep::WriteBottom { epoch, bottom: _ }, InitiateEvent::Written) => {
                self.epoch = epoch;
                InitiateStep::Release { epoch, begun: true }
            },
            (InitiateStep::Release { epoch: _, begun }, InitiateEvent::Released) => {
                InitiateStep::Done { outcome: Ok(begun) }
            },
            (step, _) => step,
        }
    }

    /// Go on joining: what came of a step leads to the next.
    pub fn bootstrap(&mut self, step: JoinStep, event: JoinEvent) -> (r: JoinStep)
        ensures
            r@ == join_next(old(self)@, step@, event@),
            final(self)@ == join_after(old(self)@, step@, event@),
    {
        match (step, event) {
            (JoinStep::WriteMember, JoinEvent::Written) => JoinStep::ListBottoms,
            (JoinStep::ListBottoms, JoinEvent::Keys(keys)) => JoinStep::ReadIntent {
                epoch: latest_number("bottom_state/", &keys),
            },
            (JoinStep::ReadIntent { epoch }, JoinEvent::Intent(_)) => {
                JoinStep::ReadBottom { epoch }
            },
            (JoinStep::ReadBottom { epoch }, JoinEvent::Bottom(bottom)) => match bottom {
                Some(b) => JoinStep::ReadEntry { epoch, bottom: b },
                None => JoinStep::Done { outcome: Err(GcProtocolError::BottomStateMissing(epoch)) },
            },
            (JoinStep::ReadEntry { epoch, bottom }, JoinEvent::Entry(entry)) => match entry {
                Some(e) => {
                    let clock = vv_join(&bottom.initiator_vv, &e.stable_timestamp);
                    self.dvv = frontier_dvv(&self.node_id, &clock);
                    self.epoch = epoch;
                    JoinStep::WriteClock { clock: self.dvv.effective_map() }
                },
                None => JoinStep::Done { outcome: Err(GcProtocolError::EpochEntryMissing(epoch)) },
            },
            (JoinStep::WriteClock { clock: _ }, JoinEvent::Written) => {
                JoinStep::Done { outcome: Ok(()) }
            },
            (step, _) => step,
        }
    }

    /// A local operation, with a new event.
    pub fn local_write(&mut self, op: C::Op) -> (r: C::Delta)
        requires
            clocks::counter_of(dots::effective(old(self).dvv@), old(self).dvv@.dot.node_id)
                < u64::MAX,
        ensures
            final(self).node_id == old(self).node_id,
            final(self).epoch == old(self).epoch,
            final(self).dvv@ == dots::after_event(old(self).dvv@),
            final(self).crdt_state@ == C::after_local(
                old(self).crdt_state@,
                final(self).dvv@.dot,
                op@,
            ),
            C::announces_local(
                old(self).crdt_state@,
                final(self).dvv@.dot,
                op@,
                final(self).dvv@,
                r@,
            ),
    {
        self.dvv.event();
        let dot = self.dvv.dot.clone();
        self.crdt_state.apply_local(dot, op, &self.dvv)
    }

    /// Merge what a peer sent.
    pub fn merge_delta(&mut self, delta: &C::Delta)
        ensures
            final(self)@ == (GcReplicaModel {
                state: C::after_merge(old(self)@.state, delta@),
                dvv: dots::merged(
                    old(self)@.dvv,
                    inners::delta_vector(C::Delta::metadata(delta@)),
                ),
                ..old(self)@
            }),
    {
        self.crdt_state.merge_delta(delta);
        let (context, node, counter) = delta.causal_context();
        let remote = DotVersionVector { dot: Dot::new(node, counter), context };
        self.dvv.merge(&remote);
    }

    /// The clock to publish.
    pub fn write_clock(&self) -> (r: VersionVector)
        ensures
            r@ == dots::effective(self@.dvv),
    {
        self.dvv.effective_map()
    }

    /// The keys of the epochs before the latest one, which may go: those of
    /// the stable timestamps and of the collected states.
    pub fn cleanup(&self, keys: &Vec<String>) -> (r: Vec<(String, String)>)
        ensures
            r@.len() == if store::latest_in("epoch_entry/"@, texts::texts_of(keys@)) == 0 {
                0
            } else {
                store::latest_in("epoch_entry/"@, texts::texts_of(keys@)) - 1
            },
            forall|i: int|
                0 <= i < r@.len() ==> (#[trigger] r@[i]).0@ == store::numbered(
                    "epoch_entry/"@,
                    (i + 1) as u64,
                ) && r@[i].1@ == store::numbered("bottom_state/"@, (i + 1) as u64),
    {
        let latest = latest_number("epoch_entry/", keys);
        let mut r: Vec<(String, String)> = Vec::new();
        let mut n: u64 = 1;
        while n < latest
            invariant
                1 <= n,
                n <= latest || (latest == 0 && n == 1),
                r@.len() == n - 1,
                forall|i: int|
                    0 <= i < r@.len() ==> (#[trigger] r@[i]).0@ == store::numbered(
                        "epoch_entry/"@,
                        (i + 1) as u64,
                    ) && r@[i].1@ == store::numbered("bottom_state/"@, (i + 1) as u64),
            decreases latest - n,
        {
            r.push((epoch_entry_key(n), bottom_state_key(n)));
            n += 1;
        }
        r
    }
}

// ── Laws ────────────────────────────────────────────────────────────────

/// The stable timestamp is below the clock of every member, and beyond no
/// lower bound of them: a member without a clock holds everything back.
pub proof fn law_stable_is_greatest_lower_bound(members: Seq<ClockModel>, bound: ClockModel)
    requires
        members.len() > 0,
    ensures
        forall|i: int|
            0 <= i < members.len() ==> clocks::leq(lowest_clock(members), #[trigger] members[i]),
        (forall|i: int| 0 <= i < members.len() ==> clocks::leq(bound, #[trigger] members[i]))
            ==> clocks::leq(bound, lowest_clock(members)),
    decreases members.len(),
{
    if members.len() == 1 {
        clocks::law_leq_order(members[0], members[0], members[0]);
    } else {
        let rest = members.drop_last();
        law_stable_is_greatest_lower_bound(rest, bound);
        clocks::law_meet_greatest_lower_bound(lowest_clock(rest), members.last(), bound);
        assert forall|i: int| 0 <= i < members.len() implies clocks::leq(
            lowest_clock(members),
            #[trigger] members[i],
        ) by {
            if i < rest.len() {
                assert(rest[i] == members[i]);
                clocks::law_leq_order(lowest_clock(members), lowest_clock(rest), members[i]);
            }
        }
        if forall|i: int| 0 <= i < members.len() ==> clocks::leq(bound, #[trigger] members[i]) {
            assert forall|i: int| 0 <= i < rest.len() implies clocks::leq(
                bound,
                #[trigger] rest[i],
            ) by {
                assert(rest[i] == members[i]);
            }
            assert(clocks::leq(bound, members[members.len() - 1]));
        }
    }
}

/// An event that is collected has been seen by every member.
pub proof fn law_collected_seen_by_every_member(
    members: Seq<ClockModel>,
    node: Seq<char>,
    i: int,
    dot: dots::DotModel,
)
    requires
        0 <= i < members.len(),
        dots::covers(dots::effective(dots::with_clock(node, lowest_clock(members))), dot),
    ensures
        dots::covers(members[i], dot),
{
    let stable = lowest_clock(members);
    law_stable_is_greatest_lower_bound(members, stable);
    dots::law_with_clock_keeps_counters(node, stable, dot.node_id);
    assert(clocks::leq(stable, members[i]));
    assert(clocks::counter_of(stable, dot.node_id) <= clocks::counter_of(members[i], dot.node_id));
}

/// To be strictly greater is a strict order.
pub proof fn law_strictly_greater_order(a: ClockModel, b: ClockModel, c: ClockModel)
    ensures
        !strictly_greater(a, a),
        strictly_greater(a, b) ==> !strictly_greater(b, a),
        strictly_greater(a, b) && strictly_greater(b, c) ==> strictly_greater(a, c),
{
    clocks::law_leq_order(a, a, a);
    if strictly_greater(a, b) && strictly_greater(b, c) {
        clocks::law_leq_order(c, b, a);
        clocks::law_leq_order(a, c, b);
    }
}

/// To be strictly greater is to be at least as great everywhere and greater
/// somewhere.
pub proof fn law_strictly_greater_pointwise(a: ClockModel, b: ClockModel)
    ensures
        strictly_greater(a, b) <==> (forall|n: Seq<char>| #[trigger]
            clocks::counter_of(b, n) <= clocks::counter_of(a, n)) && (exists|n: Seq<char>|
            clocks::counter_of(b, n) < #[trigger] clocks::counter_of(a, n)),
{
    if !clocks::leq(a, b) {
        let n = choose|n: Seq<char>| !(#[trigger] clocks::counter_of(a, n) <= clocks::counter_of(b, n));
        assert(clocks::counter_of(b, n) < clocks::counter_of(a, n));
    }
}

/// A round after another one is committed just when it makes strict progress:
/// all that was stable before is stable now, and something is stable that was
/// not. What is committed is what was found.
pub proof fn law_rounds_make_progress<S>(
    before: GcReplicaModel<S>,
    epoch: u64,
    stable: ClockModel,
    previous: EpochEntryModel,
)
    ensures
        initiate_next(
            before,
            InitiateModel::ReadPrevious { epoch, stable },
            InitiateEventModel::Entry(Some(previous)),
        ) is WriteEntry <==> clocks::leq(previous.stable_timestamp, stable) && !clocks::leq(
            stable,
            previous.stable_timestamp,
        ),
        initiate_next(
            before,
            InitiateModel::ReadPrevious { epoch, stable },
            InitiateEventModel::Entry(Some(previous)),
        ) matches InitiateModel::WriteEntry { entry, bottom: _ } ==> entry.epoch == epoch
            && entry.stable_timestamp == stable,
{
}

/// The clocks are read of exactly those replicas that were members both
/// before and after the round was claimed.
pub proof fn law_closed_world<S>(
    before: GcReplicaModel<S>,
    epoch: u64,
    members: Seq<Seq<char>>,
    keys: Seq<Seq<char>>,
)
    ensures
        initiate_next(
            before,
            InitiateModel::ListMembersAgain { epoch, members },
            InitiateEventModel::Keys(keys),
        ) matches InitiateModel::ReadClocks { epoch: e, members: m } ==> e == epoch && m == members
            && m == texts::suffixes(keys, "member/"@),
{
}

/// Does the replica hold the mark for an epoch at this step?
pub open spec fn holds_mark(step: InitiateModel) -> bool {
    step is ListMembersAgain || step is ReadClocks || step is ReadPrevious || step is WriteEntry
        || step is WriteBottom || step is Release
}

/// A replica comes to hold the mark only by claiming it, and one that holds
/// it takes it back before it is done.
pub proof fn law_mark_is_taken_back<S>(
    before: GcReplicaModel<S>,
    step: InitiateModel,
    event: InitiateEventModel,
)
    ensures
        !holds_mark(step) && holds_mark(initiate_next(before, step, event)) ==> step is Claim
            && event == InitiateEventModel::Claimed(true),
        holds_mark(step) && !holds_mark(initiate_next(before, step, event)) ==> step is Release
            && event is Released && initiate_next(before, step, event) is Done,
{
}

/// The epoch of a replica changes only when it catches up with another one,
/// or once both records of a round are written.
pub proof fn law_epoch_moves_after_commit<C: DeltaCrdt>(
    before: GcReplicaModel<C::V>,
    step: InitiateModel,
    event: InitiateEventModel,
)
    requires
        initiate_after::<C>(before, step, event).epoch != before.epoch,
    ensures
        (step is WriteBottom && event is Written) || (step matches InitiateModel::CatchUp(
            CatchUpModel::ReadEntry { epoch },
        ) && initiate_after::<C>(before, step, event).epoch == epoch),
{
}

/// A replica only reads the timestamp of an epoch later than its own.
pub proof fn law_catches_up_forward<S>(before: GcReplicaModel<S>, keys: Seq<Seq<char>>)
    ensures
        catch_up_next(
            before,
            CatchUpModel::ListEpochs,
            CatchUpEventModel::Keys(keys),
        ) matches CatchUpModel::ReadEntry { epoch } ==> epoch > before.epoch,
{
}

/// A member whose published clock it has not fallen behind is beyond the
/// stable timestamp: what is collected, it has seen.
pub proof fn law_collects_only_what_it_has_seen(members: Seq<ClockModel>, i: int, dvv: DvvModel)
    requires
        0 <= i < members.len(),
        clocks::leq(members[i], dots::effective(dvv)),
    ensures
        clocks::leq(lowest_clock(members), dots::effective(dvv)),
{
    let stable = lowest_clock(members);
    law_stable_is_greatest_lower_bound(members, stable);
    assert(clocks::leq(stable, members[i]));
    clocks::law_leq_order(stable, members[i], dots::effective(dvv));
}

/// A replica's clock covers its state, through every step of a round.
pub proof fn law_round_stays_known<E: ElementCodec>(
    before: GcReplicaModel<SetModel<E::V>>,
    step: InitiateModel,
    event: InitiateEventModel,
)
    requires
        laws::known_by(before.state, dots::effective(before.dvv)),
    ensures
        laws::known_by(
            initiate_after::<OrSet<E>>(before, step, event).state,
            dots::effective(initiate_after::<OrSet<E>>(before, step, event).dvv),
        ),
{
    let clock = dots::effective(before.dvv);
    assert forall|stable: ClockModel| laws::known_by(
        (#[trigger] collected::<OrSet<E>>(before, stable)).state,
        clock,
    ) by {
        laws::law_gc_stays_known(
            before.state,
            clock,
            dots::effective(dots::with_clock(before.node_id, stable)),
        );
    }
}

/// The next event of a replica that is beyond the stable timestamp is beyond
/// it too, so that a collection never meets it.
pub proof fn law_no_future_event_is_stable(dvv: DvvModel, stable: ClockModel)
    requires
        clocks::counter_of(dots::effective(dvv), dvv.dot.node_id) < u64::MAX,
        clocks::leq(stable, dots::effective(dvv)),
    ensures
        !dots::covers(stable, dots::after_event(dvv).dot),
{
    let own = dvv.dot.node_id;
    assert(clocks::counter_of(stable, own) <= clocks::counter_of(dots::effective(dvv), own));
}

/// A replica that joins knows all that the initiator knew and all that was
/// stable.
pub proof fn law_joined_knows_all<S>(
    before: GcReplicaModel<S>,
    epoch: u64,
    initiator: ClockModel,
    stable: ClockModel,
)
    ensures
        clocks::leq(initiator, dots::effective(joined(before, epoch, initiator, stable).dvv)),
        clocks::leq(stable, dots::effective(joined(before, epoch, initiator, stable).dvv)),
{
    let clock = clocks::join(initiator, stable);
    let known = dots::effective(joined(before, epoch, initiator, stable).dvv);
    clocks::law_join_least_upper_bound(initiator, stable, clock);
    assert forall|n: Seq<char>| #[trigger]
        clocks::counter_of(initiator, n) <= clocks::counter_of(known, n) by {
        dots::law_with_clock_keeps_counters(before.node_id, clock, n);
        assert(clocks::counter_of(initiator, n) <= clocks::counter_of(clock, n));
    }
    assert forall|n: Seq<char>| #[trigger]
        clocks::counter_of(stable, n) <= clocks::counter_of(known, n) by {
        dots::law_with_clock_keeps_counters(before.node_id, clock, n);
        assert(clocks::counter_of(stable, n) <= clocks::counter_of(clock, n));
    }
}

// ── What a round does, step by step ─────────────────────────────────────

/// In every epoch, what leaves the step that read the members' clocks is
/// below each of the clocks that were read, and beyond no other clock that is.
pub proof fn law_round_finds_what_members_saw<S>(
    before: GcReplicaModel<S>,
    epoch: u64,
    members: Seq<Seq<char>>,
    found: Seq<ClockModel>,
    bound: ClockModel,
)
    requires
        found.len() == members.len(),
        found.len() > 0,
        forall|i: int| 0 <= i < found.len() ==> clocks::leq(bound, #[trigger] found[i]),
    ensures
        epoch > 1 ==> initiate_next(
            before,
            (InitiateModel::ReadClocks { epoch, members }),
            InitiateEventModel::Clocks(found),
        ) is ReadPrevious,
        epoch <= 1 ==> initiate_next(
            before,
            (InitiateModel::ReadClocks { epoch, members }),
            InitiateEventModel::Clocks(found),
        ) is WriteEntry,
        initiate_next(
            before,
            (InitiateModel::ReadClocks { epoch, members }),
            InitiateEventModel::Clocks(found),
        ) matches InitiateModel::ReadPrevious { epoch: e, stable } ==> e == epoch && (forall|i: int|
            0 <= i < found.len() ==> clocks::leq(stable, #[trigger] found[i])) && clocks::leq(
            bound,
            stable,
        ),
        initiate_next(
            before,
            (InitiateModel::ReadClocks { epoch, members }),
            InitiateEventModel::Clocks(found),
        ) matches InitiateModel::WriteEntry { entry, bottom: _ } ==> entry.epoch == epoch && (
        forall|i: int|
            0 <= i < found.len() ==> clocks::leq(entry.stable_timestamp, #[trigger] found[i]))
            && clocks::leq(bound, entry.stable_timestamp),
{
    law_stable_is_greatest_lower_bound(found, bound);
}

/// With no member, nothing is stable.
pub proof fn law_round_without_members<S>(before: GcReplicaModel<S>, epoch: u64, n: Seq<char>)
    ensures
        initiate_next(
            before,
            (InitiateModel::ReadClocks { epoch, members: Seq::empty() }),
            InitiateEventModel::Clocks(Seq::empty()),
        ) matches InitiateModel::ReadPrevious { epoch: _, stable } ==> !stable.contains_key(n),
        initiate_next(
            before,
            (InitiateModel::ReadClocks { epoch, members: Seq::empty() }),
            InitiateEventModel::Clocks(Seq::empty()),
        ) matches InitiateModel::WriteEntry { entry, bottom: _ }
            ==> !entry.stable_timestamp.contains_key(n),
{
}

/// A round goes on only with as many clocks as there are members.
pub proof fn law_round_needs_every_clock<S>(
    before: GcReplicaModel<S>,
    epoch: u64,
    members: Seq<Seq<char>>,
    found: Seq<ClockModel>,
)
    requires
        found.len() != members.len(),
    ensures
        initiate_next(
            before,
            (InitiateModel::ReadClocks { epoch, members }),
            InitiateEventModel::Clocks(found),
        ) == (InitiateModel::ReadClocks { epoch, members }),
{
}

/// Without a stable timestamp of the epoch before, the round is committed with
/// what was found.
pub proof fn law_round_without_predecessor<S>(
    before: GcReplicaModel<S>,
    epoch: u64,
    stable: ClockModel,
)
    ensures
        initiate_next(
            before,
            (InitiateModel::ReadPrevious { epoch, stable }),
            InitiateEventModel::Entry(None),
        ) is WriteEntry,
        initiate_next(
            before,
            (InitiateModel::ReadPrevious { epoch, stable }),
            InitiateEventModel::Entry(None),
        )->WriteEntry_entry == (EpochEntryModel { epoch, stable_timestamp: stable }),
{
}

/// A replica collects just when it goes on to commit: it drops the tombstones
/// that are stable by what it commits, and no others, and commits its own
/// clock beside it. Its clock, its epoch and its name stay as they are.
pub proof fn law_round_collects_what_it_commits<E: ElementCodec>(
    before: GcReplicaModel<SetModel<E::V>>,
    step: InitiateModel,
    event: InitiateEventModel,
    d: dots::DotModel,
)
    requires
        initiate_next(before, step, event) is WriteEntry,
        !(step is WriteEntry),
    ensures
        step is ReadClocks || step is ReadPrevious,
        initiate_next(before, step, event)->WriteEntry_bottom.initiator_vv == dots::effective(
            before.dvv,
        ),
        initiate_after::<OrSet<E>>(before, step, event).epoch == before.epoch,
        initiate_after::<OrSet<E>>(before, step, event).dvv == before.dvv,
        initiate_after::<OrSet<E>>(before, step, event).node_id == before.node_id,
        initiate_after::<OrSet<E>>(before, step, event).state.adds == before.state.adds,
        initiate_after::<OrSet<E>>(before, step, event).state.tombstones.contains_key(d)
            <==> before.state.tombstones.contains_key(d) && !(dots::covers(
            initiate_next(before, step, event)->WriteEntry_entry.stable_timestamp,
            d,
        ) && dots::covers(
            initiate_next(before, step, event)->WriteEntry_entry.stable_timestamp,
            before.state.tombstones[d],
        )),
{
    let stable = initiate_next(before, step, event)->WriteEntry_entry.stable_timestamp;
    let frontier = dots::with_clock(before.node_id, stable);
    laws::law_gc_drops_just_the_stable::<E>(before.state, frontier, d);
    dots::law_with_clock_keeps_counters(before.node_id, stable, d.node_id);
    dots::law_with_clock_keeps_counters(
        before.node_id,
        stable,
        before.state.tombstones[d].node_id,
    );
}

/// At every other step of a round the state stays as it is, but for catching
/// up with another one; the clock and the name always do.
pub proof fn law_round_collects_once<C: DeltaCrdt>(
    before: GcReplicaModel<C::V>,
    step: InitiateModel,
    event: InitiateEventModel,
)
    ensures
        initiate_after::<C>(before, step, event).dvv == before.dvv,
        initiate_after::<C>(before, step, event).node_id == before.node_id,
        !(step is CatchUp) && (step is WriteEntry || !(initiate_next(
            before,
            step,
            event,
        ) is WriteEntry)) ==> initiate_after::<C>(before, step, event).state == before.state,
        step is WriteBottom && event is Written ==> initiate_after::<C>(before, step, event).epoch
            == step->WriteBottom_epoch,
        !(step is CatchUp) && !(step is WriteBottom && event is Written) ==> initiate_after::<C>(
            before,
            step,
            event,
        ).epoch == before.epoch,
{
}

/// A round is committed only by a replica that was up to date, left the mark
/// for the next epoch, and found the same members after it as before; and what
/// one step hands to the next stays as it was found.
pub proof fn law_round_goes_in_order<S>(
    before: GcReplicaModel<S>,
    step: InitiateModel,
    event: InitiateEventModel,
)
    requires
        initiate_next(before, step, event) != step,
        before.epoch < u64::MAX,
    ensures
        initiate_next(before, step, event) is CatchUp ==> step is CatchUp && event is CatchUp,
        initiate_next(before, step, event) is ListEpochs ==> step is CatchUp && event is CatchUp,
        initiate_next(before, step, event) matches InitiateModel::ListMembers { epoch }
            ==> step is ListEpochs && event is Keys && epoch == before.epoch + 1
            && store::latest_in("epoch_entry/"@, event->Keys_0) == before.epoch,
        initiate_next(before, step, event) matches InitiateModel::Claim { intent, members }
            ==> step is ListMembers && event is Keys && intent.epoch == step->ListMembers_epoch
            && intent.initiator_id == before.node_id && members == texts::suffixes(
            event->Keys_0,
            "member/"@,
        ),
        initiate_next(before, step, event) matches InitiateModel::ListMembersAgain { epoch, members }
            ==> step is Claim && event == InitiateEventModel::Claimed(true) && epoch
            == step->Claim_intent.epoch && members == step->Claim_members,
        initiate_next(before, step, event) matches InitiateModel::ReadClocks { epoch, members }
            ==> step is ListMembersAgain && event is Keys && epoch == step->ListMembersAgain_epoch
            && members == step->ListMembersAgain_members,
        initiate_next(before, step, event) is ReadPrevious ==> step is ReadClocks && event is Clocks,
        initiate_next(before, step, event) matches InitiateModel::WriteBottom { epoch, bottom }
            ==> step is WriteEntry && event is Written && epoch == step->WriteEntry_entry.epoch
            && bottom == step->WriteEntry_bottom,
        initiate_next(before, step, event) matches InitiateModel::Release { epoch, begun }
            ==> begun == (step is WriteBottom),
        initiate_next(before, step, event) matches InitiateModel::Done { outcome: Ok(begun) }
            ==> begun == (step is Release && step->Release_begun),
{
}

/// Each answer moves a round on: past the list of epochs just when the replica
/// is up to date, past the mark just when it was left, past the members just
/// when they stayed the same, and after both records to the end.
pub proof fn law_round_moves_on<S>(
    before: GcReplicaModel<S>,
    step: InitiateModel,
    event: InitiateEventModel,
)
    ensures
        step is ListEpochs && event is Keys ==> if store::latest_in("epoch_entry/"@, event->Keys_0)
            == before.epoch {
            initiate_next(before, step, event) is ListMembers
        } else {
            initiate_next(before, step, event) == (InitiateModel::Done { outcome: Ok(false) })
        },
        step is ListMembers && event is Keys ==> initiate_next(before, step, event) is Claim,
        step is Claim && event is Claimed ==> if event->Claimed_0 {
            initiate_next(before, step, event) is ListMembersAgain
        } else {
            initiate_next(before, step, event) == (InitiateModel::Done { outcome: Ok(false) })
        },
        step is ListMembersAgain && event is Keys ==> if texts::suffixes(
            event->Keys_0,
            "member/"@,
        ) == step->ListMembersAgain_members {
            initiate_next(before, step, event) is ReadClocks
        } else {
            initiate_next(before, step, event) is Release && !initiate_next(
                before,
                step,
                event,
            )->Release_begun && initiate_next(before, step, event)->Release_epoch
                == step->ListMembersAgain_epoch
        },
        step is ReadPrevious && event is Entry ==> initiate_next(before, step, event) is WriteEntry
            || initiate_next(before, step, event) is Release && initiate_next(
            before,
            step,
            event,
        )->Release_epoch == step->ReadPrevious_epoch,
        step is WriteEntry && event is Written ==> initiate_next(before, step, event) is WriteBottom,
        step is WriteBottom && event is Written ==> initiate_next(before, step, event) is Release
            && initiate_next(before, step, event)->Release_begun && initiate_next(
            before,
            step,
            event,
        )->Release_epoch == step->WriteBottom_epoch,
        step is Release && event is Released ==> initiate_next(before, step, event) is Done,
        step is Done ==> initiate_next(before, step, event) == step,
{
}

/// Catching up reads the latest epoch just when it is later than the
/// replica's own, and fails just when its stable timestamp is not there.
pub proof fn law_catching_up_moves_on<S>(
    before: GcReplicaModel<S>,
    step: CatchUpModel,
    event: CatchUpEventModel,
)
    ensures
        step is ListEpochs && event is Keys ==> if store::latest_in("epoch_entry/"@, event->Keys_0)
            > before.epoch {
            catch_up_next(before, step, event) is ReadEntry && catch_up_next(
                before,
                step,
                event,
            )->ReadEntry_epoch == store::latest_in("epoch_entry/"@, event->Keys_0)
        } else {
            catch_up_next(before, step, event) == (CatchUpModel::Done { outcome: Ok(()) })
        },
        step is ReadEntry && event is Entry ==> if event->Entry_0 is Some {
            catch_up_next(before, step, event) is WriteClock && catch_up_next(
                before,
                step,
                event,
            )->WriteClock_clock == dots::effective(before.dvv)
        } else {
            catch_up_next(before, step, event) == (CatchUpModel::Done {
                outcome: Err(GcProtocolError::EpochEntryMissing(step->ReadEntry_epoch)),
            })
        },
        step is WriteClock && event is Written ==> catch_up_next(before, step, event) == (
        CatchUpModel::Done { outcome: Ok(()) }),
        catch_up_next(before, step, event) != step ==> (step is ListEpochs && event is Keys) || (
        step is ReadEntry && event is Entry) || (step is WriteClock && event is Written),
{
}

/// A round whose first part has caught up goes on, and one that could not
/// gives up with the same failure.
pub proof fn law_round_starts_by_catching_up<S>(
    before: GcReplicaModel<S>,
    step: CatchUpModel,
    event: CatchUpEventModel,
)
    ensures
        catch_up_next(before, step, event) == (CatchUpModel::Done { outcome: Ok(()) })
            ==> initiate_next(
            before,
            InitiateModel::CatchUp(step),
            InitiateEventModel::CatchUp(event),
        ) is ListEpochs,
        catch_up_next(before, step, event) matches CatchUpModel::Done { outcome: Err(e) }
            ==> initiate_next(
            before,
            InitiateModel::CatchUp(step),
            InitiateEventModel::CatchUp(event),
        ) == (InitiateModel::Done { outcome: Err(e) }),
        !(catch_up_next(before, step, event) is Done) ==> initiate_next(
            before,
            InitiateModel::CatchUp(step),
            InitiateEventModel::CatchUp(event),
        ) == InitiateModel::CatchUp(catch_up_next(before, step, event)),
{
}

/// A replica that has read a stable timestamp is in its epoch, and has dropped
/// just the tombstones that it makes stable; otherwise catching up changes
/// nothing. In a round it is the same.
pub proof fn law_catching_up_follows_the_entry<E: ElementCodec>(
    before: GcReplicaModel<SetModel<E::V>>,
    step: CatchUpModel,
    event: CatchUpEventModel,
    d: dots::DotModel,
)
    ensures
        catch_up_after::<OrSet<E>>(before, step, event).dvv == before.dvv,
        catch_up_after::<OrSet<E>>(before, step, event).node_id == before.node_id,
        catch_up_after::<OrSet<E>>(before, step, event).state.adds == before.state.adds,
        step is ReadEntry && event is Entry && event->Entry_0 is Some ==> catch_up_after::<
            OrSet<E>,
        >(before, step, event).epoch == step->ReadEntry_epoch && (catch_up_after::<OrSet<E>>(
            before,
            step,
            event,
        ).state.tombstones.contains_key(d) <==> before.state.tombstones.contains_key(d) && !(
        dots::covers(event->Entry_0->0.stable_timestamp, d) && dots::covers(
            event->Entry_0->0.stable_timestamp,
            before.state.tombstones[d],
        ))),
        !(step is ReadEntry && event is Entry && event->Entry_0 is Some) ==> catch_up_after::<
            OrSet<E>,
        >(before, step, event) == before,
        initiate_after::<OrSet<E>>(
            before,
            InitiateModel::CatchUp(step),
            InitiateEventModel::CatchUp(event),
        ) == catch_up_after::<OrSet<E>>(before, step, event),
{
    if step is ReadEntry && event is Entry && event->Entry_0 is Some {
        let stable = event->Entry_0->0.stable_timestamp;
        let frontier = dots::with_clock(before.node_id, stable);
        laws::law_gc_drops_just_the_stable::<E>(before.state, frontier, d);
        dots::law_with_clock_keeps_counters(before.node_id, stable, d.node_id);
        dots::law_with_clock_keeps_counters(
            before.node_id,
            stable,
            before.state.tombstones[d].node_id,
        );
    }
}

/// A new replica becomes a member first, then takes the latest epoch that has
/// a state, and starts from what its initiator had seen and what was stable;
/// it fails just when one of the two records is not there.
pub proof fn law_joining_a_round_moves_on<S>(
    before: GcReplicaModel<S>,
    step: JoinModel,
    event: JoinEventModel,
)
    ensures
        step is WriteMember && event is Written ==> join_next(before, step, event) is ListBottoms,
        step is ListBottoms && event is Keys ==> join_next(before, step, event) is ReadIntent
            && join_next(before, step, event)->ReadIntent_epoch == store::latest_in(
            "bottom_state/"@,
            event->Keys_0,
        ),
        step is ReadIntent && event is Intent ==> join_next(before, step, event) is ReadBottom
            && join_next(before, step, event)->ReadBottom_epoch == step->ReadIntent_epoch,
        step is ReadBottom && event is Bottom ==> if event->Bottom_0 is Some {
            join_next(before, step, event) is ReadEntry && join_next(
                before,
                step,
                event,
            )->ReadEntry_epoch == step->ReadBottom_epoch && join_next(
                before,
                step,
                event,
            )->ReadEntry_bottom == event->Bottom_0->0
        } else {
            join_next(before, step, event) == (JoinModel::Done {
                outcome: Err(GcProtocolError::BottomStateMissing(step->ReadBottom_epoch)),
            })
        },
        step is ReadEntry && event is Entry ==> if event->Entry_0 is Some {
            join_next(before, step, event) is WriteClock && join_next(
                before,
                step,
                event,
            )->WriteClock_clock == dots::effective(join_after(before, step, event).dvv)
        } else {
            join_next(before, step, event) == (JoinModel::Done {
                outcome: Err(GcProtocolError::EpochEntryMissing(step->ReadEntry_epoch)),
            })
        },
        step is WriteClock && event is Written ==> join_next(before, step, event) == (
        JoinModel::Done { outcome: Ok(()) }),
        join_next(before, step, event) == (JoinModel::Done { outcome: Ok(()) }) && !(step is Done)
            ==> step is WriteClock && event is Written,
        !(step is ReadEntry && event is Entry && event->Entry_0 is Some) ==> join_after(
            before,
            step,
            event,
        ) == before,
{
}

/// A replica that has joined is in the epoch that it chose, keeps its state
/// and its name, and has seen of each replica the more of what the initiator
/// had seen and what was stable, and nothing else.
pub proof fn law_joined_counts_the_greater<S>(
    before: GcReplicaModel<S>,
    epoch: u64,
    bottom: BottomStateModel,
    entry: EpochEntryModel,
    n: Seq<char>,
)
    ensures
        join_after(
            before,
            (JoinModel::ReadEntry { epoch, bottom }),
            JoinEventModel::Entry(Some(entry)),
        ).epoch == epoch,
        join_after(
            before,
            (JoinModel::ReadEntry { epoch, bottom }),
            JoinEventModel::Entry(Some(entry)),
        ).state == before.state,
        join_after(
            before,
            (JoinModel::ReadEntry { epoch, bottom }),
            JoinEventModel::Entry(Some(entry)),
        ).node_id == before.node_id,
        join_after(
            before,
            (JoinModel::ReadEntry { epoch, bottom }),
            JoinEventModel::Entry(Some(entry)),
        ).dvv.dot.node_id == before.node_id,
        clocks::counter_of(
            dots::effective(
                join_after(
                    before,
                    (JoinModel::ReadEntry { epoch, bottom }),
                    JoinEventModel::Entry(Some(entry)),
                ).dvv,
            ),
            n,
        ) == if clocks::counter_of(bottom.initiator_vv, n) >= clocks::counter_of(
            entry.stable_timestamp,
            n,
        ) {
            clocks::counter_of(bottom.initiator_vv, n)
        } else {
            clocks::counter_of(entry.stable_timestamp, n)
        },
{
    let clock = clocks::join(bottom.initiator_vv, entry.stable_timestamp);
    dots::law_with_clock_keeps_counters(before.node_id, clock, n);
    clocks::law_join_takes_the_greater(bottom.initiator_vv, entry.stable_timestamp, n);
}

} // verus!
