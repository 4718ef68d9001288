//! Observed-remove set.
//!
//! Every element is tagged with the dots of the additions that put it there.
//! Removing an element buries those dots under tombstones; an addition that
//! the remover had not seen keeps its own dot and survives.

use vstd::prelude::*;

use crate::common::{ClockModel, Counter, NodeId};
use crate::crdt::or_set_wire;
use crate::crdt::{CodecError, DeltaContext, DeltaCrdt, ElementCodec};
use crate::logical_clocks::dot_version_vector as dots;
use crate::logical_clocks::dot_version_vector::{Dot, DotModel, DotVersionVector, DvvModel};
use crate::logical_clocks::version_vector::VersionVector;
use crate::proto::{ProtoOrSetDelta, ProtoOrSetOp, WireDelta};
use crate::seqs;
use crate::text as texts;
use crate::text::{join_texts, sort_texts};

verus! {

// ── Operations and deltas ───────────────────────────────────────────────

/// The mathematical value of an [`OrSetOp`].
pub enum OpModel<V> {
    Add(V),
    Remove(V),
}

/// An operation of the application.
pub enum OrSetOp<E> {
    Add(E),
    Remove(E),
}

impl<E: View> View for OrSetOp<E> {
    type V = OpModel<E::V>;

    open spec fn view(&self) -> OpModel<E::V> {
        match self {
            OrSetOp::Add(e) => OpModel::Add(e@),
            OrSetOp::Remove(e) => OpModel::Remove(e@),
        }
    }
}

/// The mathematical value of an [`OrSetDelta`].
pub struct DeltaModel<V> {
    pub adds: Seq<(V, DotModel)>,
    pub tombstones: Seq<(DotModel, DotModel)>,
    pub context: ClockModel,
    pub dot_node: Seq<char>,
    pub dot_counter: u64,
}

/// A change to a set, or a whole set, with the sender's causal metadata.
pub struct OrSetDelta<E> {
    /// The (element, dot) pairs being added.
    pub adds: Vec<(E, Dot)>,
    /// The tombstones: (dot of the addition, dot of the removal).
    pub tombstones: Vec<(Dot, Dot)>,
    /// The sender's clock.
    pub context: VersionVector,
    pub dot_node: NodeId,
    pub dot_counter: Counter,
}

/// The values of a list of (element, dot) pairs.
pub open spec fn pairs_of<E: View>(adds: Seq<(E, Dot)>) -> Seq<(E::V, DotModel)> {
    adds.map_values(|p: (E, Dot)| (p.0@, p.1@))
}

/// The values of a list of tombstones.
pub open spec fn stones_of(tombstones: Seq<(Dot, Dot)>) -> Seq<(DotModel, DotModel)> {
    tombstones.map_values(|p: (Dot, Dot)| (p.0@, p.1@))
}

impl<E: View> View for OrSetDelta<E> {
    type V = DeltaModel<E::V>;

    open spec fn view(&self) -> DeltaModel<E::V> {
        DeltaModel {
            adds: pairs_of(self.adds@),
            tombstones: stones_of(self.tombstones@),
            context: self.context@,
            dot_node: self.dot_node@,
            dot_counter: self.dot_counter,
        }
    }
}

impl<E: View> DeltaContext for OrSetDelta<E> {
    open spec fn metadata(d: DeltaModel<E::V>) -> (ClockModel, Seq<char>, u64) {
        (d.context, d.dot_node, d.dot_counter)
    }

    fn causal_context(&self) -> (r: (VersionVector, NodeId, Counter)) {
        (self.context.clone(), self.dot_node.clone(), self.dot_counter)
    }
}

// ── The state and what happens to it ────────────────────────────────────

/// The mathematical value of an [`OrSet`].
#[verifier::ext_equal]
#[verifier::reject_recursive_types(V)]
pub struct SetModel<V> {
    /// The elements with the dots that justify them.
    pub adds: Set<(V, DotModel)>,
    /// Dot of the addition to dot of the removal.
    pub tombstones: Map<DotModel, DotModel>,
}

/// The set that nothing has happened to.
pub open spec fn empty_set<V>() -> SetModel<V> {
    SetModel { adds: Set::empty(), tombstones: Map::empty() }
}

/// Is the element in the set?
pub open spec fn is_member<V>(s: SetModel<V>, e: V) -> bool {
    exists|d: DotModel| #[trigger] s.adds.contains((e, d)) && !s.tombstones.contains_key(d)
}

/// The elements of the set.
pub open spec fn members<V>(s: SetModel<V>) -> Set<V> {
    Set::new(|e: V| is_member(s, e))
}

/// No dot both justifies an element and is buried.
pub open spec fn separated<V>(s: SetModel<V>) -> bool {
    forall|p: (V, DotModel)| #[trigger] s.adds.contains(p) ==> !s.tombstones.contains_key(p.1)
}

/// Is `d` one of the dots that the list buries?
pub open spec fn buries(stones: Seq<(DotModel, DotModel)>, d: DotModel) -> bool {
    exists|i: int| 0 <= i < stones.len() && (#[trigger] stones[i]).0 == d
}

/// The tombstones after a list of burials, the later ones winning.
pub open spec fn bury(
    tombstones: Map<DotModel, DotModel>,
    stones: Seq<(DotModel, DotModel)>,
) -> Map<DotModel, DotModel>
    decreases stones.len(),
{
    if stones.len() == 0 {
        tombstones
    } else {
        bury(tombstones, stones.drop_last()).insert(stones.last().0, stones.last().1)
    }
}

/// The state after a local operation with event `dot`.
pub open spec fn applied<V>(s: SetModel<V>, dot: DotModel, op: OpModel<V>) -> SetModel<V> {
    match op {
        OpModel::Add(e) => SetModel { adds: s.adds.insert((e, dot)), tombstones: s.tombstones },
        OpModel::Remove(e) => SetModel {
            adds: s.adds.filter(|p: (V, DotModel)| p.0 != e),
            tombstones: Map::new(
                |d: DotModel| s.tombstones.contains_key(d) || s.adds.contains((e, d)),
                |d: DotModel|
                    if s.adds.contains((e, d)) {
                        dot
                    } else {
                        s.tombstones[d]
                    },
            ),
        },
    }
}

/// The state after merging a delta: its tombstones first, then those of its
/// additions that are not buried.
pub open spec fn merge_into<V>(s: SetModel<V>, d: DeltaModel<V>) -> SetModel<V> {
    let tombstones = bury(s.tombstones, d.tombstones);
    SetModel {
        adds: Set::new(
            |p: (V, DotModel)|
                {
                    ||| s.adds.contains(p) && !buries(d.tombstones, p.1)
                    ||| d.adds.contains(p) && !tombstones.contains_key(p.1)
                },
        ),
        tombstones,
    }
}

/// The tombstones that `keep` holds of.
pub open spec fn kept_stones(
    tombstones: Map<DotModel, DotModel>,
    keep: spec_fn((DotModel, DotModel)) -> bool,
) -> Map<DotModel, DotModel> {
    Map::new(
        |d: DotModel| tombstones.contains_key(d) && keep((d, tombstones[d])),
        |d: DotModel| tombstones[d],
    )
}

/// The part of a state that an observer with clock `known` has not seen:
/// the additions whose dot is new to it, and the tombstones whose removal is.
pub open spec fn unseen<V>(s: SetModel<V>, known: ClockModel) -> SetModel<V> {
    SetModel {
        adds: s.adds.filter(|p: (V, DotModel)| !dots::covers(known, p.1)),
        tombstones: kept_stones(
            s.tombstones,
            |p: (DotModel, DotModel)| !dots::covers(known, p.1),
        ),
    }
}

/// Has every replica seen both the addition and the removal, when all of them
/// have reached `frontier`?
pub open spec fn is_stable(frontier: ClockModel, add: DotModel, remove: DotModel) -> bool {
    dots::covers(frontier, add) && dots::covers(frontier, remove)
}

/// The state without the tombstones that are stable under `frontier`.
pub open spec fn collected<V>(s: SetModel<V>, frontier: ClockModel) -> SetModel<V> {
    SetModel {
        adds: s.adds,
        tombstones: kept_stones(
            s.tombstones,
            |p: (DotModel, DotModel)| !is_stable(frontier, p.0, p.1),
        ),
    }
}

/// No dot is buried twice in the list.
pub open spec fn distinct_stones(stones: Seq<(DotModel, DotModel)>) -> bool {
    forall|i: int, j: int|
        0 <= i < j < stones.len() ==> (#[trigger] stones[i]).0 != (#[trigger] stones[j]).0
}

/// The list holds each tombstone once, and nothing else.
pub open spec fn lists_stones(
    stones: Seq<(DotModel, DotModel)>,
    tombstones: Map<DotModel, DotModel>,
) -> bool {
    &&& distinct_stones(stones)
    &&& forall|i: int|
        0 <= i < stones.len() ==> tombstones.contains_key((#[trigger] stones[i]).0)
            && tombstones[stones[i].0] == stones[i].1
    &&& forall|d: DotModel| #[trigger] tombstones.contains_key(d) ==> buries(stones, d)
}

/// The list holds each pair once, and nothing else.
pub open spec fn lists_pairs<V>(pairs: Seq<(V, DotModel)>, adds: Set<(V, DotModel)>) -> bool {
    &&& pairs.no_duplicates()
    &&& pairs.to_set() == adds
}

/// Does the delta carry exactly the state `s`?
pub open spec fn describes<V>(d: DeltaModel<V>, s: SetModel<V>) -> bool {
    lists_pairs(d.adds, s.adds) && lists_stones(d.tombstones, s.tombstones)
}

/// Does the delta carry the causal metadata of `dvv`?
pub open spec fn stamped<V>(d: DeltaModel<V>, dvv: DvvModel) -> bool {
    d.context == dots::effective(dvv) && d.dot_node == dvv.dot.node_id && d.dot_counter == dvv.dot.counter
}

/// What a local operation changes, as a state of its own.
pub open spec fn local_change<V>(s: SetModel<V>, dot: DotModel, op: OpModel<V>) -> SetModel<V> {
    match op {
        OpModel::Add(e) => SetModel { adds: set![(e, dot)], tombstones: Map::empty() },
        OpModel::Remove(e) => SetModel {
            adds: Set::empty(),
            tombstones: Map::new(
                |d: DotModel| s.adds.contains((e, d)),
                |d: DotModel| dot,
            ),
        },
    }
}

// ── Lists ───────────────────────────────────────────────────────────────

/// Burying adds the dots of the list, and leaves the other tombstones alone.
pub proof fn lemma_bury(tombstones: Map<DotModel, DotModel>, stones: Seq<(DotModel, DotModel)>)
    ensures
        forall|d: DotModel| #[trigger]
            bury(tombstones, stones).contains_key(d) <==> tombstones.contains_key(d) || buries(
                stones,
                d,
            ),
        forall|d: DotModel|
            !buries(stones, d) && tombstones.contains_key(d) ==> #[trigger] bury(
                tombstones,
                stones,
            )[d] == tombstones[d],
    decreases stones.len(),
{
    if stones.len() > 0 {
        let rest = stones.drop_last();
        lemma_bury(tombstones, rest);
        let shorter = bury(tombstones, rest);
        let last = stones.last();
        assert(bury(tombstones, stones) == shorter.insert(last.0, last.1));
        assert forall|d: DotModel|
            buries(stones, d) == (buries(rest, d) || last.0 == d) by {
            if buries(rest, d) {
                let i = choose|i: int| 0 <= i < rest.len() && (#[trigger] rest[i]).0 == d;
                assert(stones[i].0 == d);
            }
            if buries(stones, d) {
                let i = choose|i: int| 0 <= i < stones.len() && (#[trigger] stones[i]).0 == d;
                if i < rest.len() {
                    assert(rest[i].0 == d);
                }
            }
            if last.0 == d {
                assert(stones[stones.len() - 1].0 == d);
            }
        }
        assert forall|d: DotModel| #[trigger]
            bury(tombstones, stones).contains_key(d) <==> tombstones.contains_key(d) || buries(
                stones,
                d,
            ) by {
            assert(shorter.contains_key(d) <==> tombstones.contains_key(d) || buries(rest, d));
        }
        assert forall|d: DotModel|
            !buries(stones, d) && tombstones.contains_key(d) implies #[trigger] bury(
            tombstones,
            stones,
        )[d] == tombstones[d] by {
            assert(shorter[d] == tombstones[d]);
        }
    }
}

/// Burying a list without repetitions into nothing gives what it lists.
proof fn lemma_bury_lists(stones: Seq<(DotModel, DotModel)>)
    requires
        distinct_stones(stones),
    ensures
        lists_stones(stones, bury(Map::empty(), stones)),
    decreases stones.len(),
{
    let m = bury(Map::empty(), stones);
    lemma_bury(Map::empty(), stones);
    if stones.len() > 0 {
        let rest = stones.drop_last();
        assert forall|i: int, j: int| 0 <= i < j < rest.len() implies (#[trigger] rest[i]).0 != (
        #[trigger] rest[j]).0 by {
            assert(rest[i] == stones[i] && rest[j] == stones[j]);
        }
        lemma_bury_lists(rest);
        assert forall|i: int| 0 <= i < stones.len() implies m.contains_key((#[trigger] stones[i]).0)
            && m[stones[i].0] == stones[i].1 by {
            if i < rest.len() {
                assert(rest[i] == stones[i]);
                assert(stones[i].0 != stones[stones.len() - 1].0);
            }
        }
    }
}

/// A list without repetitions buries over existing tombstones as the map
/// that it lists.
pub proof fn lemma_bury_over(
    tombstones: Map<DotModel, DotModel>,
    stones: Seq<(DotModel, DotModel)>,
    listed: Map<DotModel, DotModel>,
)
    requires
        lists_stones(stones, listed),
    ensures
        bury(tombstones, stones) == tombstones.union_prefer_right(listed),
    decreases stones.len(),
{
    lemma_bury(tombstones, stones);
    let m = bury(tombstones, stones);
    if stones.len() == 0 {
        assert(m =~= tombstones.union_prefer_right(listed));
    } else {
        let rest = stones.drop_last();
        let last = stones.last();
        assert forall|i: int| 0 <= i < rest.len() implies (#[trigger] rest[i]) == stones[i]
            && rest[i].0 != last.0 by {
            assert(stones[i].0 != stones[stones.len() - 1].0);
        }
        let shorter = listed.remove(last.0);
        assert(lists_stones(rest, shorter)) by {
            assert forall|d: DotModel| #[trigger] shorter.contains_key(d) implies buries(rest, d) by {
                assert(buries(stones, d));
                let i = choose|i: int| 0 <= i < stones.len() && (#[trigger] stones[i]).0 == d;
                assert(i < rest.len());
                assert(rest[i].0 == d);
            }
        }
        lemma_bury_over(tombstones, rest, shorter);
        assert(stones[stones.len() - 1] == last);
        assert(m =~= tombstones.union_prefer_right(listed));
    }
}

proof fn lemma_pairs_push<E: View>(s: Seq<(E, Dot)>, p: (E, Dot))
    ensures
        pairs_of(s.push(p)) == pairs_of(s).push((p.0@, p.1@)),
{
    assert(pairs_of(s.push(p)) =~= pairs_of(s).push((p.0@, p.1@)));
}

proof fn lemma_stones_push(s: Seq<(Dot, Dot)>, p: (Dot, Dot))
    ensures
        stones_of(s.push(p)) == stones_of(s).push((p.0@, p.1@)),
{
    assert(stones_of(s.push(p)) =~= stones_of(s).push((p.0@, p.1@)));
}

/// Is the pair in the list?
fn has_pair<E: ElementCodec>(adds: &Vec<(E, Dot)>, elem: &E, dot: &Dot) -> (r: bool)
    ensures
        r == pairs_of(adds@).contains((elem@, dot@)),
{
    let mut i: usize = 0;
    while i < adds.len()
        invariant
            i <= adds.len(),
            forall|j: int| 0 <= j < i ==> #[trigger] pairs_of(adds@)[j] != (elem@, dot@),
        decreases adds.len() - i,
    {
        assert(pairs_of(adds@)[i as int] == (adds@[i as int].0@, adds@[i as int].1@));
        if adds[i].1.same(dot) && adds[i].0.same_elem(elem) {
            return true;
        }
        i += 1;
    }
    false
}

/// Put a pair on the list, unless it is there.
fn insert_pair<E: ElementCodec>(adds: &mut Vec<(E, Dot)>, elem: E, dot: Dot)
    requires
        pairs_of(old(adds)@).no_duplicates(),
    ensures
        pairs_of(final(adds)@).no_duplicates(),
        pairs_of(final(adds)@).to_set() == pairs_of(old(adds)@).to_set().insert((elem@, dot@)),
{
    let ghost before = adds@;
    if !has_pair(adds, &elem, &dot) {
        proof {
            lemma_pairs_push(before, (elem, dot));
            seqs::lemma_push_to_set(pairs_of(before), (elem@, dot@));
            seqs::lemma_push_no_duplicates(pairs_of(before), (elem@, dot@));
        }
        adds.push((elem, dot));
    } else {
        assert(pairs_of(before).to_set() =~= pairs_of(before).to_set().insert((elem@, dot@)));
    }
}

/// The place of the tombstone of `dot` on the list.
fn stone_index(tombstones: &Vec<(Dot, Dot)>, dot: &Dot) -> (r: Option<usize>)
    ensures
        match r {
            Some(i) => i < tombstones.len() && tombstones@[i as int].0@ == dot@ && buries(
                stones_of(tombstones@),
                dot@,
            ),
            None => !buries(stones_of(tombstones@), dot@),
        },
{
    let mut i: usize = 0;
    while i < tombstones.len()
        invariant
            i <= tombstones.len(),
            forall|j: int| 0 <= j < i ==> (#[trigger] stones_of(tombstones@)[j]).0 != dot@,
        decreases tombstones.len() - i,
    {
        assert(stones_of(tombstones@)[i as int] == (
            tombstones@[i as int].0@,
            tombstones@[i as int].1@,
        ));
        if tombstones[i].0.same(dot) {
            return Some(i);
        }
        i += 1;
    }
    None
}

/// Put a tombstone on the list, in place of the one that the dot has.
fn insert_stone(tombstones: &mut Vec<(Dot, Dot)>, add_dot: Dot, remove_dot: Dot)
    requires
        distinct_stones(stones_of(old(tombstones)@)),
    ensures
        distinct_stones(stones_of(final(tombstones)@)),
        bury(Map::empty(), stones_of(final(tombstones)@)) == bury(
            Map::empty(),
            stones_of(old(tombstones)@),
        ).insert(add_dot@, remove_dot@),
{
    let ghost before = stones_of(tombstones@);
    let ghost m = bury(Map::empty(), before).insert(add_dot@, remove_dot@);
    match stone_index(tombstones, &add_dot) {
        Some(i) => {
            let ghost stone = (add_dot@, remove_dot@);
            tombstones.set(i, (add_dot, remove_dot));
            proof {
                let after = stones_of(tombstones@);
                assert(after =~= before.update(i as int, stone));
                assert forall|j: int| 0 <= j < after.len() implies (#[trigger] after[j]).0
                    == before[j].0 by {}
                lemma_bury_lists(before);
                lemma_bury_lists(after);
                assert(distinct_stones(after));
                let n = bury(Map::empty(), after);
                lemma_bury(Map::empty(), after);
                lemma_bury(Map::empty(), before);
                assert forall|d: DotModel| buries(after, d) == buries(before, d) by {
                    if buries(after, d) {
                        let j = choose|j: int| 0 <= j < after.len() && (#[trigger] after[j]).0 == d;
                        assert(before[j].0 == d);
                    }
                    if buries(before, d) {
                        let j = choose|j: int|
                            0 <= j < before.len() && (#[trigger] before[j]).0 == d;
                        assert(after[j].0 == d);
                    }
                }
                assert forall|d: DotModel| n.contains_key(d) implies n[d] == m[d] by {
                    assert(buries(after, d));
                    let j = choose|j: int| 0 <= j < after.len() && (#[trigger] after[j]).0 == d;
                    assert(n[after[j].0] == after[j].1);
                    assert(bury(Map::empty(), before)[before[j].0] == before[j].1);
                    if j != i {
                        assert(after[j] == before[j]);
                        if i < j {
                            assert(after[i as int].0 != after[j].0);
                        } else {
                            assert(after[j].0 != after[i as int].0);
                        }
                    } else {
                        assert(after[i as int] == stone);
                    }
                }
                assert(n =~= m);
            }
        },
        None => {
            proof {
                lemma_stones_push(tombstones@, (add_dot, remove_dot));
                lemma_push_stone(before, (add_dot@, remove_dot@));
            }
            tombstones.push((add_dot, remove_dot));
        },
    }
}

/// Filtering a list of tombstones filters the map that it lists.
proof fn lemma_filter_stones(
    stones: Seq<(DotModel, DotModel)>,
    keep: spec_fn((DotModel, DotModel)) -> bool,
)
    requires
        distinct_stones(stones),
    ensures
        distinct_stones(stones.filter(keep)),
        bury(Map::empty(), stones.filter(keep)) == kept_stones(bury(Map::empty(), stones), keep),
    decreases stones.len(),
{
    reveal(Seq::filter);
    let m = bury(Map::empty(), stones);
    if stones.len() == 0 {
        assert(kept_stones(m, keep) =~= Map::empty());
    } else {
        let rest = stones.drop_last();
        let last = stones.last();
        assert forall|i: int, j: int| 0 <= i < j < rest.len() implies (#[trigger] rest[i]).0 != (
        #[trigger] rest[j]).0 by {
            assert(rest[i] == stones[i] && rest[j] == stones[j]);
        }
        lemma_filter_stones(rest, keep);
        let shorter = bury(Map::empty(), rest);
        lemma_bury(Map::empty(), rest);
        if shorter.contains_key(last.0) {
            let i = choose|i: int| 0 <= i < rest.len() && (#[trigger] rest[i]).0 == last.0;
            assert(stones[i].0 != stones[stones.len() - 1].0);
        }
        let filtered = rest.filter(keep);
        lemma_bury(Map::empty(), filtered);
        if keep(last) {
            assert(!bury(Map::empty(), filtered).contains_key(last.0));
            lemma_push_stone(filtered, last);
        }
        assert(m == shorter.insert(last.0, last.1));
        assert(bury(Map::empty(), stones.filter(keep)) =~= kept_stones(m, keep));
    }
}

/// Putting a new tombstone on a list.
proof fn lemma_push_stone(stones: Seq<(DotModel, DotModel)>, stone: (DotModel, DotModel))
    requires
        distinct_stones(stones),
        !buries(stones, stone.0),
    ensures
        distinct_stones(stones.push(stone)),
        bury(Map::empty(), stones.push(stone)) == bury(Map::empty(), stones).insert(
            stone.0,
            stone.1,
        ),
{
    let after = stones.push(stone);
    assert(after.drop_last() =~= stones);
    assert forall|j: int, k: int| 0 <= j < k < after.len() implies (#[trigger] after[j]).0 != (
    #[trigger] after[k]).0 by {
        assert(stones[j] == after[j]);
        if k < stones.len() {
            assert(stones[k] == after[k]);
        }
    }
}

/// The pairs that no dot of `stones` justifies.
fn without_buried<E: ElementCodec>(adds: &Vec<(E, Dot)>, stones: &Vec<(Dot, Dot)>) -> (r: Vec<
    (E, Dot),
>)
    ensures
        pairs_of(r@) == pairs_of(adds@).filter(
            |p: (E::V, DotModel)| !buries(stones_of(stones@), p.1),
        ),
{
    let ghost keep = |p: (E::V, DotModel)| !buries(stones_of(stones@), p.1);
    let ghost all = pairs_of(adds@);
    let mut r: Vec<(E, Dot)> = Vec::new();
    reveal(Seq::filter);
    assert(pairs_of(r@) =~= all.take(0).filter(keep));
    let mut i: usize = 0;
    while i < adds.len()
        invariant
            i <= adds.len(),
            all == pairs_of(adds@),
            keep == (|p: (E::V, DotModel)| !buries(stones_of(stones@), p.1)),
            pairs_of(r@) == all.take(i as int).filter(keep),
        decreases adds.len() - i,
    {
        proof {
            seqs::lemma_filter_step(all, i as int, keep);
        }
        if stone_index(stones, &adds[i].1).is_none() {
            let pair = (adds[i].0.clone_elem(), adds[i].1.clone());
            proof {
                lemma_pairs_push(r@, pair);
            }
            r.push(pair);
        }
        i += 1;
    }
    assert(all.take(i as int) =~= all);
    r
}

/// The pairs whose dot an observer with clock `known` has not seen.
fn unseen_pairs<E: ElementCodec>(adds: &Vec<(E, Dot)>, known: &VersionVector) -> (r: Vec<(E, Dot)>)
    ensures
        pairs_of(r@) == pairs_of(adds@).filter(
            |p: (E::V, DotModel)| !dots::covers(known@, p.1),
        ),
{
    let ghost keep = |p: (E::V, DotModel)| !dots::covers(known@, p.1);
    let ghost all = pairs_of(adds@);
    let mut r: Vec<(E, Dot)> = Vec::new();
    reveal(Seq::filter);
    assert(pairs_of(r@) =~= all.take(0).filter(keep));
    let mut i: usize = 0;
    while i < adds.len()
        invariant
            i <= adds.len(),
            all == pairs_of(adds@),
            keep == (|p: (E::V, DotModel)| !dots::covers(known@, p.1)),
            pairs_of(r@) == all.take(i as int).filter(keep),
        decreases adds.len() - i,
    {
        proof {
            seqs::lemma_filter_step(all, i as int, keep);
        }
        if adds[i].1.counter > known.counter(&adds[i].1.node_id) {
            let pair = (adds[i].0.clone_elem(), adds[i].1.clone());
            proof {
                lemma_pairs_push(r@, pair);
            }
            r.push(pair);
        }
        i += 1;
    }
    assert(all.take(i as int) =~= all);
    r
}

/// The tombstones whose removal an observer with clock `known` has not seen.
fn unseen_stones(stones: &Vec<(Dot, Dot)>, known: &VersionVector) -> (r: Vec<(Dot, Dot)>)
    ensures
        stones_of(r@) == stones_of(stones@).filter(
            |p: (DotModel, DotModel)| !dots::covers(known@, p.1),
        ),
{
    let ghost keep = |p: (DotModel, DotModel)| !dots::covers(known@, p.1);
    let ghost all = stones_of(stones@);
    let mut r: Vec<(Dot, Dot)> = Vec::new();
    reveal(Seq::filter);
    assert(stones_of(r@) =~= all.take(0).filter(keep));
    let mut i: usize = 0;
    while i < stones.len()
        invariant
            i <= stones.len(),
            all == stones_of(stones@),
            keep == (|p: (DotModel, DotModel)| !dots::covers(known@, p.1)),
            stones_of(r@) == all.take(i as int).filter(keep),
        decreases stones.len() - i,
    {
        proof {
            seqs::lemma_filter_step(all, i as int, keep);
        }
        if stones[i].1.counter > known.counter(&stones[i].1.node_id) {
            let pair = (stones[i].0.clone(), stones[i].1.clone());
            proof {
                lemma_stones_push(r@, pair);
            }
            r.push(pair);
        }
        i += 1;
    }
    assert(all.take(i as int) =~= all);
    r
}

/// The tombstones that are not stable under `frontier`.
fn unstable_stones(stones: &Vec<(Dot, Dot)>, frontier: &DotVersionVector) -> (r: Vec<(Dot, Dot)>)
    ensures
        stones_of(r@) == stones_of(stones@).filter(
            |p: (DotModel, DotModel)| !is_stable(dots::effective(frontier@), p.0, p.1),
        ),
{
    let ghost keep = |p: (DotModel, DotModel)|
        !is_stable(dots::effective(frontier@), p.0, p.1);
    let ghost all = stones_of(stones@);
    let mut r: Vec<(Dot, Dot)> = Vec::new();
    reveal(Seq::filter);
    assert(stones_of(r@) =~= all.take(0).filter(keep));
    let mut i: usize = 0;
    while i < stones.len()
        invariant
            i <= stones.len(),
            all == stones_of(stones@),
            keep == (|p: (DotModel, DotModel)|
                !is_stable(dots::effective(frontier@), p.0, p.1)),
            stones_of(r@) == all.take(i as int).filter(keep),
        decreases stones.len() - i,
    {
        proof {
            seqs::lemma_filter_step(all, i as int, keep);
        }
        if !(frontier.dominates_dot(&stones[i].0) && frontier.dominates_dot(&stones[i].1)) {
            let pair = (stones[i].0.clone(), stones[i].1.clone());
            proof {
                lemma_stones_push(r@, pair);
            }
            r.push(pair);
        }
        i += 1;
    }
    assert(all.take(i as int) =~= all);
    r
}

fn copy_pairs<E: ElementCodec>(adds: &Vec<(E, Dot)>) -> (r: Vec<(E, Dot)>)
    ensures
        pairs_of(r@) == pairs_of(adds@),
{
    let mut r: Vec<(E, Dot)> = Vec::new();
    let mut i: usize = 0;
    while i < adds.len()
        invariant
            i <= adds.len(),
            pairs_of(r@) =~= pairs_of(adds@).take(i as int),
        decreases adds.len() - i,
    {
        let pair = (adds[i].0.clone_elem(), adds[i].1.clone());
        proof {
            lemma_pairs_push(r@, pair);
        }
        r.push(pair);
        i += 1;
    }
    r
}

fn copy_stones(stones: &Vec<(Dot, Dot)>) -> (r: Vec<(Dot, Dot)>)
    ensures
        stones_of(r@) == stones_of(stones@),
{
    let mut r: Vec<(Dot, Dot)> = Vec::new();
    let mut i: usize = 0;
    while i < stones.len()
        invariant
            i <= stones.len(),
            stones_of(r@) =~= stones_of(stones@).take(i as int),
        decreases stones.len() - i,
    {
        let pair = (stones[i].0.clone(), stones[i].1.clone());
        proof {
            lemma_stones_push(r@, pair);
        }
        r.push(pair);
        i += 1;
    }
    r
}

/// Put a list of tombstones on another, in order.
fn bury_all(tombstones: &mut Vec<(Dot, Dot)>, stones: &Vec<(Dot, Dot)>)
    requires
        distinct_stones(stones_of(old(tombstones)@)),
    ensures
        distinct_stones(stones_of(final(tombstones)@)),
        bury(Map::empty(), stones_of(final(tombstones)@)) == bury(
            bury(Map::empty(), stones_of(old(tombstones)@)),
            stones_of(stones@),
        ),
{
    let ghost start = bury(Map::empty(), stones_of(tombstones@));
    let ghost all = stones_of(stones@);
    let mut i: usize = 0;
    while i < stones.len()
        invariant
            i <= stones.len(),
            all == stones_of(stones@),
            distinct_stones(stones_of(tombstones@)),
            bury(Map::empty(), stones_of(tombstones@)) == bury(start, all.take(i as int)),
        decreases stones.len() - i,
    {
        insert_stone(tombstones, stones[i].0.clone(), stones[i].1.clone());
        assert(all.take(i + 1).drop_last() =~= all.take(i as int));
        i += 1;
    }
    assert(all.take(i as int) =~= all);
}

// ── The set ─────────────────────────────────────────────────────────────

/// An observed-remove set.
pub struct OrSet<E: ElementCodec> {
    /// The elements with the dots that justify them.
    adds: Vec<(E, Dot)>,
    /// Dot of the addition, dot of the removal.
    tombstones: Vec<(Dot, Dot)>,
}

impl<E: ElementCodec> View for OrSet<E> {
    type V = SetModel<E::V>;

    closed spec fn view(&self) -> SetModel<E::V> {
        SetModel {
            adds: pairs_of(self.adds@).to_set(),
            tombstones: bury(Map::empty(), stones_of(self.tombstones@)),
        }
    }
}

impl<E: ElementCodec> OrSet<E> {
    #[verifier::type_invariant]
    spec fn listed_once(self) -> bool {
        pairs_of(self.adds@).no_duplicates() && distinct_stones(stones_of(self.tombstones@))
    }

    pub fn new() -> (r: Self)
        ensures
            r@ == empty_set::<E::V>(),
    {
        let r = OrSet { adds: Vec::new(), tombstones: Vec::new() };
        assert(r@ =~= empty_set::<E::V>());
        r
    }

    fn is_buried(&self, dot: &Dot) -> (r: bool)
        ensures
            r == self@.tombstones.contains_key(dot@),
    {
        proof {
            lemma_bury(Map::empty(), stones_of(self.tombstones@));
        }
        stone_index(&self.tombstones, dot).is_some()
    }

    /// Is the element in the set?
    pub fn contains(&self, elem: &E) -> (r: bool)
        ensures
            r == is_member(self@, elem@),
    {
        let ghost all = pairs_of(self.adds@);
        let mut i: usize = 0;
        while i < self.adds.len()
            invariant
                i <= self.adds.len(),
                all == pairs_of(self.adds@),
                forall|j: int|
                    0 <= j < i ==> (#[trigger] all[j]).0 != elem@
                        || self@.tombstones.contains_key(all[j].1),
            decreases self.adds.len() - i,
        {
            assert(all[i as int] == (self.adds@[i as int].0@, self.adds@[i as int].1@));
            if self.adds[i].0.same_elem(elem) && !self.is_buried(&self.adds[i].1) {
                assert(all.contains(all[i as int]));
                assert(self@.adds.contains((elem@, self.adds@[i as int].1@)));
                return true;
            }
            i += 1;
        }
        assert forall|d: DotModel| #[trigger] self@.adds.contains((elem@, d)) implies
            self@.tombstones.contains_key(d) by {
            let j = choose|j: int| 0 <= j < all.len() && all[j] == (elem@, d);
            assert(all[j].0 == elem@);
        }
        false
    }

    /// The elements of the set, each once, in no particular order.
    pub fn elements(&self) -> (r: Vec<E>)
        ensures
            r@.map_values(|e: E| e@).no_duplicates(),
            r@.map_values(|e: E| e@).to_set() == members(self@),
    {
        let ghost all = pairs_of(self.adds@);
        let ghost tombs = self@.tombstones;
        let mut r: Vec<E> = Vec::new();
        let ghost value = |e: E| e@;
        let mut i: usize = 0;
        while i < self.adds.len()
            invariant
                i <= self.adds.len(),
                all == pairs_of(self.adds@),
                tombs == self@.tombstones,
                value == (|e: E| e@),
                r@.map_values(value).no_duplicates(),
                forall|j: int|
                    0 <= j < i && !tombs.contains_key((#[trigger] all[j]).1)
                        ==> r@.map_values(value).contains(all[j].0),
                forall|k: int|
                    0 <= k < r@.len() ==> is_member(self@, (#[trigger] r@[k])@),
            decreases self.adds.len() - i,
        {
            assert(all[i as int] == (self.adds@[i as int].0@, self.adds@[i as int].1@));
            let ghost had = r@;
            if !self.is_buried(&self.adds[i].1) {
                let mut found = false;
                let mut k: usize = 0;
                while k < r.len()
                    invariant
                        i < self.adds.len(),
                        k <= r.len(),
                        r@ == had,
                        value == (|e: E| e@),
                        found ==> r@.map_values(value).contains(self.adds@[i as int].0@),
                        !found ==> forall|m: int|
                            0 <= m < k ==> (#[trigger] r@[m])@ != self.adds@[i as int].0@,
                    decreases r.len() - k,
                {
                    if r[k].same_elem(&self.adds[i].0) {
                        assert(r@.map_values(value)[k as int] == self.adds@[i as int].0@);
                        found = true;
                    }
                    k += 1;
                }
                if !found {
                    let e = self.adds[i].0.clone_elem();
                    proof {
                        assert(had.push(e).map_values(value) =~= had.map_values(value).push(e@));
                        if had.map_values(value).contains(e@) {
                            let m = choose|m: int|
                                0 <= m < had.len() && had.map_values(value)[m] == e@;
                            assert(had[m]@ == e@);
                        }
                        seqs::lemma_push_no_duplicates(had.map_values(value), e@);
                        assert(all.contains(all[i as int]));
                        assert(self@.adds.contains((e@, all[i as int].1)));
                        assert(is_member(self@, e@));
                    }
                    r.push(e);
                    proof {
                        assert(r@.map_values(value)[had.len() as int] == e@);
                        assert forall|j: int|
                            0 <= j < i && !tombs.contains_key((#[trigger] all[j]).1) implies
                            r@.map_values(value).contains(all[j].0) by {
                            let m = choose|m: int|
                                0 <= m < had.len() && had.map_values(value)[m] == all[j].0;
                            assert(r@.map_values(value)[m] == all[j].0);
                        }
                    }
                }
            }
            i += 1;
        }
        proof {
            let values = r@.map_values(value);
            assert forall|e: E::V| values.to_set().contains(e) == members(self@).contains(e) by {
                if values.contains(e) {
                    let k = choose|k: int| 0 <= k < values.len() && values[k] == e;
                    assert(is_member(self@, r@[k]@));
                }
                if is_member(self@, e) {
                    let d = choose|d: DotModel| #[trigger]
                        self@.adds.contains((e, d)) && !self@.tombstones.contains_key(d);
                    let j = choose|j: int| 0 <= j < all.len() && all[j] == (e, d);
                    assert(!tombs.contains_key(all[j].1));
                }
            }
            assert(values.to_set() =~= members(self@));
        }
        r
    }

    /// The number of elements.
    pub fn len(&self) -> (r: usize)
        ensures
            r == members(self@).len(),
    {
        let elems = self.elements();
        proof {
            elems@.map_values(|e: E| e@).unique_seq_to_set();
        }
        elems.len()
    }

    pub fn is_empty(&self) -> (r: bool)
        ensures
            r == (forall|e: E::V| !is_member(self@, e)),
    {
        let elems = self.elements();
        proof {
            let values = elems@.map_values(|e: E| e@);
            if elems@.len() > 0 {
                assert(values.contains(values[0]));
                assert(members(self@).contains(values[0]));
            } else {
                assert forall|e: E::V| !is_member(self@, e) by {
                    if is_member(self@, e) {
                        assert(values.to_set().contains(e));
                    }
                }
            }
        }
        elems.len() == 0
    }
}

impl<E: ElementCodec> Default for OrSet<E> {
    fn default() -> (r: Self)
        ensures
            r@ == empty_set::<E::V>(),
    {
        OrSet::new()
    }
}

/// Is `text` the printed elements of the set in order, separated by commas?
pub open spec fn prints_as<E: ElementCodec>(s: SetModel<E::V>, text: Seq<char>) -> bool {
    exists|elems: Seq<E::V>, lines: Seq<Seq<char>>|
        {
            &&& #[trigger] is_listing(s, elems)
            &&& #[trigger] texts::in_order(lines)
            &&& lines.to_multiset() == elems.map_values(|e: E::V| E::printed(e)).to_multiset()
            &&& text == texts::joined(lines, ", "@)
        }
}

/// The list holds each element of the set once, and nothing else.
pub open spec fn is_listing<V>(s: SetModel<V>, elems: Seq<V>) -> bool {
    elems.no_duplicates() && elems.to_set() == members(s)
}

impl<E: ElementCodec> DeltaCrdt for OrSet<E> {
    type Op = OrSetOp<E>;

    type Delta = OrSetDelta<E>;

    type DeltaMessage = ProtoOrSetDelta;

    type OpMessage = ProtoOrSetOp;

    open spec fn after_local(
        s: SetModel<E::V>,
        dot: DotModel,
        op: OpModel<E::V>,
    ) -> SetModel<E::V> {
        applied(s, dot, op)
    }

    open spec fn announces_local(
        s: SetModel<E::V>,
        dot: DotModel,
        op: OpModel<E::V>,
        dvv: DvvModel,
        d: DeltaModel<E::V>,
    ) -> bool {
        describes(d, local_change(s, dot, op)) && stamped(d, dvv)
    }

    open spec fn after_merge(s: SetModel<E::V>, d: DeltaModel<E::V>) -> SetModel<E::V> {
        merge_into(s, d)
    }

    open spec fn is_full_state(s: SetModel<E::V>, dvv: DvvModel, d: DeltaModel<E::V>) -> bool {
        describes(d, s) && stamped(d, dvv)
    }

    open spec fn is_delta_since(
        s: SetModel<E::V>,
        known: ClockModel,
        dvv: DvvModel,
        d: DeltaModel<E::V>,
    ) -> bool {
        describes(d, unseen(s, known)) && stamped(d, dvv)
    }

    open spec fn after_gc(s: SetModel<E::V>, frontier: DvvModel) -> SetModel<E::V> {
        collected(s, dots::effective(frontier))
    }

    open spec fn shows(s: SetModel<E::V>, text: Seq<char>) -> bool {
        prints_as::<E>(s, text)
    }

    open spec fn may_offer(s: SetModel<E::V>, choice: Option<Seq<char>>) -> bool {
        match choice {
            Some(text) => exists|e: E::V| #[trigger] is_member(s, e) && text == E::named(e),
            None => forall|e: E::V| !is_member(s, e),
        }
    }

    open spec fn delta_message(d: DeltaModel<E::V>) -> WireDelta {
        or_set_wire::delta_message::<E>(d)
    }

    open spec fn read_delta(m: WireDelta) -> Result<DeltaModel<E::V>, CodecError> {
        or_set_wire::read_delta::<E>(m)
    }

    open spec fn op_message(op: OpModel<E::V>) -> Option<OpModel<Seq<u8>>> {
        or_set_wire::op_message::<E>(op)
    }

    open spec fn read_op(m: Option<OpModel<Seq<u8>>>) -> Result<OpModel<E::V>, CodecError> {
        or_set_wire::read_op::<E>(m)
    }

    proof fn law_delta_round_trip(d: DeltaModel<E::V>) {
        or_set_wire::lemma_delta_round_trip::<E>(d);
    }

    proof fn law_op_round_trip(op: OpModel<E::V>) {
        match op {
            OpModel::Add(e) => E::law_decode_encode(e),
            OpModel::Remove(e) => E::law_decode_encode(e),
        }
    }

    fn apply_local(&mut self, dot: Dot, op: OrSetOp<E>, dvv: &DotVersionVector) -> (r: OrSetDelta<
        E,
    >) {
        proof {
            use_type_invariant(&*self);
        }
        let ghost start = self@;
        let mut adds: Vec<(E, Dot)> = Vec::new();
        let mut tombstones: Vec<(Dot, Dot)> = Vec::new();
        match op {
            OrSetOp::Add(elem) => {
                let ghost pair = (elem@, dot@);
                let mut held: Vec<(E, Dot)> = Vec::new();
                std::mem::swap(&mut held, &mut self.adds);
                insert_pair(&mut held, elem.clone_elem(), dot.clone());
                self.adds = held;
                proof {
                    lemma_pairs_push(adds@, (elem, dot));
                    assert(pairs_of(adds@) =~= Seq::empty());
                    assert(pairs_of(adds@).push(pair) =~= seq![pair]);
                    assert(seq![pair].to_set() =~= set![pair]) by {
                        assert(seq![pair][0] == pair);
                    }
                    assert(stones_of(tombstones@) =~= Seq::empty());
                    assert(self@ =~= applied(start, dot@, OpModel::Add(elem@)));
                }
                adds.push((elem, dot));
            },
            OrSetOp::Remove(elem) => {
                let ghost all = pairs_of(self.adds@);
                let ghost keep = |p: (E::V, DotModel)| p.0 != elem@;
                let mut held: Vec<(E, Dot)> = Vec::new();
                reveal(Seq::filter);
                assert(pairs_of(held@) =~= all.take(0).filter(keep));
                let mut i: usize = 0;
                while i < self.adds.len()
                    invariant
                        i <= self.adds.len(),
                        all == pairs_of(self.adds@),
                        all.no_duplicates(),
                        keep == (|p: (E::V, DotModel)| p.0 != elem@),
                        pairs_of(held@) == all.take(i as int).filter(keep),
                        distinct_stones(stones_of(tombstones@)),
                        forall|k: int|
                            0 <= k < tombstones@.len() ==> (#[trigger] stones_of(
                                tombstones@,
                            )[k]).1 == dot@ && all.take(i as int).contains(
                                (elem@, stones_of(tombstones@)[k].0),
                            ),
                        forall|j: int|
                            0 <= j < i && (#[trigger] all[j]).0 == elem@ ==> buries(
                                stones_of(tombstones@),
                                all[j].1,
                            ),
                    decreases self.adds.len() - i,
                {
                    let ghost had = stones_of(tombstones@);
                    proof {
                        seqs::lemma_filter_step(all, i as int, keep);
                        assert(all.take(i + 1) =~= all.take(i as int).push(all[i as int]));
                        assert forall|p: (E::V, DotModel)| #[trigger]
                            all.take(i as int).contains(p) implies all.take(i + 1).contains(p) by {
                            let j = choose|j: int| 0 <= j < i && all.take(i as int)[j] == p;
                            assert(all.take(i + 1)[j] == p);
                        }
                    }
                    if self.adds[i].0.same_elem(&elem) {
                        let stone = (self.adds[i].1.clone(), dot.clone());
                        proof {
                            lemma_stones_push(tombstones@, stone);
                            if buries(had, stone.0@) {
                                let k = choose|k: int|
                                    0 <= k < had.len() && (#[trigger] had[k]).0 == stone.0@;
                                assert(all.take(i as int).contains((elem@, had[k].0)));
                                let j = choose|j: int|
                                    0 <= j < i && all.take(i as int)[j] == (elem@, had[k].0);
                                assert(all[j] == all[i as int]);
                            }
                            lemma_push_stone(had, (stone.0@, stone.1@));
                            assert(all.take(i + 1)[i as int] == (elem@, stone.0@));
                        }
                        tombstones.push(stone);
                        proof {
                            let now = stones_of(tombstones@);
                            assert(now[had.len() as int].0 == all[i as int].1);
                            assert forall|j: int|
                                0 <= j < i && (#[trigger] all[j]).0 == elem@ implies buries(
                                now,
                                all[j].1,
                            ) by {
                                let k = choose|k: int|
                                    0 <= k < had.len() && (#[trigger] had[k]).0 == all[j].1;
                                assert(now[k].0 == all[j].1);
                            }
                        }
                    } else {
                        let pair = (self.adds[i].0.clone_elem(), self.adds[i].1.clone());
                        proof {
                            lemma_pairs_push(held@, pair);
                        }
                        held.push(pair);
                    }
                    i += 1;
                }
                let mut buried: Vec<(Dot, Dot)> = Vec::new();
                std::mem::swap(&mut buried, &mut self.tombstones);
                bury_all(&mut buried, &tombstones);
                proof {
                    assert(all.take(i as int) =~= all);
                    seqs::lemma_filter_set(all, keep);
                    let change = local_change(start, dot@, OpModel::Remove(elem@));
                    assert(lists_stones(stones_of(tombstones@), change.tombstones)) by {
                        assert forall|d: DotModel| #[trigger]
                            change.tombstones.contains_key(d) implies buries(
                            stones_of(tombstones@),
                            d,
                        ) by {
                            let j = choose|j: int| 0 <= j < all.len() && all[j] == (elem@, d);
                            assert(all[j].0 == elem@);
                        }
                        assert forall|k: int| 0 <= k < tombstones@.len() implies
                            change.tombstones.contains_key((#[trigger] stones_of(tombstones@)[k]).0)
                            && change.tombstones[stones_of(tombstones@)[k].0] == stones_of(
                            tombstones@,
                        )[k].1 by {
                            assert(all.contains((elem@, stones_of(tombstones@)[k].0)));
                        }
                    }
                    lemma_bury_over(start.tombstones, stones_of(tombstones@), change.tombstones);
                    assert(pairs_of(adds@).to_set() =~= Set::empty());
                }
                self.tombstones = buried;
                self.adds = held;
                assert(self@ =~= applied(start, dot@, OpModel::Remove(elem@)));
            },
        }
        OrSetDelta {
            adds,
            tombstones,
            context: dvv.effective_map(),
            dot_node: dvv.dot.node_id.clone(),
            dot_counter: dvv.dot.counter,
        }
    }

    fn merge_delta(&mut self, delta: &OrSetDelta<E>) {
        proof {
            use_type_invariant(&*self);
        }
        let ghost start = self@;
        let ghost stones = stones_of(delta.tombstones@);
        let ghost fresh = pairs_of(delta.adds@);
        let ghost survives = |p: (E::V, DotModel)| !buries(stones, p.1);
        proof {
            seqs::lemma_filter_set(pairs_of(self.adds@), survives);
        }
        let mut tombstones: Vec<(Dot, Dot)> = Vec::new();
        std::mem::swap(&mut tombstones, &mut self.tombstones);
        bury_all(&mut tombstones, &delta.tombstones);
        let ghost buried = bury(start.tombstones, stones);
        let mut adds = without_buried(&self.adds, &delta.tombstones);
        let mut i: usize = 0;
        assert(pairs_of(adds@).to_set() =~= start.adds.filter(survives).union(
            fresh.take(0).to_set().filter(|p: (E::V, DotModel)| !buried.contains_key(p.1)),
        ));
        while i < delta.adds.len()
            invariant
                i <= delta.adds.len(),
                fresh == pairs_of(delta.adds@),
                distinct_stones(stones_of(tombstones@)),
                buried == bury(Map::empty(), stones_of(tombstones@)),
                pairs_of(adds@).no_duplicates(),
                pairs_of(adds@).to_set() == start.adds.filter(survives).union(
                    fresh.take(i as int).to_set().filter(
                        |p: (E::V, DotModel)| !buried.contains_key(p.1),
                    ),
                ),
            decreases delta.adds.len() - i,
        {
            let ghost p = fresh[i as int];
            let ghost before = pairs_of(adds@).to_set();
            proof {
                lemma_bury(Map::empty(), stones_of(tombstones@));
                assert(fresh.take(i + 1) =~= fresh.take(i as int).push(p));
                seqs::lemma_push_to_set(fresh.take(i as int), p);
            }
            if stone_index(&tombstones, &delta.adds[i].1).is_none() {
                insert_pair(&mut adds, delta.adds[i].0.clone_elem(), delta.adds[i].1.clone());
            }
            assert(pairs_of(adds@).to_set() =~= start.adds.filter(survives).union(
                fresh.take(i + 1).to_set().filter(
                    |p: (E::V, DotModel)| !buried.contains_key(p.1),
                ),
            ));
            i += 1;
        }
        assert(fresh.take(i as int) =~= fresh);
        self.tombstones = tombstones;
        self.adds = adds;
        assert(self@ =~= merge_into(start, delta@));
    }

    fn full_state(&self, dvv: &DotVersionVector) -> (r: OrSetDelta<E>) {
        proof {
            use_type_invariant(self);
            lemma_bury_lists(stones_of(self.tombstones@));
        }
        OrSetDelta {
            adds: copy_pairs(&self.adds),
            tombstones: copy_stones(&self.tombstones),
            context: dvv.effective_map(),
            dot_node: dvv.dot.node_id.clone(),
            dot_counter: dvv.dot.counter,
        }
    }

    fn delta_since(&self, remote_knowledge: &VersionVector, dvv: &DotVersionVector) -> (r:
        OrSetDelta<E>) {
        let adds = unseen_pairs(&self.adds, remote_knowledge);
        let tombstones = unseen_stones(&self.tombstones, remote_knowledge);
        proof {
            use_type_invariant(self);
            seqs::lemma_filter_set(
                pairs_of(self.adds@),
                |p: (E::V, DotModel)| !dots::covers(remote_knowledge@, p.1),
            );
            lemma_filter_stones(
                stones_of(self.tombstones@),
                |p: (DotModel, DotModel)| !dots::covers(remote_knowledge@, p.1),
            );
            lemma_bury_lists(stones_of(tombstones@));
        }
        OrSetDelta {
            adds,
            tombstones,
            context: dvv.effective_map(),
            dot_node: dvv.dot.node_id.clone(),
            dot_counter: dvv.dot.counter,
        }
    }

    fn perform_gc(&mut self, frontier: &DotVersionVector) {
        let tombstones = unstable_stones(&self.tombstones, frontier);
        proof {
            use_type_invariant(&*self);
            lemma_filter_stones(
                stones_of(self.tombstones@),
                |p: (DotModel, DotModel)| !is_stable(dots::effective(frontier@), p.0, p.1),
            );
        }
        self.tombstones = tombstones;
    }

    fn print_state(&self) -> (r: String) {
        let elems = self.elements();
        let ghost values = elems@.map_values(|e: E| e@);
        let mut lines: Vec<String> = Vec::new();
        let mut i: usize = 0;
        while i < elems.len()
            invariant
                i <= elems.len(),
                values == elems@.map_values(|e: E| e@),
                texts::texts_of(lines@) =~= values.take(i as int).map_values(
                    |e: E::V| E::printed(e),
                ),
            decreases elems.len() - i,
        {
            let line = elems[i].print_elem();
            assert(texts::texts_of(lines@.push(line)) =~= texts::texts_of(lines@).push(line@));
            lines.push(line);
            i += 1;
        }
        assert(values.take(i as int) =~= values);
        let sorted = sort_texts(&lines);
        let r = join_texts(&sorted, ", ");
        assert(is_listing(self@, values));
        assert(texts::in_order(texts::texts_of(sorted@)));
        r
    }

    fn get_random_element(&self) -> (r: Option<String>) {
        let elems = self.elements();
        let ghost values = elems@.map_values(|e: E| e@);
        if elems.len() == 0 {
            assert forall|e: E::V| !is_member(self@, e) by {
                if is_member(self@, e) {
                    assert(members(self@).contains(e));
                    assert(values.to_set().contains(e));
                }
            }
            return None;
        }
        assert(values[0] == elems@[0]@);
        assert(values.to_set().contains(values[0]));
        assert(is_member(self@, elems@[0]@));
        Some(elems[0].name_elem())
    }

    fn encode_delta(delta: &OrSetDelta<E>) -> (r: ProtoOrSetDelta) {
        or_set_wire::write_delta(delta)
    }

    fn decode_delta(message: &ProtoOrSetDelta) -> (r: Result<OrSetDelta<E>, CodecError>) {
        or_set_wire::parse_delta(message)
    }

    fn encode_op(op: &OrSetOp<E>) -> (r: ProtoOrSetOp) {
        or_set_wire::write_op(op)
    }

    fn decode_op(message: &ProtoOrSetOp) -> (r: Result<OrSetOp<E>, CodecError>) {
        or_set_wire::parse_op(message)
    }
}

} // verus!
