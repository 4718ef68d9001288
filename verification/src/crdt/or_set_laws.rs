//! What holds of observed-remove sets across operations.

use vstd::prelude::*;

use crate::common::ClockModel;
use crate::crdt::or_set as sets;
use crate::crdt::or_set::{DeltaModel, OpModel, OrSet, SetModel};
use crate::crdt::{DeltaCrdt, ElementCodec};
use crate::logical_clocks::dot_version_vector as dots;
use crate::logical_clocks::dot_version_vector::{DotModel, DvvModel};
use crate::logical_clocks::version_vector as clocks;

verus! {

/// No dot justifies two elements.
pub open spec fn unique_dots<V>(s: SetModel<V>) -> bool {
    forall|p: (V, DotModel), q: (V, DotModel)| #[trigger]
        s.adds.contains(p) && #[trigger] s.adds.contains(q) && p.1 == q.1 ==> p.0 == q.0
}

/// Every event in the state is covered by the clock.
pub open spec fn known_by<V>(s: SetModel<V>, clock: ClockModel) -> bool {
    &&& forall|p: (V, DotModel)| #[trigger] s.adds.contains(p) ==> dots::covers(clock, p.1)
    &&& forall|d: DotModel| #[trigger]
        s.tombstones.contains_key(d) ==> dots::covers(clock, d) && dots::covers(
            clock,
            s.tombstones[d],
        )
}

/// Every event in the delta is covered by the clock that it carries.
pub open spec fn self_contained<V>(d: DeltaModel<V>) -> bool {
    &&& forall|i: int|
        0 <= i < d.adds.len() ==> dots::covers(d.context, (#[trigger] d.adds[i]).1)
    &&& forall|i: int|
        0 <= i < d.tombstones.len() ==> dots::covers(d.context, (#[trigger] d.tombstones[i]).0)
            && dots::covers(d.context, d.tombstones[i].1)
}

/// The state holds no event numbered zero.
pub open spec fn counts_from_one<V>(s: SetModel<V>) -> bool {
    &&& forall|p: (V, DotModel)| #[trigger] s.adds.contains(p) ==> p.1.counter >= 1
    &&& forall|d: DotModel| #[trigger]
        s.tombstones.contains_key(d) ==> s.tombstones[d].counter >= 1
}

/// The state `r` holds, of what `s` holds, all that the clock `known` covers:
/// an addition is there or already buried, and a removal is recorded.
pub open spec fn caught_up<V>(r: SetModel<V>, s: SetModel<V>, known: ClockModel) -> bool {
    &&& forall|p: (V, DotModel)| #[trigger]
        s.adds.contains(p) && dots::covers(known, p.1) ==> r.adds.contains(p)
            || r.tombstones.contains_key(p.1)
    &&& forall|d: DotModel| #[trigger]
        s.tombstones.contains_key(d) && dots::covers(known, s.tombstones[d])
            ==> r.tombstones.contains_key(d) && r.tombstones[d] == s.tombstones[d]
}

/// What a list says of a dot that it buries does not depend on what was
/// there before.
proof fn lemma_bury_value(
    a: Map<DotModel, DotModel>,
    b: Map<DotModel, DotModel>,
    stones: Seq<(DotModel, DotModel)>,
    d: DotModel,
)
    requires
        sets::buries(stones, d),
    ensures
        sets::bury(a, stones)[d] == sets::bury(b, stones)[d],
    decreases stones.len(),
{
    let rest = stones.drop_last();
    if stones.last().0 != d {
        let i = choose|i: int| 0 <= i < stones.len() && (#[trigger] stones[i]).0 == d;
        assert(rest[i].0 == d);
        lemma_bury_value(a, b, rest, d);
    }
}

/// An added element is in the set, unless its dot is buried already; no other
/// element comes or goes.
pub proof fn law_add_makes_member<V>(s: SetModel<V>, dot: DotModel, e: V, other: V)
    requires
        !s.tombstones.contains_key(dot),
    ensures
        sets::is_member(sets::applied(s, dot, OpModel::Add(e)), e),
        other != e ==> sets::is_member(sets::applied(s, dot, OpModel::Add(e)), other)
            == sets::is_member(s, other),
{
    let t = sets::applied(s, dot, OpModel::Add(e));
    assert(t.adds.contains((e, dot)));
    if other != e {
        if sets::is_member(s, other) {
            let d = choose|d: DotModel| #[trigger]
                s.adds.contains((other, d)) && !s.tombstones.contains_key(d);
            assert(t.adds.contains((other, d)));
        }
        if sets::is_member(t, other) {
            let d = choose|d: DotModel| #[trigger]
                t.adds.contains((other, d)) && !t.tombstones.contains_key(d);
            assert(s.adds.contains((other, d)));
        }
    }
}

/// A removed element is not in the set; no other element comes or goes.
pub proof fn law_remove_clears<V>(s: SetModel<V>, dot: DotModel, e: V, other: V)
    requires
        unique_dots(s),
    ensures
        !sets::is_member(sets::applied(s, dot, OpModel::Remove(e)), e),
        other != e ==> sets::is_member(sets::applied(s, dot, OpModel::Remove(e)), other)
            == sets::is_member(s, other),
{
    let t = sets::applied(s, dot, OpModel::Remove(e));
    if other != e {
        if sets::is_member(s, other) {
            let d = choose|d: DotModel| #[trigger]
                s.adds.contains((other, d)) && !s.tombstones.contains_key(d);
            assert(t.adds.contains((other, d)));
            assert(!s.adds.contains((e, d)));
            assert(!t.tombstones.contains_key(d));
        }
        if sets::is_member(t, other) {
            let d = choose|d: DotModel| #[trigger]
                t.adds.contains((other, d)) && !t.tombstones.contains_key(d);
            assert(s.adds.contains((other, d)));
        }
    }
}

/// A local operation with a dot that the state does not know keeps dots from
/// being shared, and justifying dots from being buried.
pub proof fn law_local_keeps_separation<V>(
    s: SetModel<V>,
    dot: DotModel,
    op: OpModel<V>,
)
    requires
        sets::separated(s),
        unique_dots(s),
        !s.tombstones.contains_key(dot),
        forall|p: (V, DotModel)| #[trigger] s.adds.contains(p) ==> p.1 != dot,
    ensures
        sets::separated(sets::applied(s, dot, op)),
        unique_dots(sets::applied(s, dot, op)),
{
}

/// Merging keeps justifying dots from being buried, whatever the delta says.
pub proof fn law_merge_keeps_separation<V>(s: SetModel<V>, d: DeltaModel<V>)
    requires
        sets::separated(s),
    ensures
        sets::separated(sets::merge_into(s, d)),
{
    sets::lemma_bury(s.tombstones, d.tombstones);
}

/// Merging a delta a second time changes nothing.
pub proof fn law_merge_idempotent<V>(s: SetModel<V>, d: DeltaModel<V>)
    ensures
        sets::merge_into(sets::merge_into(s, d), d) == sets::merge_into(s, d),
{
    let once = sets::merge_into(s, d);
    let twice = sets::merge_into(once, d);
    sets::lemma_bury(s.tombstones, d.tombstones);
    sets::lemma_bury(once.tombstones, d.tombstones);
    assert forall|x: DotModel| once.tombstones.contains_key(x) implies once.tombstones[x]
        == twice.tombstones[x] by {
        if sets::buries(d.tombstones, x) {
            lemma_bury_value(s.tombstones, once.tombstones, d.tombstones, x);
        }
    }
    assert(twice.tombstones =~= once.tombstones);
    assert(twice.adds =~= once.adds);
}

/// The order in which two deltas are merged does not matter for the elements,
/// nor for which dots are buried; where the two agree on the removal of each
/// dot that both bury, it does not matter at all.
pub proof fn law_merge_order_independent<V>(s: SetModel<V>, d: DeltaModel<V>, e: DeltaModel<V>)
    ensures
        sets::merge_into(sets::merge_into(s, d), e).adds == sets::merge_into(
            sets::merge_into(s, e),
            d,
        ).adds,
        sets::merge_into(sets::merge_into(s, d), e).tombstones.dom() == sets::merge_into(
            sets::merge_into(s, e),
            d,
        ).tombstones.dom(),
        (forall|x: DotModel|
            sets::buries(d.tombstones, x) && sets::buries(e.tombstones, x)
                ==> #[trigger] sets::bury(Map::empty(), d.tombstones)[x] == sets::bury(
                Map::empty(),
                e.tombstones,
            )[x]) ==> sets::merge_into(sets::merge_into(s, d), e) == sets::merge_into(
            sets::merge_into(s, e),
            d,
        ),
{
    let sd = sets::merge_into(s, d);
    let se = sets::merge_into(s, e);
    let sde = sets::merge_into(sd, e);
    let sed = sets::merge_into(se, d);
    sets::lemma_bury(s.tombstones, d.tombstones);
    sets::lemma_bury(s.tombstones, e.tombstones);
    sets::lemma_bury(sd.tombstones, e.tombstones);
    sets::lemma_bury(se.tombstones, d.tombstones);
    assert(sde.adds =~= sed.adds);
    assert forall|x: DotModel| sde.tombstones.contains_key(x) == sed.tombstones.contains_key(x) by {}
    assert(sde.tombstones.dom() =~= sed.tombstones.dom());
    if forall|x: DotModel|
        sets::buries(d.tombstones, x) && sets::buries(e.tombstones, x) ==> #[trigger] sets::bury(
            Map::empty(),
            d.tombstones,
        )[x] == sets::bury(Map::empty(), e.tombstones)[x] {
        assert forall|x: DotModel| sde.tombstones.contains_key(x) implies sde.tombstones[x]
            == sed.tombstones[x] by {
            let none = Map::<DotModel, DotModel>::empty();
            if sets::buries(d.tombstones, x) {
                lemma_bury_value(s.tombstones, none, d.tombstones, x);
                lemma_bury_value(se.tombstones, none, d.tombstones, x);
            }
            if sets::buries(e.tombstones, x) {
                lemma_bury_value(s.tombstones, none, e.tombstones, x);
                lemma_bury_value(sd.tombstones, none, e.tombstones, x);
            }
            assert(sets::bury(none, d.tombstones)[x] == sets::bury(none, d.tombstones)[x]);
        }
        assert(sde.tombstones =~= sed.tombstones);
    }
}

/// The delta of a local operation, merged into the state that it was made
/// from, gives the state after the operation.
pub proof fn law_delta_replays_operation<V>(
    s: SetModel<V>,
    dot: DotModel,
    op: OpModel<V>,
    d: DeltaModel<V>,
)
    requires
        unique_dots(s),
        !s.tombstones.contains_key(dot),
        sets::describes(d, sets::local_change(s, dot, op)),
    ensures
        sets::merge_into(s, d) == sets::applied(s, dot, op),
{
    let change = sets::local_change(s, dot, op);
    let t = sets::merge_into(s, d);
    let after = sets::applied(s, dot, op);
    sets::lemma_bury(s.tombstones, d.tombstones);
    sets::lemma_bury_over(s.tombstones, d.tombstones, change.tombstones);
    lemma_buries_listed(d.tombstones, change.tombstones);
    lemma_contains_listed(d.adds, change.adds);
    assert(t.tombstones =~= after.tombstones);
    assert forall|p: (V, DotModel)| t.adds.contains(p) == after.adds.contains(p) by {
        match op {
            OpModel::Add(e) => {},
            OpModel::Remove(e) => {
                if s.adds.contains(p) {
                    if p.0 == e {
                        assert(s.adds.contains((e, p.1)));
                    } else if s.adds.contains((e, p.1)) {
                        assert(p.0 == e);
                    }
                }
            },
        }
    }
    assert(t.adds =~= after.adds);
}

proof fn lemma_buries_listed(
    stones: Seq<(DotModel, DotModel)>,
    tombstones: Map<DotModel, DotModel>,
)
    requires
        sets::lists_stones(stones, tombstones),
    ensures
        forall|x: DotModel| #[trigger] sets::buries(stones, x) == tombstones.contains_key(x),
{
    assert forall|x: DotModel| #[trigger] sets::buries(stones, x) implies tombstones.contains_key(
        x,
    ) by {
        let i = choose|i: int| 0 <= i < stones.len() && (#[trigger] stones[i]).0 == x;
        assert(tombstones.contains_key(stones[i].0));
    }
}

proof fn lemma_contains_listed<V>(pairs: Seq<(V, DotModel)>, adds: Set<(V, DotModel)>)
    requires
        sets::lists_pairs(pairs, adds),
    ensures
        forall|p: (V, DotModel)| #[trigger] pairs.contains(p) == adds.contains(p),
{
    assert forall|p: (V, DotModel)| #[trigger] pairs.contains(p) == adds.contains(p) by {
        assert(pairs.to_set().contains(p) == adds.contains(p));
    }
}

/// What merging a delta does, told by the state that the delta describes.
proof fn lemma_merge_described<V>(r: SetModel<V>, d: DeltaModel<V>, s: SetModel<V>)
    requires
        sets::describes(d, s),
    ensures
        sets::merge_into(r, d).tombstones == r.tombstones.union_prefer_right(s.tombstones),
        forall|p: (V, DotModel)| #[trigger]
            sets::merge_into(r, d).adds.contains(p) <==> {
                ||| r.adds.contains(p) && !s.tombstones.contains_key(p.1)
                ||| s.adds.contains(p) && !s.tombstones.contains_key(p.1)
                    && !r.tombstones.contains_key(p.1)
            },
{
    sets::lemma_bury(r.tombstones, d.tombstones);
    sets::lemma_bury_over(r.tombstones, d.tombstones, s.tombstones);
    lemma_buries_listed(d.tombstones, s.tombstones);
    lemma_contains_listed(d.adds, s.adds);
}

/// A replica that starts empty and merges a full state has that state.
pub proof fn law_full_state_sync<V>(s: SetModel<V>, d: DeltaModel<V>)
    requires
        sets::separated(s),
        sets::describes(d, s),
    ensures
        sets::merge_into(sets::empty_set(), d) == s,
{
    let t = sets::merge_into(sets::empty_set(), d);
    lemma_merge_described(sets::empty_set(), d, s);
    assert(t.tombstones =~= s.tombstones);
    assert(t.adds =~= s.adds);
}

/// Two replicas that merge each other's full state hold the same elements
/// and bury the same dots.
pub proof fn law_exchange_converges<V>(
    a: SetModel<V>,
    b: SetModel<V>,
    from_a: DeltaModel<V>,
    from_b: DeltaModel<V>,
)
    requires
        sets::separated(a),
        sets::separated(b),
        sets::describes(from_a, a),
        sets::describes(from_b, b),
    ensures
        sets::merge_into(a, from_b).adds == sets::merge_into(b, from_a).adds,
        sets::merge_into(a, from_b).tombstones.dom() == sets::merge_into(b, from_a).tombstones.dom(),
{
    let x = sets::merge_into(a, from_b);
    let y = sets::merge_into(b, from_a);
    lemma_merge_described(a, from_b, b);
    lemma_merge_described(b, from_a, a);
    assert(x.adds =~= y.adds);
    assert(x.tombstones.dom() =~= y.tombstones.dom());
}

/// To a peer that knows nothing, everything is unseen.
pub proof fn law_unseen_by_newcomer<V>(s: SetModel<V>)
    requires
        counts_from_one(s),
    ensures
        sets::unseen(s, Map::empty()) == s,
{
    assert(sets::unseen(s, Map::empty()) =~= s);
}

/// To a peer whose clock covers every event in the state, nothing is unseen.
pub proof fn law_unseen_by_up_to_date_peer<V>(s: SetModel<V>, known: ClockModel)
    requires
        known_by(s, known),
    ensures
        sets::unseen(s, known) == sets::empty_set::<V>(),
{
    assert(sets::unseen(s, known) =~= sets::empty_set::<V>());
}

/// A peer that has all that its clock covers gets from the unseen part of a
/// state what it would get from the whole state.
pub proof fn law_pull_converges<V>(
    r: SetModel<V>,
    s: SetModel<V>,
    known: ClockModel,
    part: DeltaModel<V>,
    whole: DeltaModel<V>,
)
    requires
        sets::separated(r),
        caught_up(r, s, known),
        sets::describes(part, sets::unseen(s, known)),
        sets::describes(whole, s),
    ensures
        sets::merge_into(r, part) == sets::merge_into(r, whole),
{
    let u = sets::unseen(s, known);
    let x = sets::merge_into(r, part);
    let y = sets::merge_into(r, whole);
    lemma_merge_described(r, part, u);
    lemma_merge_described(r, whole, s);
    assert forall|d: DotModel| x.tombstones.contains_key(d) == y.tombstones.contains_key(d) by {
        if s.tombstones.contains_key(d) && !u.tombstones.contains_key(d) {
            assert(r.tombstones.contains_key(d));
        }
    }
    assert forall|d: DotModel| x.tombstones.contains_key(d) implies x.tombstones[d]
        == y.tombstones[d] by {
        if s.tombstones.contains_key(d) && !u.tombstones.contains_key(d) {
            assert(r.tombstones[d] == s.tombstones[d]);
        }
    }
    assert(x.tombstones =~= y.tombstones);
    assert forall|p: (V, DotModel)| x.adds.contains(p) == y.adds.contains(p) by {
        if s.tombstones.contains_key(p.1) && !u.tombstones.contains_key(p.1) {
            assert(r.tombstones.contains_key(p.1));
        }
        if s.adds.contains(p) && dots::covers(known, p.1) {
            assert(r.adds.contains(p) || r.tombstones.contains_key(p.1));
        }
    }
    assert(x.adds =~= y.adds);
}

/// An addition that a remover had not seen survives its removal: `e` stays
/// where the delta of the removal arrives, and comes back where the delta of
/// the addition arrives after it.
pub proof fn law_concurrent_add_wins<V>(
    adder: SetModel<V>,
    remover: SetModel<V>,
    e: V,
    add_dot: DotModel,
    remove_dot: DotModel,
    removal: DeltaModel<V>,
    addition: DeltaModel<V>,
)
    requires
        adder.adds.contains((e, add_dot)),
        !adder.tombstones.contains_key(add_dot),
        !remover.adds.contains((e, add_dot)),
        !remover.tombstones.contains_key(add_dot),
        sets::describes(removal, sets::local_change(remover, remove_dot, OpModel::Remove(e))),
        addition.adds.contains((e, add_dot)),
        addition.tombstones.len() == 0,
    ensures
        sets::is_member(sets::merge_into(adder, removal), e),
        sets::is_member(
            sets::merge_into(sets::applied(remover, remove_dot, OpModel::Remove(e)), addition),
            e,
        ),
{
    let change = sets::local_change(remover, remove_dot, OpModel::Remove(e));
    lemma_merge_described(adder, removal, change);
    let x = sets::merge_into(adder, removal);
    assert(x.adds.contains((e, add_dot)) && !x.tombstones.contains_key(add_dot));
    let y = sets::merge_into(sets::applied(remover, remove_dot, OpModel::Remove(e)), addition);
    sets::lemma_bury(
        sets::applied(remover, remove_dot, OpModel::Remove(e)).tombstones,
        addition.tombstones,
    );
    assert(y.adds.contains((e, add_dot)) && !y.tombstones.contains_key(add_dot));
}

/// A replica's clock covers its state: a local operation keeps it so.
pub proof fn law_local_stays_known<V>(s: SetModel<V>, v: DvvModel, op: OpModel<V>)
    requires
        clocks::counter_of(dots::effective(v), v.dot.node_id) < u64::MAX,
        known_by(s, dots::effective(v)),
    ensures
        known_by(
            sets::applied(s, dots::after_event(v).dot, op),
            dots::effective(dots::after_event(v)),
        ),
{
    let before = dots::effective(v);
    let after = dots::effective(dots::after_event(v));
    dots::law_event_is_fresh(v, v.dot.node_id);
    assert forall|d: DotModel| dots::covers(before, d) implies #[trigger] dots::covers(after, d) by {
        dots::law_event_is_fresh(v, d.node_id);
    }
}

/// A replica's clock covers its state: merging a delta that its own clock
/// covers, and then that clock, keeps it so.
pub proof fn law_merge_stays_known<V>(s: SetModel<V>, clock: ClockModel, d: DeltaModel<V>)
    requires
        known_by(s, clock),
        self_contained(d),
    ensures
        known_by(sets::merge_into(s, d), clocks::join(clock, d.context)),
{
    let both = clocks::join(clock, d.context);
    let t = sets::merge_into(s, d);
    assert forall|x: DotModel|
        dots::covers(clock, x) || dots::covers(d.context, x) implies #[trigger] dots::covers(
        both,
        x,
    ) by {}
    assert forall|p: (V, DotModel)| #[trigger] t.adds.contains(p) implies dots::covers(
        both,
        p.1,
    ) by {
        if d.adds.contains(p) {
            let i = choose|i: int| 0 <= i < d.adds.len() && d.adds[i] == p;
            assert(dots::covers(d.context, d.adds[i].1));
        }
    }
    lemma_bury_known(s.tombstones, d.tombstones, clock, d.context);
}

proof fn lemma_bury_known(
    tombstones: Map<DotModel, DotModel>,
    stones: Seq<(DotModel, DotModel)>,
    clock: ClockModel,
    context: ClockModel,
)
    requires
        forall|d: DotModel| #[trigger]
            tombstones.contains_key(d) ==> dots::covers(clock, d) && dots::covers(
                clock,
                tombstones[d],
            ),
        forall|i: int|
            0 <= i < stones.len() ==> dots::covers(context, (#[trigger] stones[i]).0)
                && dots::covers(context, stones[i].1),
    ensures
        forall|d: DotModel| #[trigger]
            sets::bury(tombstones, stones).contains_key(d) ==> dots::covers(
                clocks::join(clock, context),
                d,
            ) && dots::covers(clocks::join(clock, context), sets::bury(tombstones, stones)[d]),
    decreases stones.len(),
{
    if stones.len() > 0 {
        let rest = stones.drop_last();
        let last = stones.last();
        assert(last == stones[stones.len() - 1]);
        assert forall|i: int| 0 <= i < rest.len() implies dots::covers(
            context,
            (#[trigger] rest[i]).0,
        ) && dots::covers(context, rest[i].1) by {
            assert(rest[i] == stones[i]);
        }
        lemma_bury_known(tombstones, rest, clock, context);
        assert forall|d: DotModel| #[trigger]
            sets::bury(tombstones, stones).contains_key(d) implies dots::covers(
            clocks::join(clock, context),
            d,
        ) && dots::covers(clocks::join(clock, context), sets::bury(tombstones, stones)[d]) by {
            if d != last.0 {
                assert(sets::bury(tombstones, rest).contains_key(d));
            }
        }
    }
}

/// A delta made by a replica carries only events that the clock in it covers.
pub proof fn law_delta_is_self_contained<V>(
    s: SetModel<V>,
    part: SetModel<V>,
    v: DvvModel,
    d: DeltaModel<V>,
)
    requires
        known_by(s, dots::effective(v)),
        part.adds.subset_of(s.adds),
        part.tombstones.submap_of(s.tombstones),
        sets::describes(d, part),
        sets::stamped(d, v),
    ensures
        self_contained(d),
{
    assert forall|i: int| 0 <= i < d.adds.len() implies dots::covers(
        d.context,
        (#[trigger] d.adds[i]).1,
    ) by {
        lemma_contains_listed(d.adds, part.adds);
        assert(d.adds.contains(d.adds[i]));
        assert(part.adds.contains(d.adds[i]));
        assert(s.adds.contains(d.adds[i]));
    }
    assert forall|i: int| 0 <= i < d.tombstones.len() implies dots::covers(
        d.context,
        (#[trigger] d.tombstones[i]).0,
    ) && dots::covers(d.context, d.tombstones[i].1) by {
        let x = d.tombstones[i].0;
        assert(part.tombstones.contains_key(x));
        assert(part.tombstones.dom().contains(x));
        assert(s.tombstones.contains_key(x) && s.tombstones[x] == part.tombstones[x]);
    }
}

/// Garbage collection neither removes an element nor brings one back.
pub proof fn law_gc_keeps_members<V>(s: SetModel<V>, frontier: ClockModel)
    requires
        sets::separated(s),
    ensures
        sets::separated(sets::collected(s, frontier)),
        sets::members(sets::collected(s, frontier)) == sets::members(s),
{
    let t = sets::collected(s, frontier);
    assert forall|e: V| sets::is_member(t, e) == sets::is_member(s, e) by {
        if sets::is_member(t, e) {
            let d = choose|d: DotModel| #[trigger]
                t.adds.contains((e, d)) && !t.tombstones.contains_key(d);
            assert(s.adds.contains((e, d)));
        }
        if sets::is_member(s, e) {
            let d = choose|d: DotModel| #[trigger]
                s.adds.contains((e, d)) && !s.tombstones.contains_key(d);
            assert(t.adds.contains((e, d)));
        }
    }
    assert(sets::members(t) =~= sets::members(s));
}

/// A replica's clock covers its state: a collection keeps it so.
pub proof fn law_gc_stays_known<V>(s: SetModel<V>, clock: ClockModel, frontier: ClockModel)
    requires
        known_by(s, clock),
    ensures
        known_by(sets::collected(s, frontier), clock),
{
    let t = sets::collected(s, frontier);
    assert forall|d: DotModel| #[trigger] t.tombstones.contains_key(d) implies dots::covers(
        clock,
        d,
    ) && dots::covers(clock, t.tombstones[d]) by {
        assert(s.tombstones.contains_key(d) && t.tombstones[d] == s.tombstones[d]);
    }
}

/// A delta whose additions are all beyond the frontier has the same effect on
/// the elements after a garbage collection as without it.
pub proof fn law_gc_is_unobservable<V>(s: SetModel<V>, frontier: ClockModel, d: DeltaModel<V>)
    requires
        forall|p: (V, DotModel)| #[trigger]
            d.adds.contains(p) ==> !dots::covers(frontier, p.1),
    ensures
        sets::merge_into(sets::collected(s, frontier), d).adds == sets::merge_into(s, d).adds,
{
    let t = sets::collected(s, frontier);
    sets::lemma_bury(s.tombstones, d.tombstones);
    sets::lemma_bury(t.tombstones, d.tombstones);
    assert(sets::merge_into(t, d).adds =~= sets::merge_into(s, d).adds);
}

// ── What each operation does, dot by dot ────────────────────────────────

/// A collection drops each tombstone whose addition and removal the frontier
/// both covers, whichever replicas they are of; it keeps all others as they
/// are, and every addition.
pub proof fn law_gc_drops_just_the_stable<E: ElementCodec>(
    s: SetModel<E::V>,
    frontier: DvvModel,
    d: DotModel,
)
    ensures
        OrSet::<E>::after_gc(s, frontier).adds == s.adds,
        OrSet::<E>::after_gc(s, frontier).tombstones.contains_key(d) <==> s.tombstones.contains_key(
            d,
        ) && !(d.counter <= clocks::counter_of(dots::effective(frontier), d.node_id)
            && s.tombstones[d].counter <= clocks::counter_of(
            dots::effective(frontier),
            s.tombstones[d].node_id,
        )),
        OrSet::<E>::after_gc(s, frontier).tombstones.contains_key(d) ==> OrSet::<E>::after_gc(
            s,
            frontier,
        ).tombstones[d] == s.tombstones[d],
{
}

/// A second collection under a frontier that is no further finds nothing.
pub proof fn law_gc_is_done_once<E: ElementCodec>(
    s: SetModel<E::V>,
    frontier: DvvModel,
    earlier: DvvModel,
)
    requires
        clocks::leq(dots::effective(earlier), dots::effective(frontier)),
    ensures
        OrSet::<E>::after_gc(OrSet::<E>::after_gc(s, frontier), earlier) == OrSet::<E>::after_gc(
            s,
            frontier,
        ),
{
    let once = OrSet::<E>::after_gc(s, frontier);
    let twice = OrSet::<E>::after_gc(once, earlier);
    assert forall|d: DotModel| once.tombstones.contains_key(d) == twice.tombstones.contains_key(
        d,
    ) by {
        law_gc_drops_just_the_stable::<E>(s, frontier, d);
        law_gc_drops_just_the_stable::<E>(once, earlier, d);
        let a = dots::effective(earlier);
        let b = dots::effective(frontier);
        assert(clocks::counter_of(a, d.node_id) <= clocks::counter_of(b, d.node_id));
        let r = s.tombstones[d].node_id;
        assert(clocks::counter_of(a, r) <= clocks::counter_of(b, r));
    }
    assert(twice.tombstones =~= once.tombstones);
    assert(twice =~= once);
}

/// An element is in the set just when some addition of it is not buried.
pub proof fn law_member_has_a_live_dot<V>(s: SetModel<V>, e: V)
    ensures
        !sets::is_member(s, e) <==> (forall|d: DotModel| #[trigger]
            s.adds.contains((e, d)) ==> s.tombstones.contains_key(d)),
        sets::members(s).contains(e) == sets::is_member(s, e),
{
}

/// An addition puts its own dot beside the element, and changes nothing else.
pub proof fn law_add_records_its_dot<E: ElementCodec>(
    s: SetModel<E::V>,
    dot: DotModel,
    e: E::V,
    p: (E::V, DotModel),
)
    ensures
        OrSet::<E>::after_local(s, dot, OpModel::Add(e)).adds.contains(p) <==> s.adds.contains(p)
            || p == (e, dot),
        OrSet::<E>::after_local(s, dot, OpModel::Add(e)).tombstones == s.tombstones,
{
}

/// A removal takes away every dot of the element and buries each under the
/// dot of the removal; the dots of other elements stay as they are.
pub proof fn law_remove_buries_what_it_saw<E: ElementCodec>(
    s: SetModel<E::V>,
    dot: DotModel,
    e: E::V,
    p: (E::V, DotModel),
    d: DotModel,
)
    ensures
        OrSet::<E>::after_local(s, dot, OpModel::Remove(e)).adds.contains(p) <==> s.adds.contains(p)
            && p.0 != e,
        s.adds.contains((e, d)) ==> OrSet::<E>::after_local(
            s,
            dot,
            OpModel::Remove(e),
        ).tombstones.contains_key(d) && OrSet::<E>::after_local(
            s,
            dot,
            OpModel::Remove(e),
        ).tombstones[d] == dot,
        !s.adds.contains((e, d)) ==> OrSet::<E>::after_local(
            s,
            dot,
            OpModel::Remove(e),
        ).tombstones.contains_key(d) == s.tombstones.contains_key(d),
        !s.adds.contains((e, d)) && s.tombstones.contains_key(d) ==> OrSet::<E>::after_local(
            s,
            dot,
            OpModel::Remove(e),
        ).tombstones[d] == s.tombstones[d],
{
}

/// After a merge a dot is buried just when it was or the delta buries it. An
/// addition is there just when this side has it and the delta does not bury
/// it, or the delta has it and neither side buries it.
pub proof fn law_merge_unites<E: ElementCodec>(
    s: SetModel<E::V>,
    d: DeltaModel<E::V>,
    p: (E::V, DotModel),
    x: DotModel,
)
    ensures
        OrSet::<E>::after_merge(s, d).tombstones.contains_key(x) <==> s.tombstones.contains_key(x)
            || (exists|i: int| 0 <= i < d.tombstones.len() && (#[trigger] d.tombstones[i]).0 == x),
        OrSet::<E>::after_merge(s, d).adds.contains(p) <==> {
            ||| s.adds.contains(p) && (forall|i: int|
                0 <= i < d.tombstones.len() ==> (#[trigger] d.tombstones[i]).0 != p.1)
            ||| d.adds.contains(p) && !s.tombstones.contains_key(p.1) && (forall|i: int|
                0 <= i < d.tombstones.len() ==> (#[trigger] d.tombstones[i]).0 != p.1)
        },
        (forall|i: int| 0 <= i < d.tombstones.len() ==> (#[trigger] d.tombstones[i]).0 != x)
            && s.tombstones.contains_key(x) ==> OrSet::<E>::after_merge(s, d).tombstones[x]
            == s.tombstones[x],
{
    sets::lemma_bury(s.tombstones, d.tombstones);
    let m = sets::bury(s.tombstones, d.tombstones);
    assert(m.contains_key(x) <==> s.tombstones.contains_key(x) || sets::buries(d.tombstones, x));
    assert(m.contains_key(p.1) <==> s.tombstones.contains_key(p.1) || sets::buries(
        d.tombstones,
        p.1,
    ));
}

/// Of the removals that a delta lists for a dot, a merge takes the last.
pub proof fn law_merge_takes_the_last_removal<E: ElementCodec>(
    s: SetModel<E::V>,
    d: DeltaModel<E::V>,
    i: int,
)
    requires
        0 <= i < d.tombstones.len(),
        forall|j: int|
            i < j < d.tombstones.len() ==> (#[trigger] d.tombstones[j]).0 != d.tombstones[i].0,
    ensures
        OrSet::<E>::after_merge(s, d).tombstones.contains_key(d.tombstones[i].0),
        OrSet::<E>::after_merge(s, d).tombstones[d.tombstones[i].0] == d.tombstones[i].1,
{
    lemma_last_burial(s.tombstones, d.tombstones, i);
}

proof fn lemma_last_burial(
    tombstones: Map<DotModel, DotModel>,
    stones: Seq<(DotModel, DotModel)>,
    i: int,
)
    requires
        0 <= i < stones.len(),
        forall|j: int| i < j < stones.len() ==> (#[trigger] stones[j]).0 != stones[i].0,
    ensures
        sets::bury(tombstones, stones).contains_key(stones[i].0),
        sets::bury(tombstones, stones)[stones[i].0] == stones[i].1,
    decreases stones.len(),
{
    if i < stones.len() - 1 {
        let rest = stones.drop_last();
        assert(rest[i] == stones[i]);
        assert(stones[stones.len() - 1].0 != stones[i].0);
        assert forall|j: int| i < j < rest.len() implies (#[trigger] rest[j]).0 != rest[i].0 by {
            assert(rest[j] == stones[j]);
        }
        lemma_last_burial(tombstones, rest, i);
    }
}

/// The delta of a local operation names the addition with its dot, or the
/// dots that the removal buried and the removal's own dot, and carries the
/// replica's clock and dot.
pub proof fn law_announcement_tells_the_change<E: ElementCodec>(
    s: SetModel<E::V>,
    dot: DotModel,
    op: OpModel<E::V>,
    dvv: DvvModel,
    d: DeltaModel<E::V>,
    p: (E::V, DotModel),
    stone: (DotModel, DotModel),
)
    requires
        OrSet::<E>::announces_local(s, dot, op, dvv, d),
    ensures
        d.adds.contains(p) <==> op == OpModel::Add(p.0) && p.1 == dot,
        d.tombstones.contains(stone) <==> stone.1 == dot && (op matches OpModel::Remove(e)
            && s.adds.contains((e, stone.0))),
        d.context == dots::effective(dvv),
        d.dot_node == dvv.dot.node_id,
        d.dot_counter == dvv.dot.counter,
{
    let change = sets::local_change(s, dot, op);
    lemma_contains_listed(d.adds, change.adds);
    lemma_stones_listed(d.tombstones, change.tombstones, stone);
}

proof fn lemma_stones_listed(
    stones: Seq<(DotModel, DotModel)>,
    tombstones: Map<DotModel, DotModel>,
    stone: (DotModel, DotModel),
)
    requires
        sets::lists_stones(stones, tombstones),
    ensures
        stones.contains(stone) <==> tombstones.contains_key(stone.0) && tombstones[stone.0]
            == stone.1,
{
    if stones.contains(stone) {
        let i = choose|i: int| 0 <= i < stones.len() && stones[i] == stone;
        assert(tombstones.contains_key(stones[i].0));
    }
    if tombstones.contains_key(stone.0) && tombstones[stone.0] == stone.1 {
        assert(sets::buries(stones, stone.0));
        let i = choose|i: int| 0 <= i < stones.len() && (#[trigger] stones[i]).0 == stone.0;
        assert(tombstones[stones[i].0] == stones[i].1);
        assert(stones[i] == stone);
    }
}

/// The delta for a peer holds just those additions whose dot the peer's clock
/// does not cover, and just those tombstones whose removal it does not cover,
/// each once, and carries the replica's clock and dot.
pub proof fn law_delta_holds_what_is_missed<E: ElementCodec>(
    s: SetModel<E::V>,
    known: ClockModel,
    dvv: DvvModel,
    d: DeltaModel<E::V>,
    p: (E::V, DotModel),
    stone: (DotModel, DotModel),
)
    requires
        OrSet::<E>::is_delta_since(s, known, dvv, d),
    ensures
        d.adds.contains(p) <==> s.adds.contains(p) && p.1.counter > clocks::counter_of(
            known,
            p.1.node_id,
        ),
        d.tombstones.contains(stone) <==> s.tombstones.contains_key(stone.0)
            && s.tombstones[stone.0] == stone.1 && stone.1.counter > clocks::counter_of(
            known,
            stone.1.node_id,
        ),
        d.adds.no_duplicates(),
        forall|i: int, j: int|
            0 <= i < j < d.tombstones.len() ==> (#[trigger] d.tombstones[i]).0 != (
            #[trigger] d.tombstones[j]).0,
        d.context == dots::effective(dvv),
        d.dot_node == dvv.dot.node_id,
        d.dot_counter == dvv.dot.counter,
{
    let part = sets::unseen(s, known);
    lemma_contains_listed(d.adds, part.adds);
    lemma_stones_listed(d.tombstones, part.tombstones, stone);
}

/// A delta with the whole state holds every addition and every tombstone, each
/// once, and carries the replica's clock and dot.
pub proof fn law_full_state_holds_all<E: ElementCodec>(
    s: SetModel<E::V>,
    dvv: DvvModel,
    d: DeltaModel<E::V>,
    p: (E::V, DotModel),
    stone: (DotModel, DotModel),
)
    requires
        OrSet::<E>::is_full_state(s, dvv, d),
    ensures
        d.adds.contains(p) <==> s.adds.contains(p),
        d.tombstones.contains(stone) <==> s.tombstones.contains_key(stone.0)
            && s.tombstones[stone.0] == stone.1,
        d.adds.no_duplicates(),
        forall|i: int, j: int|
            0 <= i < j < d.tombstones.len() ==> (#[trigger] d.tombstones[i]).0 != (
            #[trigger] d.tombstones[j]).0,
        d.context == dots::effective(dvv),
        d.dot_node == dvv.dot.node_id,
        d.dot_counter == dvv.dot.counter,
{
    lemma_contains_listed(d.adds, s.adds);
    lemma_stones_listed(d.tombstones, s.tombstones, stone);
}

/// What is offered as some element is the name of one that has a dot that is
/// not buried; nothing is offered just when there is none.
pub proof fn law_offer_is_an_element<E: ElementCodec>(s: SetModel<E::V>, choice: Option<Seq<char>>)
    requires
        OrSet::<E>::may_offer(s, choice),
    ensures
        choice matches Some(name) ==> exists|e: E::V, d: DotModel| #[trigger]
            s.adds.contains((e, d)) && !s.tombstones.contains_key(d) && name == E::named(e),
        choice is None ==> forall|e: E::V, d: DotModel| #[trigger]
            s.adds.contains((e, d)) ==> s.tombstones.contains_key(d),
{
    if let Some(name) = choice {
        let e = choose|e: E::V| #[trigger] sets::is_member(s, e) && name == E::named(e);
        let d = choose|d: DotModel| #[trigger]
            s.adds.contains((e, d)) && !s.tombstones.contains_key(d);
        assert(s.adds.contains((e, d)) && !s.tombstones.contains_key(d) && name == E::named(e));
    } else {
        assert forall|e: E::V, d: DotModel| #[trigger] s.adds.contains(
            (e, d),
        ) implies s.tombstones.contains_key(d) by {
            assert(!sets::is_member(s, e));
        }
    }
}

} // verus!
