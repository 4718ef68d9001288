//! Version vectors: finite maps from replicas to event counters.
//!
//! A replica that a vector does not mention counts as zero.

use vstd::prelude::*;

use crate::common::{same_id, ClockModel, Counter, NodeId};
use crate::node_map;
use crate::node_map::NodeMap;

verus! {

/// The counter that a clock holds for `node`, zero when it holds none.
pub open spec fn counter_of(clock: ClockModel, node: Seq<char>) -> u64 {
    if clock.contains_key(node) {
        clock[node]
    } else {
        0
    }
}

/// Pointwise maximum, over the replicas that either clock mentions.
pub open spec fn join(a: ClockModel, b: ClockModel) -> ClockModel {
    Map::new(
        |n: Seq<char>| a.contains_key(n) || b.contains_key(n),
        |n: Seq<char>|
            if counter_of(a, n) >= counter_of(b, n) {
                counter_of(a, n)
            } else {
                counter_of(b, n)
            },
    )
}

/// Pointwise minimum, over the replicas that both clocks mention.
pub open spec fn meet(a: ClockModel, b: ClockModel) -> ClockModel {
    Map::new(
        |n: Seq<char>| a.contains_key(n) && b.contains_key(n),
        |n: Seq<char>|
            if a[n] <= b[n] {
                a[n]
            } else {
                b[n]
            },
    )
}

/// Pointwise order.
pub open spec fn leq(a: ClockModel, b: ClockModel) -> bool {
    forall|n: Seq<char>| #[trigger] counter_of(a, n) <= counter_of(b, n)
}

/// The entries of `a` that are ahead of `remote`, without the one of `skip`.
pub open spec fn ahead_of(a: ClockModel, remote: ClockModel, skip: Seq<char>) -> ClockModel {
    Map::new(
        |n: Seq<char>| n != skip && a.contains_key(n) && a[n] > counter_of(remote, n),
        |n: Seq<char>| a[n],
    )
}

/// A version vector.
pub struct VersionVector {
    counters: NodeMap<Counter>,
}

impl View for VersionVector {
    type V = ClockModel;

    closed spec fn view(&self) -> ClockModel {
        self.counters@
    }
}

impl Clone for VersionVector {
    fn clone(&self) -> (r: Self)
        ensures
            r@ == self@,
    {
        let mut r = VersionVector::new();
        let entries = self.entries();
        let mut i: usize = 0;
        while i < entries.len()
            invariant
                i <= entries.len(),
                node_map::distinct_keys(entries@),
                r@ == node_map::map_of(entries@.take(i as int)),
            decreases entries.len() - i,
        {
            proof {
                node_map::lemma_next_entry(entries@, i as int);
            }
            r.insert(entries[i].0.clone(), entries[i].1);
            i += 1;
        }
        proof {
            assert(entries@.take(i as int) =~= entries@);
            node_map::lemma_spelled_out(entries@, self@);
        }
        r
    }
}

impl Default for VersionVector {
    fn default() -> (r: Self)
        ensures
            r@ == Map::<Seq<char>, u64>::empty(),
    {
        VersionVector::new()
    }
}

impl VersionVector {
    /// The vector that mentions no replica.
    pub fn new() -> (r: Self)
        ensures
            r@ == Map::<Seq<char>, u64>::empty(),
    {
        VersionVector { counters: NodeMap::new() }
    }

    /// The entry for `node`, if there is one.
    pub fn get(&self, node: &NodeId) -> (r: Option<Counter>)
        ensures
            r == self@.get(node@),
    {
        match self.counters.get(node) {
            Some(c) => Some(*c),
            None => None,
        }
    }

    /// The counter of `node`, zero when the vector does not mention it.
    pub fn counter(&self, node: &NodeId) -> (r: Counter)
        ensures
            r == counter_of(self@, node@),
    {
        match self.get(node) {
            Some(c) => c,
            None => 0,
        }
    }

    pub fn contains_node(&self, node: &NodeId) -> (r: bool)
        ensures
            r == self@.contains_key(node@),
    {
        self.counters.contains_node(node)
    }

    /// Set the counter of `node`.
    pub fn insert(&mut self, node: NodeId, counter: Counter)
        ensures
            final(self)@ == old(self)@.insert(node@, counter),
    {
        self.counters.insert(node, counter);
    }

    /// Drop the entry of `node`.
    pub fn remove(&mut self, node: &NodeId)
        ensures
            final(self)@ == old(self)@.remove(node@),
    {
        self.counters.remove(node);
    }

    /// The entries that are ahead of `remote`, without the one of `skip`.
    pub fn retain_ahead(&self, remote: &VersionVector, skip: &NodeId) -> (r: VersionVector)
        ensures
            r@ == ahead_of(self@, remote@, skip@),
    {
        let mut r = VersionVector::new();
        let entries = self.entries();
        assert(ahead_of(node_map::map_of(entries@.take(0)), remote@, skip@) =~= r@);
        let mut i: usize = 0;
        while i < entries.len()
            invariant
                i <= entries.len(),
                node_map::distinct_keys(entries@),
                r@ == ahead_of(node_map::map_of(entries@.take(i as int)), remote@, skip@),
            decreases entries.len() - i,
        {
            let ghost p = node_map::map_of(entries@.take(i as int));
            let ghost n = entries@[i as int].0@;
            proof {
                node_map::lemma_next_entry(entries@, i as int);
            }
            let c: Counter = entries[i].1;
            if !same_id(&entries[i].0, skip) && c > remote.counter(&entries[i].0) {
                r.insert(entries[i].0.clone(), c);
            }
            assert(r@ =~= ahead_of(p.insert(n, c), remote@, skip@));
            i += 1;
        }
        proof {
            assert(entries@.take(i as int) =~= entries@);
            node_map::lemma_spelled_out(entries@, self@);
        }
        r
    }

    pub fn is_empty(&self) -> (r: bool)
        ensures
            r == self@.is_empty(),
    {
        let entries = self.entries();
        proof {
            if entries@.len() > 0 {
                assert(self@.contains_key(entries@[0].0@));
            } else {
                assert forall|n: Seq<char>| !self@.contains_key(n) by {}
                assert(self@ =~= Map::<Seq<char>, u64>::empty());
            }
        }
        entries.len() == 0
    }

    /// Does the other vector have every entry of this one?
    fn is_part_of(&self, other: &VersionVector) -> (r: bool)
        ensures
            r == self@.submap_of(other@),
    {
        let entries = self.entries();
        let mut i: usize = 0;
        while i < entries.len()
            invariant
                i <= entries.len(),
                node_map::lists_map(entries@, self@),
                forall|j: int|
                    0 <= j < i ==> other@.contains_key((#[trigger] entries@[j]).0@)
                        && other@[entries@[j].0@] == entries@[j].1,
            decreases entries.len() - i,
        {
            let there = match other.get(&entries[i].0) {
                Some(counter) => counter == entries[i].1,
                None => false,
            };
            if !there {
                assert(self@.contains_key(entries@[i as int].0@));
                return false;
            }
            i += 1;
        }
        assert forall|n: Seq<char>| #[trigger] self@.contains_key(n) implies other@.contains_key(n)
            && self@[n] == other@[n] by {
            let j = choose|j: int| 0 <= j < entries@.len() && (#[trigger] entries@[j]).0@ == n;
            assert(other@.contains_key(entries@[j].0@));
        }
        true
    }

    /// Do the two have the same entries?
    pub fn same(&self, other: &VersionVector) -> (r: bool)
        ensures
            r == (self@ == other@),
    {
        let r = self.is_part_of(other) && other.is_part_of(self);
        proof {
            if r {
                assert(self@.dom() =~= other@.dom());
                assert(self@ =~= other@);
            }
        }
        r
    }

    /// The entries, each once, in no particular order.
    pub fn entries(&self) -> (r: &Vec<(NodeId, Counter)>)
        ensures
            node_map::lists_map(r@, self@),
    {
        self.counters.entries()
    }
}

/// Pointwise maximum of two vectors.
pub fn vv_join(a: &VersionVector, b: &VersionVector) -> (r: VersionVector)
    ensures
        r@ == join(a@, b@),
{
    let mut r = a.clone();
    let entries = b.entries();
    assert(join(a@, node_map::map_of(entries@.take(0))) =~= a@);
    let mut i: usize = 0;
    while i < entries.len()
        invariant
            i <= entries.len(),
            node_map::distinct_keys(entries@),
            r@ == join(a@, node_map::map_of(entries@.take(i as int))),
        decreases entries.len() - i,
    {
        let ghost p = node_map::map_of(entries@.take(i as int));
        let ghost n = entries@[i as int].0@;
        proof {
            node_map::lemma_next_entry(entries@, i as int);
        }
        let c: Counter = entries[i].1;
        let have = r.get(&entries[i].0);
        let raise: bool = match have {
            Some(h) => h < c,
            None => true,
        };
        if raise {
            r.insert(entries[i].0.clone(), c);
        }
        assert(r@ =~= join(a@, p.insert(n, c)));
        i += 1;
    }
    proof {
        assert(entries@.take(i as int) =~= entries@);
        node_map::lemma_spelled_out(entries@, b@);
    }
    r
}

/// Pointwise minimum of two vectors; a replica that either of them does not
/// mention is dropped.
pub fn vv_meet(a: &VersionVector, b: &VersionVector) -> (r: VersionVector)
    ensures
        r@ == meet(a@, b@),
{
    let mut r = VersionVector::new();
    let entries = a.entries();
    assert(meet(node_map::map_of(entries@.take(0)), b@) =~= r@);
    let mut i: usize = 0;
    while i < entries.len()
        invariant
            i <= entries.len(),
            node_map::distinct_keys(entries@),
            r@ == meet(node_map::map_of(entries@.take(i as int)), b@),
        decreases entries.len() - i,
    {
        let ghost p = node_map::map_of(entries@.take(i as int));
        let ghost n = entries@[i as int].0@;
        proof {
            node_map::lemma_next_entry(entries@, i as int);
        }
        let c: Counter = entries[i].1;
        if let Some(d) = b.get(&entries[i].0) {
            r.insert(
                entries[i].0.clone(),
                if c <= d {
                    c
                } else {
                    d
                },
            );
        }
        assert(r@ =~= meet(p.insert(n, c), b@));
        i += 1;
    }
    proof {
        assert(entries@.take(i as int) =~= entries@);
        node_map::lemma_spelled_out(entries@, a@);
    }
    r
}

/// Is `a` pointwise at most `b`?
pub fn vv_leq(a: &VersionVector, b: &VersionVector) -> (r: bool)
    ensures
        r == leq(a@, b@),
{
    let entries = a.entries();
    let mut i: usize = 0;
    while i < entries.len()
        invariant
            i <= entries.len(),
            node_map::lists_map(entries@, a@),
            forall|j: int|
                0 <= j < i ==> (#[trigger] entries@[j]).1 <= counter_of(b@, entries@[j].0@),
        decreases entries.len() - i,
    {
        if entries[i].1 > b.counter(&entries[i].0) {
            assert(counter_of(a@, entries@[i as int].0@) > counter_of(
                b@,
                entries@[i as int].0@,
            ));
            return false;
        }
        i += 1;
    }
    assert forall|n: Seq<char>| #[trigger] counter_of(a@, n) <= counter_of(b@, n) by {
        if a@.contains_key(n) {
            let j = choose|j: int| 0 <= j < entries@.len() && (#[trigger] entries@[j]).0@ == n;
            assert(entries@[j].1 <= counter_of(b@, n));
        }
    }
    true
}

/// Joining is commutative.
pub proof fn law_join_commutes(a: ClockModel, b: ClockModel)
    ensures
        join(a, b) == join(b, a),
{
    assert(join(a, b) =~= join(b, a));
}

/// Joining is associative.
pub proof fn law_join_associates(a: ClockModel, b: ClockModel, c: ClockModel)
    ensures
        join(join(a, b), c) == join(a, join(b, c)),
{
    assert(join(join(a, b), c) =~= join(a, join(b, c)));
}

/// Joining a clock with itself changes nothing.
pub proof fn law_join_idempotent(a: ClockModel)
    ensures
        join(a, a) == a,
{
    assert(join(a, a) =~= a);
}

/// The join is the least clock above both of its arguments.
pub proof fn law_join_least_upper_bound(a: ClockModel, b: ClockModel, c: ClockModel)
    ensures
        leq(a, join(a, b)),
        leq(b, join(a, b)),
        leq(a, c) && leq(b, c) ==> leq(join(a, b), c),
{
    if leq(a, c) && leq(b, c) {
        assert forall|n: Seq<char>| #[trigger] counter_of(join(a, b), n) <= counter_of(c, n) by {
            assert(counter_of(a, n) <= counter_of(c, n));
            assert(counter_of(b, n) <= counter_of(c, n));
        }
    }
}

/// The meet is the greatest clock below both of its arguments.
pub proof fn law_meet_greatest_lower_bound(a: ClockModel, b: ClockModel, c: ClockModel)
    ensures
        leq(meet(a, b), a),
        leq(meet(a, b), b),
        leq(c, a) && leq(c, b) ==> leq(c, meet(a, b)),
{
    if leq(c, a) && leq(c, b) {
        assert forall|n: Seq<char>| #[trigger] counter_of(c, n) <= counter_of(meet(a, b), n) by {
            assert(counter_of(c, n) <= counter_of(a, n));
            assert(counter_of(c, n) <= counter_of(b, n));
        }
    }
}

/// The pointwise order is reflexive and transitive, and two clocks that are
/// below each other agree on every counter.
pub proof fn law_leq_order(a: ClockModel, b: ClockModel, c: ClockModel)
    ensures
        leq(a, a),
        leq(a, b) && leq(b, c) ==> leq(a, c),
        leq(a, b) && leq(b, a) ==> forall|n: Seq<char>| #[trigger]
            counter_of(a, n) == counter_of(b, n),
{
    if leq(a, b) && leq(b, c) {
        assert forall|n: Seq<char>| #[trigger] counter_of(a, n) <= counter_of(c, n) by {
            assert(counter_of(a, n) <= counter_of(b, n));
            assert(counter_of(b, n) <= counter_of(c, n));
        }
    }
}

/// A clock that mentions a replica counts what it says of it, and nothing
/// otherwise.
pub proof fn law_counter_is_the_entry(clock: ClockModel, n: Seq<char>)
    ensures
        clock.contains_key(n) ==> counter_of(clock, n) == clock[n],
        !clock.contains_key(n) ==> counter_of(clock, n) == 0,
{
}

/// A clock is below another one just when each event that it counts is counted
/// by the other one.
pub proof fn law_leq_is_pointwise(a: ClockModel, b: ClockModel)
    ensures
        leq(a, b) <==> (forall|n: Seq<char>| #[trigger]
            a.contains_key(n) && a[n] > 0 ==> b.contains_key(n) && a[n] <= b[n]),
{
    if leq(a, b) {
        assert forall|n: Seq<char>| #[trigger] a.contains_key(n) && a[n] > 0 implies b.contains_key(
            n,
        ) && a[n] <= b[n] by {
            assert(counter_of(a, n) <= counter_of(b, n));
        }
    }
}

/// The join mentions what either clock mentions, with the greater of the two
/// counters.
pub proof fn law_join_takes_the_greater(a: ClockModel, b: ClockModel, n: Seq<char>)
    ensures
        join(a, b).contains_key(n) <==> a.contains_key(n) || b.contains_key(n),
        a.contains_key(n) ==> a[n] <= join(a, b)[n],
        b.contains_key(n) ==> b[n] <= join(a, b)[n],
        join(a, b).contains_key(n) ==> (a.contains_key(n) && join(a, b)[n] == a[n]) || (
        b.contains_key(n) && join(a, b)[n] == b[n]),
{
}

/// The meet mentions what both clocks mention, with the lesser of the two
/// counters.
pub proof fn law_meet_takes_the_lesser(a: ClockModel, b: ClockModel, n: Seq<char>)
    ensures
        meet(a, b).contains_key(n) <==> a.contains_key(n) && b.contains_key(n),
        meet(a, b).contains_key(n) ==> meet(a, b)[n] <= a[n] && meet(a, b)[n] <= b[n] && (meet(
            a,
            b,
        )[n] == a[n] || meet(a, b)[n] == b[n]),
{
}

} // verus!
