//! Dotted version vectors.
//!
//! A dotted version vector is what one replica knows: the dot of its own
//! latest event, and for each other replica how far its events have been seen.

use vstd::prelude::*;

use crate::common::{same_id, ClockModel, Counter, NodeId};
use crate::logical_clocks::version_vector as clocks;
use crate::logical_clocks::version_vector::{vv_join, VersionVector};

verus! {

/// What a replica has seen of every replica.
pub type CausalContext = VersionVector;

/// The mathematical value of a [`Dot`].
pub struct DotModel {
    pub node_id: Seq<char>,
    pub counter: u64,
}

/// One event: the `counter`-th of replica `node_id`.
pub struct Dot {
    pub node_id: NodeId,
    pub counter: Counter,
}

impl View for Dot {
    type V = DotModel;

    open spec fn view(&self) -> DotModel {
        DotModel { node_id: self.node_id@, counter: self.counter }
    }
}

impl Clone for Dot {
    fn clone(&self) -> (r: Self)
        ensures
            r@ == self@,
    {
        Dot { node_id: self.node_id.clone(), counter: self.counter }
    }
}

impl Dot {
    pub fn new(node_id: NodeId, counter: Counter) -> (r: Self)
        ensures
            r@ == (DotModel { node_id: node_id@, counter }),
    {
        Dot { node_id, counter }
    }

    /// Do the two dots name the same event?
    pub fn same(&self, other: &Dot) -> (r: bool)
        ensures
            r == (self@ == other@),
    {
        self.counter == other.counter && same_id(&self.node_id, &other.node_id)
    }
}

/// The mathematical value of a [`DotVersionVector`].
pub struct DvvModel {
    pub dot: DotModel,
    pub context: ClockModel,
}

/// The clock that a dotted version vector stands for: its context, with the
/// counter of its own dot where that is ahead.
pub open spec fn effective(v: DvvModel) -> ClockModel {
    if v.dot.counter == 0 {
        v.context
    } else {
        v.context.insert(
            v.dot.node_id,
            if v.dot.counter >= clocks::counter_of(v.context, v.dot.node_id) {
                v.dot.counter
            } else {
                clocks::counter_of(v.context, v.dot.node_id)
            },
        )
    }
}

/// Has an observer with this clock seen the event?
pub open spec fn covers(clock: ClockModel, dot: DotModel) -> bool {
    dot.counter <= clocks::counter_of(clock, dot.node_id)
}

/// The vector of replica `node` whose clock is `clock`.
pub open spec fn with_clock(node: Seq<char>, clock: ClockModel) -> DvvModel {
    DvvModel {
        dot: DotModel { node_id: node, counter: clocks::counter_of(clock, node) },
        context: clock.remove(node),
    }
}

/// The vector after its own replica's next event.
pub open spec fn after_event(v: DvvModel) -> DvvModel {
    DvvModel {
        dot: DotModel {
            counter: (clocks::counter_of(effective(v), v.dot.node_id) + 1) as u64,
            ..v.dot
        },
        ..v
    }
}

/// The vector after learning all that `other` knows.
pub open spec fn merged(v: DvvModel, other: DvvModel) -> DvvModel {
    with_clock(v.dot.node_id, clocks::join(effective(v), effective(other)))
}

/// What of a vector is news to an observer with clock `remote`.
pub open spec fn news(v: DvvModel, remote: ClockModel) -> DvvModel {
    let own = v.dot.node_id;
    let mine = clocks::counter_of(effective(v), own);
    DvvModel {
        dot: DotModel {
            node_id: own,
            counter: if mine > clocks::counter_of(remote, own) {
                mine
            } else {
                0
            },
        },
        context: clocks::ahead_of(v.context, remote, own),
    }
}

/// A dotted version vector.
pub struct DotVersionVector {
    /// The latest event of the owning replica; counter zero before the first.
    pub dot: Dot,
    /// What has been seen of the other replicas.
    pub context: CausalContext,
}

impl View for DotVersionVector {
    type V = DvvModel;

    open spec fn view(&self) -> DvvModel {
        DvvModel { dot: self.dot@, context: self.context@ }
    }
}

impl Clone for DotVersionVector {
    fn clone(&self) -> (r: Self)
        ensures
            r@ == self@,
    {
        DotVersionVector { dot: self.dot.clone(), context: self.context.clone() }
    }
}

impl DotVersionVector {
    /// A replica that has seen nothing.
    pub fn new(node_id: NodeId) -> (r: Self)
        ensures
            r@ == (DvvModel {
                dot: DotModel { node_id: node_id@, counter: 0 },
                context: Map::empty(),
            }),
    {
        DotVersionVector { dot: Dot::new(node_id, 0), context: VersionVector::new() }
    }

    /// How far the events of `node` have been seen.
    pub fn effective_counter(&self, node: &NodeId) -> (r: Counter)
        ensures
            r == clocks::counter_of(effective(self@), node@),
    {
        let seen = self.context.counter(node);
        if same_id(node, &self.dot.node_id) && self.dot.counter > seen {
            self.dot.counter
        } else {
            seen
        }
    }

    /// The clock that this vector stands for.
    pub fn effective_map(&self) -> (r: VersionVector)
        ensures
            r@ == effective(self@),
    {
        let mut r = self.context.clone();
        if self.dot.counter != 0 {
            let own = self.effective_counter(&self.dot.node_id);
            r.insert(self.dot.node_id.clone(), own);
        }
        assert(r@ =~= effective(self@));
        r
    }

    /// Record a new event of the owning replica.
    pub fn event(&mut self)
        requires
            clocks::counter_of(effective(old(self)@), old(self)@.dot.node_id) < u64::MAX,
        ensures
            final(self)@ == after_event(old(self)@),
    {
        let seen = self.effective_counter(&self.dot.node_id);
        self.dot.counter = seen + 1;
    }

    /// Learn all that `other` knows.
    pub fn merge(&mut self, other: &DotVersionVector)
        ensures
            final(self)@ == merged(old(self)@, other@),
    {
        let mut clock = vv_join(&self.effective_map(), &other.effective_map());
        let own = clock.counter(&self.dot.node_id);
        clock.remove(&self.dot.node_id);
        self.dot.counter = own;
        self.context = clock;
    }

    /// Has this event been seen?
    pub fn dominates_dot(&self, dot: &Dot) -> (r: bool)
        ensures
            r == covers(effective(self@), dot@),
    {
        dot.counter <= self.effective_counter(&dot.node_id)
    }

    /// The part of this vector that an observer with clock `remote` has not
    /// seen: a zero dot and an empty context when there is none.
    pub fn delta_since(&self, remote: &VersionVector) -> (r: DotVersionVector)
        ensures
            r@ == news(self@, remote@),
    {
        let mine = self.effective_counter(&self.dot.node_id);
        let counter: Counter = if mine > remote.counter(&self.dot.node_id) {
            mine
        } else {
            0
        };
        let context = self.context.retain_ahead(remote, &self.dot.node_id);
        DotVersionVector { dot: Dot::new(self.dot.node_id.clone(), counter), context }
    }

    /// Forget replica `node`.
    pub fn remove(&mut self, node: &NodeId)
        ensures
            final(self)@ == (DvvModel {
                context: old(self)@.context.remove(node@),
                ..old(self)@
            }),
    {
        self.context.remove(node);
    }
}

/// The vector of replica `node_id` whose clock is `clock`.
pub fn frontier_dvv(node_id: &NodeId, clock: &VersionVector) -> (r: DotVersionVector)
    ensures
        r@ == with_clock(node_id@, clock@),
{
    let mut context = clock.clone();
    context.remove(node_id);
    DotVersionVector { dot: Dot::new(node_id.clone(), clock.counter(node_id)), context }
}

/// The clock of a vector made from a clock has the same counters.
pub proof fn law_with_clock_keeps_counters(node: Seq<char>, clock: ClockModel, n: Seq<char>)
    ensures
        clocks::counter_of(effective(with_clock(node, clock)), n) == clocks::counter_of(clock, n),
{
}

/// An event moves the owning replica's counter up by one and no other, and
/// its dot had not been seen before.
pub proof fn law_event_is_fresh(v: DvvModel, n: Seq<char>)
    requires
        clocks::counter_of(effective(v), v.dot.node_id) < u64::MAX,
    ensures
        clocks::counter_of(effective(after_event(v)), n) == clocks::counter_of(effective(v), n) + (
        if n == v.dot.node_id {
            1int
        } else {
            0int
        }),
        !covers(effective(v), after_event(v).dot),
        covers(effective(after_event(v)), after_event(v).dot),
{
}

/// Merging leaves each counter at the greater of the two.
pub proof fn law_merge_is_join(v: DvvModel, other: DvvModel, n: Seq<char>)
    ensures
        clocks::counter_of(effective(merged(v, other)), n) == clocks::counter_of(
            clocks::join(effective(v), effective(other)),
            n,
        ),
{
}

/// Clocks only increase: neither an event nor a merge lowers a counter.
pub proof fn law_clock_monotone(v: DvvModel, other: DvvModel)
    ensures
        clocks::leq(effective(v), effective(merged(v, other))),
        clocks::leq(effective(other), effective(merged(v, other))),
        clocks::counter_of(effective(v), v.dot.node_id) < u64::MAX ==> clocks::leq(
            effective(v),
            effective(after_event(v)),
        ),
{
    assert forall|n: Seq<char>| #[trigger]
        clocks::counter_of(effective(v), n) <= clocks::counter_of(effective(merged(v, other)), n) by {
        law_merge_is_join(v, other, n);
    }
    assert forall|n: Seq<char>| #[trigger]
        clocks::counter_of(effective(other), n) <= clocks::counter_of(effective(merged(v, other)), n) by {
        law_merge_is_join(v, other, n);
    }
    if clocks::counter_of(effective(v), v.dot.node_id) < u64::MAX {
        assert forall|n: Seq<char>| #[trigger]
            clocks::counter_of(effective(v), n) <= clocks::counter_of(effective(after_event(v)), n) by {
            law_event_is_fresh(v, n);
        }
    }
}

/// A vector holds no news for an observer exactly when the observer's clock
/// is at least its own.
pub proof fn law_no_news_iff_covered(v: DvvModel, remote: ClockModel)
    ensures
        (news(v, remote).dot.counter == 0 && news(v, remote).context.is_empty()) <==> clocks::leq(
            effective(v),
            remote,
        ),
{
    let d = news(v, remote);
    if clocks::leq(effective(v), remote) {
        assert(clocks::counter_of(effective(v), v.dot.node_id) <= clocks::counter_of(remote, v.dot.node_id));
        assert forall|n: Seq<char>| !d.context.contains_key(n) by {
            assert(clocks::counter_of(effective(v), n) <= clocks::counter_of(remote, n));
        }
        assert(d.context =~= Map::empty());
    }
    if d.dot.counter == 0 && d.context.is_empty() {
        assert forall|n: Seq<char>| #[trigger] clocks::counter_of(effective(v), n) <= clocks::counter_of(remote, n) by {
            assert(!d.context.dom().contains(n));
        }
    }
}

/// A vector counts of each replica what its context says, and of its own
/// replica no less than its dot.
pub proof fn law_effective_counts_context_and_dot(v: DvvModel, n: Seq<char>)
    ensures
        n != v.dot.node_id ==> effective(v).contains_key(n) == v.context.contains_key(n),
        n != v.dot.node_id && v.context.contains_key(n) ==> effective(v)[n] == v.context[n],
        effective(v).contains_key(v.dot.node_id) <==> v.dot.counter > 0 || v.context.contains_key(
            v.dot.node_id,
        ),
        v.dot.counter > 0 ==> effective(v)[v.dot.node_id] >= v.dot.counter,
        v.context.contains_key(v.dot.node_id) ==> effective(v)[v.dot.node_id]
            >= v.context[v.dot.node_id],
        effective(v).contains_key(v.dot.node_id) ==> effective(v)[v.dot.node_id] == v.dot.counter
            || v.context.contains_key(v.dot.node_id) && effective(v)[v.dot.node_id]
            == v.context[v.dot.node_id],
{
}

/// A clock covers an event just when it counts at least as far; the event
/// numbered zero is none, and always covered.
pub proof fn law_covers_counts_far_enough(clock: ClockModel, dot: DotModel)
    ensures
        covers(clock, dot) <==> dot.counter == 0 || clock.contains_key(dot.node_id)
            && dot.counter <= clock[dot.node_id],
{
}

/// A vector made from a clock belongs to the replica that it is made for, and
/// says of every other replica what the clock says.
pub proof fn law_with_clock_is_the_owners(node: Seq<char>, clock: ClockModel, n: Seq<char>)
    ensures
        with_clock(node, clock).dot.node_id == node,
        clock.contains_key(node) ==> with_clock(node, clock).dot.counter == clock[node],
        !clock.contains_key(node) ==> with_clock(node, clock).dot.counter == 0,
        !with_clock(node, clock).context.contains_key(node),
        n != node ==> with_clock(node, clock).context.contains_key(n) == clock.contains_key(n),
        n != node && clock.contains_key(n) ==> with_clock(node, clock).context[n] == clock[n],
{
}

/// An event is one of the owning replica, and tells nothing of the others.
pub proof fn law_event_is_the_owners(v: DvvModel)
    ensures
        after_event(v).dot.node_id == v.dot.node_id,
        after_event(v).context == v.context,
{
}

/// A merge leaves a vector with its owner, and at each replica at the greater
/// of the two counters.
pub proof fn law_merge_takes_the_greater(v: DvvModel, other: DvvModel, n: Seq<char>)
    ensures
        merged(v, other).dot.node_id == v.dot.node_id,
        merged(v, other).dot.counter == clocks::counter_of(
            effective(merged(v, other)),
            v.dot.node_id,
        ),
        clocks::counter_of(effective(merged(v, other)), n) >= clocks::counter_of(effective(v), n),
        clocks::counter_of(effective(merged(v, other)), n) >= clocks::counter_of(
            effective(other),
            n,
        ),
        clocks::counter_of(effective(merged(v, other)), n) == clocks::counter_of(effective(v), n)
            || clocks::counter_of(effective(merged(v, other)), n) == clocks::counter_of(
            effective(other),
            n,
        ),
        effective(merged(v, other)).contains_key(n) ==> effective(v).contains_key(n)
            || effective(other).contains_key(n),
{
}

/// The news of a vector are the counters of those replicas of which it has
/// seen more than the observer, and no others.
pub proof fn law_news_are_what_is_ahead(v: DvvModel, remote: ClockModel, n: Seq<char>)
    ensures
        news(v, remote).dot.node_id == v.dot.node_id,
        clocks::counter_of(effective(v), n) > clocks::counter_of(remote, n) ==> clocks::counter_of(
            effective(news(v, remote)),
            n,
        ) == clocks::counter_of(effective(v), n),
        clocks::counter_of(effective(v), n) <= clocks::counter_of(remote, n)
            ==> !effective(news(v, remote)).contains_key(n),
{
}

} // verus!
