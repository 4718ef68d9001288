//! The stable timestamp: what every live replica has seen.

use vstd::prelude::*;

use crate::common::{same_id, ClockModel, MatrixModel, NodeId};
use crate::logical_clocks::dot_version_vector as dots;
use crate::logical_clocks::dot_version_vector::DotModel;
use crate::logical_clocks::matrix_clock::MatrixClock;
use crate::logical_clocks::version_vector as clocks;
use crate::logical_clocks::version_vector::{vv_meet, VersionVector};
use crate::seqs;
use crate::text as texts;
use crate::text::has_text;

verus! {

/// What the replica `p` is known to have seen, told by replica `node` whose
/// own clock is `own`.
pub open spec fn seen_by(
    matrix: MatrixModel,
    node: Seq<char>,
    own: ClockModel,
    p: Seq<char>,
) -> Option<ClockModel> {
    if p == node {
        Some(own)
    } else {
        matrix.get(p)
    }
}

/// Is it known of every member what it has seen?
pub open spec fn all_known(
    matrix: MatrixModel,
    node: Seq<char>,
    own: ClockModel,
    members: Seq<Seq<char>>,
) -> bool {
    forall|i: int|
        0 <= i < members.len() ==> seen_by(matrix, node, own, #[trigger] members[i]) is Some
}

/// The pointwise minimum of what the members have seen.
pub open spec fn members_meet(
    matrix: MatrixModel,
    node: Seq<char>,
    own: ClockModel,
    members: Seq<Seq<char>>,
) -> ClockModel
    decreases members.len(),
{
    if members.len() == 0 {
        Map::empty()
    } else if members.len() == 1 {
        seen_by(matrix, node, own, members[0])->0
    } else {
        clocks::meet(
            members_meet(matrix, node, own, members.drop_last()),
            seen_by(matrix, node, own, members.last())->0,
        )
    }
}

/// The replicas that are mentioned somewhere but are no members.
pub open spec fn departed(
    matrix: MatrixModel,
    live: ClockModel,
    members: Seq<Seq<char>>,
) -> Set<Seq<char>> {
    Set::new(
        |p: Seq<char>| (matrix.contains_key(p) || live.contains_key(p)) && !members.contains(p),
    )
}

/// The departed replicas whose last event every member has seen.
pub open spec fn obsolete_among(
    gone: Set<Seq<char>>,
    live: ClockModel,
    final_dots: ClockModel,
) -> Set<Seq<char>> {
    gone.filter(|p: Seq<char>| final_dots.get(p) == live.get(p))
}

/// The departed replicas that may still come back with events.
pub open spec fn pending_among(
    gone: Set<Seq<char>>,
    live: ClockModel,
    final_dots: ClockModel,
) -> Set<Seq<char>> {
    gone.filter(|p: Seq<char>| final_dots.get(p) != live.get(p))
}

/// Is `p` a replica of the set of which it is known what it has seen?
pub open spec fn counts(matrix: MatrixModel, among: Set<Seq<char>>, p: Seq<char>) -> bool {
    among.contains(p) && matrix.contains_key(p)
}

/// Is `v` the pointwise minimum of `live` and of what the replicas of the set
/// are known to have seen?
pub open spec fn lowered(
    v: ClockModel,
    live: ClockModel,
    matrix: MatrixModel,
    among: Set<Seq<char>>,
) -> bool {
    &&& forall|n: Seq<char>| #[trigger]
        v.contains_key(n) <==> live.contains_key(n) && forall|p: Seq<char>|
            counts(matrix, among, p) ==> (#[trigger] matrix[p]).contains_key(n)
    &&& forall|n: Seq<char>| #[trigger]
        v.contains_key(n) ==> {
            &&& v[n] <= live[n]
            &&& forall|p: Seq<char>| counts(matrix, among, p) ==> v[n] <= (#[trigger] matrix[p])[n]
            &&& v[n] == live[n] || exists|p: Seq<char>|
                counts(matrix, among, p) && v[n] == (#[trigger] matrix[p])[n]
        }
}

/// Is `v` the stable timestamp, and are `obsolete` the replicas to forget?
/// Nothing is stable while it is not known of every member what it has seen.
pub open spec fn is_stable_timestamp(
    matrix: MatrixModel,
    node: Seq<char>,
    own: ClockModel,
    members: Seq<Seq<char>>,
    final_dots: ClockModel,
    v: ClockModel,
    obsolete: Set<Seq<char>>,
) -> bool {
    if !all_known(matrix, node, own, members) {
        v == Map::<Seq<char>, u64>::empty() && obsolete == Set::<Seq<char>>::empty()
    } else {
        let live = members_meet(matrix, node, own, members);
        let gone = departed(matrix, live, members);
        obsolete == obsolete_among(gone, live, final_dots) && lowered(
            v,
            live,
            matrix,
            pending_among(gone, live, final_dots),
        )
    }
}

/// One more replica lowers the minimum.
proof fn lemma_lowered_step(
    v: ClockModel,
    live: ClockModel,
    matrix: MatrixModel,
    among: Set<Seq<char>>,
    p: Seq<char>,
)
    requires
        lowered(v, live, matrix, among),
    ensures
        matrix.contains_key(p) ==> lowered(
            clocks::meet(v, matrix[p]),
            live,
            matrix,
            among.insert(p),
        ),
        !matrix.contains_key(p) ==> lowered(v, live, matrix, among.insert(p)),
{
    let more = among.insert(p);
    if matrix.contains_key(p) {
        let w = clocks::meet(v, matrix[p]);
        assert(counts(matrix, more, p));
        assert forall|q: Seq<char>| #[trigger] counts(matrix, more, q) <==> counts(
            matrix,
            among,
            q,
        ) || q == p by {}
        assert forall|n: Seq<char>| #[trigger]
            w.contains_key(n) <==> live.contains_key(n) && forall|q: Seq<char>|
                counts(matrix, more, q) ==> (#[trigger] matrix[q]).contains_key(n) by {
            if w.contains_key(n) {
                assert(v.contains_key(n));
                assert forall|q: Seq<char>| counts(matrix, more, q) implies (
                #[trigger] matrix[q]).contains_key(n) by {
                    if q != p {
                        assert(counts(matrix, among, q));
                    }
                }
            }
            if live.contains_key(n) && forall|q: Seq<char>|
                counts(matrix, more, q) ==> (#[trigger] matrix[q]).contains_key(n) {
                assert forall|q: Seq<char>| counts(matrix, among, q) implies (
                #[trigger] matrix[q]).contains_key(n) by {
                    assert(counts(matrix, more, q));
                }
                assert(v.contains_key(n));
                assert(matrix[p].contains_key(n));
            }
        }
        assert forall|n: Seq<char>| #[trigger] w.contains_key(n) implies {
            &&& w[n] <= live[n]
            &&& forall|q: Seq<char>| counts(matrix, more, q) ==> w[n] <= (#[trigger] matrix[q])[n]
            &&& w[n] == live[n] || exists|q: Seq<char>|
                counts(matrix, more, q) && w[n] == (#[trigger] matrix[q])[n]
        } by {
            assert(v.contains_key(n));
            assert forall|q: Seq<char>| counts(matrix, more, q) implies w[n] <= (
            #[trigger] matrix[q])[n] by {
                if q != p {
                    assert(counts(matrix, among, q));
                }
            }
            if w[n] == v[n] {
                if v[n] != live[n] {
                    let q = choose|q: Seq<char>|
                        counts(matrix, among, q) && v[n] == (#[trigger] matrix[q])[n];
                    assert(counts(matrix, more, q) && w[n] == matrix[q][n]);
                }
            } else {
                assert(counts(matrix, more, p) && w[n] == matrix[p][n]);
            }
        }
    } else {
        assert forall|q: Seq<char>| #[trigger] counts(matrix, more, q) <==> counts(
            matrix,
            among,
            q,
        ) by {}
        assert(lowered(v, live, matrix, more)) by {
            assert forall|n: Seq<char>| #[trigger]
                v.contains_key(n) <==> live.contains_key(n) && forall|q: Seq<char>|
                    counts(matrix, more, q) ==> (#[trigger] matrix[q]).contains_key(n) by {
                if forall|q: Seq<char>|
                    counts(matrix, more, q) ==> (#[trigger] matrix[q]).contains_key(n) {
                    assert forall|q: Seq<char>| counts(matrix, among, q) implies (
                    #[trigger] matrix[q]).contains_key(n) by {
                        assert(counts(matrix, more, q));
                    }
                }
            }
            assert forall|n: Seq<char>| #[trigger] v.contains_key(n) implies {
                &&& v[n] <= live[n]
                &&& forall|q: Seq<char>|
                    counts(matrix, more, q) ==> v[n] <= (#[trigger] matrix[q])[n]
                &&& v[n] == live[n] || exists|q: Seq<char>|
                    counts(matrix, more, q) && v[n] == (#[trigger] matrix[q])[n]
            } by {
                if v[n] != live[n] {
                    let q = choose|q: Seq<char>|
                        counts(matrix, among, q) && v[n] == (#[trigger] matrix[q])[n];
                    assert(counts(matrix, more, q) && v[n] == matrix[q][n]);
                }
            }
        }
    }
}

/// The pointwise minimum of what the members have seen; none when of some
/// member nothing is known.
fn meet_of_members(
    matrix: &MatrixClock,
    node: &NodeId,
    own: &VersionVector,
    members: &[NodeId],
) -> (r: Option<VersionVector>)
    ensures
        match r {
            Some(v) => all_known(matrix@, node@, own@, texts::texts_of(members@)) && v@
                == members_meet(matrix@, node@, own@, texts::texts_of(members@)),
            None => !all_known(matrix@, node@, own@, texts::texts_of(members@)),
        },
{
    let ghost all = texts::texts_of(members@);
    let mut live = VersionVector::new();
    let mut i: usize = 0;
    while i < members.len()
        invariant
            i <= members.len(),
            all == texts::texts_of(members@),
            all_known(matrix@, node@, own@, all.take(i as int)),
            live@ == members_meet(matrix@, node@, own@, all.take(i as int)),
        decreases members.len() - i,
    {
        let ghost head = all.take(i + 1);
        proof {
            assert(head.drop_last() =~= all.take(i as int));
            assert(head.last() == all[i as int]);
            assert(all[i as int] == members@[i as int]@);
        }
        let seen: &VersionVector = if same_id(&members[i], node) {
            own
        } else {
            match matrix.row(&members[i]) {
                Some(row) => row,
                None => {
                    assert(seen_by(matrix@, node@, own@, all[i as int]) is None);
                    return None;
                },
            }
        };
        proof {
            assert forall|j: int| 0 <= j < head.len() implies seen_by(
                matrix@,
                node@,
                own@,
                #[trigger] head[j],
            ) is Some by {
                if j < i {
                    assert(head[j] == all.take(i as int)[j]);
                }
            }
        }
        live = if i == 0 {
            seen.clone()
        } else {
            vv_meet(&live, seen)
        };
        i += 1;
    }
    assert(all.take(i as int) =~= all);
    Some(live)
}

/// The departed replicas: those whose last event every member has seen, and
/// those that may still come back with events.
fn sort_departed(
    matrix: &MatrixClock,
    live: &VersionVector,
    members: &[NodeId],
    final_dots: &VersionVector,
) -> (r: (Vec<NodeId>, Vec<NodeId>))
    ensures
        texts::texts_of(r.0@).to_set() == obsolete_among(
            departed(matrix@, live@, texts::texts_of(members@)),
            live@,
            final_dots@,
        ),
        texts::texts_of(r.1@).to_set() == pending_among(
            departed(matrix@, live@, texts::texts_of(members@)),
            live@,
            final_dots@,
        ),
{
    let ghost ids = texts::texts_of(members@);
    let ghost gone = departed(matrix@, live@, ids);
    let mut names = matrix.nodes();
    let entries = live.entries();
    let ghost rows = texts::texts_of(names@);
    let mut k: usize = 0;
    while k < entries.len()
        invariant
            k <= entries.len(),
            rows.to_set() == matrix@.dom(),
            texts::texts_of(names@) =~= rows + entries@.take(k as int).map_values(
                |e: (NodeId, u64)| e.0@,
            ),
        decreases entries.len() - k,
    {
        let id = entries[k].0.clone();
        assert(texts::texts_of(names@.push(id)) =~= texts::texts_of(names@).push(id@));
        names.push(id);
        k += 1;
    }
    let ghost named = texts::texts_of(names@);
    let ghost listed = entries@.map_values(|e: (NodeId, u64)| e.0@);
    proof {
        assert(entries@.take(k as int) =~= entries@);
        assert(named =~= rows + listed);
        assert forall|p: Seq<char>| #[trigger]
            named.contains(p) <==> matrix@.contains_key(p) || live@.contains_key(p) by {
            if named.contains(p) {
                let j = choose|j: int| 0 <= j < named.len() && named[j] == p;
                if j < rows.len() {
                    assert(rows[j] == p);
                    assert(rows.to_set().contains(p));
                } else {
                    assert(listed[j - rows.len()] == entries@[j - rows.len()].0@);
                    assert(live@.contains_key(entries@[j - rows.len()].0@));
                }
            }
            if matrix@.contains_key(p) {
                assert(rows.to_set().contains(p));
                let j = choose|j: int| 0 <= j < rows.len() && rows[j] == p;
                assert(named[j] == p);
            }
            if live@.contains_key(p) {
                let j = choose|j: int|
                    0 <= j < entries@.len() && (#[trigger] entries@[j]).0@ == p;
                assert(named[rows.len() + j] == p);
            }
        }
    }
    let mut obsolete: Vec<NodeId> = Vec::new();
    let mut pending: Vec<NodeId> = Vec::new();
    let mut i: usize = 0;
    proof {
        assert(texts::texts_of(obsolete@).to_set() =~= obsolete_among(gone, live@, final_dots@)
            .intersect(named.take(0).to_set()));
        assert(texts::texts_of(pending@).to_set() =~= pending_among(gone, live@, final_dots@)
            .intersect(named.take(0).to_set()));
    }
    while i < names.len()
        invariant
            i <= names.len(),
            named == texts::texts_of(names@),
            ids == texts::texts_of(members@),
            gone == departed(matrix@, live@, ids),
            forall|p: Seq<char>| #[trigger]
                named.contains(p) <==> matrix@.contains_key(p) || live@.contains_key(p),
            texts::texts_of(obsolete@).to_set() == obsolete_among(gone, live@, final_dots@)
                .intersect(named.take(i as int).to_set()),
            texts::texts_of(pending@).to_set() == pending_among(gone, live@, final_dots@).intersect(
                named.take(i as int).to_set(),
            ),
        decreases names.len() - i,
    {
        let ghost p = named[i as int];
        proof {
            assert(named.take(i + 1) =~= named.take(i as int).push(p));
            seqs::lemma_push_to_set(named.take(i as int), p);
            assert(named.contains(p));
            assert(p == names@[i as int]@);
        }
        if !has_text(members, names[i].as_str()) {
            let id = names[i].clone();
            let last = final_dots.get(&names[i]);
            let seen = live.get(&names[i]);
            let settled: bool = match (last, seen) {
                (Some(a), Some(b)) => a == b,
                (None, None) => true,
                _ => false,
            };
            assert(settled == (final_dots@.get(p) == live@.get(p)));
            if settled {
                proof {
                    assert(texts::texts_of(obsolete@.push(id)) =~= texts::texts_of(
                        obsolete@,
                    ).push(p));
                    seqs::lemma_push_to_set(texts::texts_of(obsolete@), p);
                }
                obsolete.push(id);
            } else {
                proof {
                    assert(texts::texts_of(pending@.push(id)) =~= texts::texts_of(pending@).push(
                        p,
                    ));
                    seqs::lemma_push_to_set(texts::texts_of(pending@), p);
                }
                pending.push(id);
            }
        }
        proof {
            assert(texts::texts_of(obsolete@).to_set() =~= obsolete_among(gone, live@, final_dots@)
                .intersect(named.take(i + 1).to_set()));
            assert(texts::texts_of(pending@).to_set() =~= pending_among(gone, live@, final_dots@)
                .intersect(named.take(i + 1).to_set()));
        }
        i += 1;
    }
    proof {
        assert(named.take(i as int) =~= named);
        assert forall|p: Seq<char>| gone.contains(p) implies named.to_set().contains(p) by {
            assert(named.contains(p));
        }
        assert(obsolete_among(gone, live@, final_dots@).intersect(named.to_set())
            =~= obsolete_among(gone, live@, final_dots@));
        assert(pending_among(gone, live@, final_dots@).intersect(named.to_set()) =~= pending_among(
            gone,
            live@,
            final_dots@,
        ));
    }
    (obsolete, pending)
}

/// The stable timestamp as replica `node` sees it, and the departed replicas
/// to forget.
pub fn compute_stable_timestamp(
    matrix: &MatrixClock,
    node: &NodeId,
    members: &[NodeId],
    final_dots: &VersionVector,
    own: &VersionVector,
) -> (r: (VersionVector, Vec<NodeId>))
    ensures
        is_stable_timestamp(
            matrix@,
            node@,
            own@,
            texts::texts_of(members@),
            final_dots@,
            r.0@,
            texts::texts_of(r.1@).to_set(),
        ),
{
    let live = match meet_of_members(matrix, node, own, members) {
        Some(live) => live,
        None => {
            let none: Vec<NodeId> = Vec::new();
            assert(texts::texts_of(none@).to_set() =~= Set::<Seq<char>>::empty());
            return (VersionVector::new(), none);
        },
    };
    let (obsolete, pending) = sort_departed(matrix, &live, members, final_dots);
    let ghost waiting = texts::texts_of(pending@);
    let mut v = live.clone();
    proof {
        assert(waiting.take(0).to_set() =~= Set::<Seq<char>>::empty());
        assert(lowered(v@, live@, matrix@, waiting.take(0).to_set())) by {
            assert forall|p: Seq<char>| !counts(matrix@, waiting.take(0).to_set(), p) by {}
        }
    }
    let mut i: usize = 0;
    while i < pending.len()
        invariant
            i <= pending.len(),
            waiting == texts::texts_of(pending@),
            lowered(v@, live@, matrix@, waiting.take(i as int).to_set()),
        decreases pending.len() - i,
    {
        proof {
            let p = waiting[i as int];
            assert(waiting.take(i + 1) =~= waiting.take(i as int).push(p));
            seqs::lemma_push_to_set(waiting.take(i as int), p);
            lemma_lowered_step(v@, live@, matrix@, waiting.take(i as int).to_set(), p);
            assert(p == pending@[i as int]@);
        }
        if let Some(row) = matrix.row(&pending[i]) {
            v = vv_meet(&v, row);
        }
        i += 1;
    }
    assert(waiting.take(i as int) =~= waiting);
    (v, obsolete)
}

/// What is stable has been seen by every member.
pub proof fn law_stable_seen_by_members(
    matrix: MatrixModel,
    node: Seq<char>,
    own: ClockModel,
    members: Seq<Seq<char>>,
    final_dots: ClockModel,
    v: ClockModel,
    obsolete: Set<Seq<char>>,
    d: DotModel,
    i: int,
)
    requires
        is_stable_timestamp(matrix, node, own, members, final_dots, v, obsolete),
        dots::covers(v, d),
        d.counter > 0,
        0 <= i < members.len(),
    ensures
        seen_by(matrix, node, own, members[i]) is Some,
        dots::covers(seen_by(matrix, node, own, members[i])->0, d),
{
    assert(v.contains_key(d.node_id));
    let live = members_meet(matrix, node, own, members);
    assert(live.contains_key(d.node_id) && v[d.node_id] <= live[d.node_id]);
    lemma_meet_below(matrix, node, own, members, i, d.node_id);
}

proof fn lemma_meet_below(
    matrix: MatrixModel,
    node: Seq<char>,
    own: ClockModel,
    members: Seq<Seq<char>>,
    i: int,
    n: Seq<char>,
)
    requires
        all_known(matrix, node, own, members),
        0 <= i < members.len(),
        members_meet(matrix, node, own, members).contains_key(n),
    ensures
        seen_by(matrix, node, own, members[i])->0.contains_key(n),
        members_meet(matrix, node, own, members)[n] <= seen_by(matrix, node, own, members[i])->0[n],
    decreases members.len(),
{
    let rest = members.drop_last();
    if members.len() > 1 && i < members.len() - 1 {
        assert forall|j: int| 0 <= j < rest.len() implies seen_by(
            matrix,
            node,
            own,
            #[trigger] rest[j],
        ) is Some by {
            assert(rest[j] == members[j]);
        }
        assert(rest[i] == members[i]);
        lemma_meet_below(matrix, node, own, rest, i, n);
    }
}

/// What is stable has been seen by every departed replica that is not yet to
/// be forgotten and of which it is known what it has seen.
pub proof fn law_stable_seen_by_pending(
    matrix: MatrixModel,
    node: Seq<char>,
    own: ClockModel,
    members: Seq<Seq<char>>,
    final_dots: ClockModel,
    v: ClockModel,
    obsolete: Set<Seq<char>>,
    d: DotModel,
    p: Seq<char>,
)
    requires
        is_stable_timestamp(matrix, node, own, members, final_dots, v, obsolete),
        dots::covers(v, d),
        d.counter > 0,
        matrix.contains_key(p),
        !members.contains(p),
        !obsolete.contains(p),
    ensures
        dots::covers(matrix[p], d),
{
    assert(v.contains_key(d.node_id));
    let live = members_meet(matrix, node, own, members);
    let gone = departed(matrix, live, members);
    assert(gone.contains(p));
    assert(counts(matrix, pending_among(gone, live, final_dots), p));
}

/// No member is ever to be forgotten.
pub proof fn law_members_not_obsolete(
    matrix: MatrixModel,
    node: Seq<char>,
    own: ClockModel,
    members: Seq<Seq<char>>,
    final_dots: ClockModel,
    v: ClockModel,
    obsolete: Set<Seq<char>>,
    p: Seq<char>,
)
    requires
        is_stable_timestamp(matrix, node, own, members, final_dots, v, obsolete),
        members.contains(p),
    ensures
        !obsolete.contains(p),
{
}

/// What a replica has seen is told by its own clock at the replica itself, and
/// by its row of the matrix elsewhere.
pub proof fn law_seen_by_own_clock_or_row(
    matrix: MatrixModel,
    node: Seq<char>,
    own: ClockModel,
    p: Seq<char>,
)
    ensures
        p == node ==> seen_by(matrix, node, own, p) == Some(own),
        p != node && matrix.contains_key(p) ==> seen_by(matrix, node, own, p) == Some(matrix[p]),
        p != node && !matrix.contains_key(p) ==> seen_by(matrix, node, own, p) is None,
{
}

/// The minimum over the members mentions just what each of them mentions, with
/// a counter that some member has and none is below.
proof fn lemma_meet_is_minimum(
    matrix: MatrixModel,
    node: Seq<char>,
    own: ClockModel,
    members: Seq<Seq<char>>,
    n: Seq<char>,
)
    requires
        all_known(matrix, node, own, members),
        members.len() > 0,
    ensures
        members_meet(matrix, node, own, members).contains_key(n) <==> (forall|i: int|
            0 <= i < members.len() ==> seen_by(
                matrix,
                node,
                own,
                #[trigger] members[i],
            )->0.contains_key(n)),
        members_meet(matrix, node, own, members).contains_key(n) ==> exists|i: int|
            0 <= i < members.len() && members_meet(matrix, node, own, members)[n] == seen_by(
                matrix,
                node,
                own,
                #[trigger] members[i],
            )->0[n],
    decreases members.len(),
{
    let all = members_meet(matrix, node, own, members);
    if members.len() == 1 {
        assert(all == seen_by(matrix, node, own, members[0])->0);
    } else {
        let rest = members.drop_last();
        assert forall|j: int| 0 <= j < rest.len() implies seen_by(
            matrix,
            node,
            own,
            #[trigger] rest[j],
        ) is Some by {
            assert(rest[j] == members[j]);
        }
        lemma_meet_is_minimum(matrix, node, own, rest, n);
        let fewer = members_meet(matrix, node, own, rest);
        let last = members.len() - 1;
        assert(members[last] == members.last());
        if all.contains_key(n) {
            assert forall|i: int| 0 <= i < members.len() implies seen_by(
                matrix,
                node,
                own,
                #[trigger] members[i],
            )->0.contains_key(n) by {
                if i < last {
                    assert(rest[i] == members[i]);
                }
            }
            if all[n] == fewer[n] {
                let i = choose|i: int|
                    0 <= i < rest.len() && fewer[n] == seen_by(
                        matrix,
                        node,
                        own,
                        #[trigger] rest[i],
                    )->0[n];
                assert(rest[i] == members[i]);
            }
        }
        if forall|i: int|
            0 <= i < members.len() ==> seen_by(
                matrix,
                node,
                own,
                #[trigger] members[i],
            )->0.contains_key(n) {
            assert forall|i: int| 0 <= i < rest.len() implies seen_by(
                matrix,
                node,
                own,
                #[trigger] rest[i],
            )->0.contains_key(n) by {
                assert(rest[i] == members[i]);
            }
            assert(seen_by(matrix, node, own, members[last])->0.contains_key(n));
        }
    }
}

/// While of some member it is not known what it has seen, nothing is stable
/// and nobody is to be forgotten.
pub proof fn law_unknown_member_holds_all_back(
    matrix: MatrixModel,
    node: Seq<char>,
    own: ClockModel,
    members: Seq<Seq<char>>,
    final_dots: ClockModel,
    v: ClockModel,
    obsolete: Set<Seq<char>>,
    i: int,
)
    requires
        is_stable_timestamp(matrix, node, own, members, final_dots, v, obsolete),
        0 <= i < members.len(),
        members[i] != node,
        !matrix.contains_key(members[i]),
    ensures
        forall|n: Seq<char>| !v.contains_key(n),
        forall|p: Seq<char>| !obsolete.contains(p),
{
    assert(seen_by(matrix, node, own, members[i]) is None);
}

/// What every member has seen, and every departed replica that is not yet to
/// be forgotten, is stable.
pub proof fn law_seen_by_all_is_stable(
    matrix: MatrixModel,
    node: Seq<char>,
    own: ClockModel,
    members: Seq<Seq<char>>,
    final_dots: ClockModel,
    v: ClockModel,
    obsolete: Set<Seq<char>>,
    d: DotModel,
)
    requires
        is_stable_timestamp(matrix, node, own, members, final_dots, v, obsolete),
        members.len() > 0,
        forall|i: int|
            0 <= i < members.len() ==> seen_by(matrix, node, own, #[trigger] members[i]) is Some
                && dots::covers(seen_by(matrix, node, own, members[i])->0, d),
        forall|p: Seq<char>| #[trigger]
            matrix.contains_key(p) && !members.contains(p) && !obsolete.contains(p)
                ==> dots::covers(matrix[p], d),
    ensures
        dots::covers(v, d),
{
    if d.counter > 0 {
        let n = d.node_id;
        let live = members_meet(matrix, node, own, members);
        let gone = departed(matrix, live, members);
        let pending = pending_among(gone, live, final_dots);
        lemma_meet_is_minimum(matrix, node, own, members, n);
        assert forall|i: int| 0 <= i < members.len() implies seen_by(
            matrix,
            node,
            own,
            #[trigger] members[i],
        )->0.contains_key(n) by {
            assert(dots::covers(seen_by(matrix, node, own, members[i])->0, d));
        }
        assert(live.contains_key(n));
        let i = choose|i: int|
            0 <= i < members.len() && live[n] == seen_by(
                matrix,
                node,
                own,
                #[trigger] members[i],
            )->0[n];
        assert(dots::covers(seen_by(matrix, node, own, members[i])->0, d));
        assert(d.counter <= live[n]);
        assert forall|p: Seq<char>| #[trigger] counts(matrix, pending, p) implies dots::covers(
            matrix[p],
            d,
        ) && matrix[p].contains_key(n) by {
            assert(gone.contains(p));
            assert(!obsolete.contains(p));
            assert(matrix.contains_key(p));
        }
        assert(v.contains_key(n)) by {
            assert forall|p: Seq<char>| counts(matrix, pending, p) implies (
            #[trigger] matrix[p]).contains_key(n) by {
                assert(counts(matrix, pending, p));
            }
        }
        if v[n] != live[n] {
            let p = choose|p: Seq<char>|
                counts(matrix, pending, p) && v[n] == (#[trigger] matrix[p])[n];
            assert(counts(matrix, pending, p));
            assert(dots::covers(matrix[p], d));
        }
    }
}

/// A replica is to be forgotten just when it is no member and its last event,
/// as it was left behind, is how far the members have come: the least that any
/// of them has seen of it; or when it left nothing behind, has a row, and some
/// member has seen nothing of it.
pub proof fn law_obsolete_when_all_saw_the_last_event(
    matrix: MatrixModel,
    node: Seq<char>,
    own: ClockModel,
    members: Seq<Seq<char>>,
    final_dots: ClockModel,
    v: ClockModel,
    obsolete: Set<Seq<char>>,
    p: Seq<char>,
)
    requires
        is_stable_timestamp(matrix, node, own, members, final_dots, v, obsolete),
        members.len() > 0,
        forall|i: int|
            0 <= i < members.len() ==> seen_by(matrix, node, own, #[trigger] members[i]) is Some,
    ensures
        obsolete.contains(p) <==> !members.contains(p) && {
            ||| final_dots.contains_key(p) && (forall|i: int|
                0 <= i < members.len() ==> seen_by(
                    matrix,
                    node,
                    own,
                    #[trigger] members[i],
                )->0.contains_key(p) && final_dots[p] <= seen_by(
                    matrix,
                    node,
                    own,
                    members[i],
                )->0[p]) && (exists|i: int|
                0 <= i < members.len() && final_dots[p] == seen_by(
                    matrix,
                    node,
                    own,
                    #[trigger] members[i],
                )->0[p])
            ||| !final_dots.contains_key(p) && matrix.contains_key(p) && (exists|i: int|
                0 <= i < members.len() && !seen_by(
                    matrix,
                    node,
                    own,
                    #[trigger] members[i],
                )->0.contains_key(p))
        },
{
    let live = members_meet(matrix, node, own, members);
    lemma_meet_is_minimum(matrix, node, own, members, p);
    if live.contains_key(p) {
        assert forall|i: int| 0 <= i < members.len() implies seen_by(
            matrix,
            node,
            own,
            #[trigger] members[i],
        )->0.contains_key(p) && live[p] <= seen_by(matrix, node, own, members[i])->0[p] by {
            lemma_meet_below(matrix, node, own, members, i, p);
        }
        let i = choose|i: int|
            0 <= i < members.len() && live[p] == seen_by(
                matrix,
                node,
                own,
                #[trigger] members[i],
            )->0[p];
        if final_dots.contains_key(p) && (forall|j: int|
            0 <= j < members.len() ==> seen_by(
                matrix,
                node,
                own,
                #[trigger] members[j],
            )->0.contains_key(p) && final_dots[p] <= seen_by(matrix, node, own, members[j])->0[p])
            && (exists|j: int|
            0 <= j < members.len() && final_dots[p] == seen_by(
                matrix,
                node,
                own,
                #[trigger] members[j],
            )->0[p]) {
            assert(final_dots[p] <= seen_by(matrix, node, own, members[i])->0[p]);
            assert(final_dots[p] == live[p]);
        }
    }
}

} // verus!
