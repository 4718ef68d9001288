//! Reconciliation: which peers to connect to, and which to leave.

use vstd::prelude::*;

use crate::common::NodeId;
use crate::node_map;
use crate::node_map::NodeMap;
use crate::seqs;
use crate::text as texts;
use crate::text::{has_text, text_precedes};

verus! {

/// Where the replicas on a list are, the later entries winning.
pub open spec fn addresses(list: Seq<(NodeId, String)>) -> Map<Seq<char>, Seq<char>>
    decreases list.len(),
{
    if list.len() == 0 {
        Map::empty()
    } else {
        addresses(list.drop_last()).insert(list.last().0@, list.last().1@)
    }
}

/// Is the peer to be connected to? Of two replicas only the one whose
/// identifier comes first connects.
pub open spec fn is_missing(
    own: Seq<char>,
    desired: Map<Seq<char>, Seq<char>>,
    current: Seq<Seq<char>>,
    n: Seq<char>,
) -> bool {
    desired.contains_key(n) && !current.contains(n) && !texts::precedes(n, own)
}

/// Has the peer departed?
pub open spec fn has_departed(
    desired: Map<Seq<char>, Seq<char>>,
    current: Seq<Seq<char>>,
    n: Seq<char>,
) -> bool {
    current.contains(n) && !desired.contains_key(n)
}

/// What is to be done so that the connections match who is there.
pub struct Reconciliation {
    /// The peers to connect to, with their addresses.
    pub connect: Vec<(NodeId, String)>,
    /// The peers to disconnect from.
    pub disconnect: Vec<NodeId>,
}

impl Reconciliation {
    /// Each missing peer is on the one list once, with its address, and each
    /// departed one on the other.
    pub open spec fn settles(
        self,
        own: Seq<char>,
        desired: Map<Seq<char>, Seq<char>>,
        current: Seq<Seq<char>>,
    ) -> bool {
        &&& node_map::distinct_keys(self.connect@)
        &&& forall|i: int|
            0 <= i < self.connect@.len() ==> is_missing(
                own,
                desired,
                current,
                (#[trigger] self.connect@[i]).0@,
            ) && self.connect@[i].1@ == desired[self.connect@[i].0@]
        &&& forall|n: Seq<char>| #[trigger]
            is_missing(own, desired, current, n) ==> exists|i: int|
                0 <= i < self.connect@.len() && (#[trigger] self.connect@[i]).0@ == n
        &&& texts::texts_of(self.disconnect@).no_duplicates()
        &&& forall|n: Seq<char>|
            texts::texts_of(self.disconnect@).contains(n) <==> #[trigger] has_departed(
                desired,
                current,
                n,
            )
    }
}

/// The texts in a map.
pub open spec fn text_values(m: Map<Seq<char>, String>) -> Map<Seq<char>, Seq<char>> {
    Map::new(|n: Seq<char>| m.contains_key(n), |n: Seq<char>| m[n]@)
}

fn addresses_of(list: &Vec<(NodeId, String)>) -> (r: NodeMap<String>)
    ensures
        text_values(r@) == addresses(list@),
{
    let mut r: NodeMap<String> = NodeMap::new();
    assert(text_values(r@) =~= addresses(list@.take(0)));
    let mut i: usize = 0;
    while i < list.len()
        invariant
            i <= list.len(),
            text_values(r@) == addresses(list@.take(i as int)),
        decreases list.len() - i,
    {
        let ghost before = r@;
        assert(list@.take(i + 1).drop_last() =~= list@.take(i as int));
        r.insert(list[i].0.clone(), list[i].1.clone());
        assert(text_values(r@) =~= text_values(before).insert(
            list@[i as int].0@,
            list@[i as int].1@,
        ));
        i += 1;
    }
    assert(list@.take(i as int) =~= list@);
    r
}

/// The missing peers among the replicas that are there.
fn missing_peers(own: &NodeId, desired: &NodeMap<String>, current: &Vec<NodeId>) -> (r: Vec<
    (NodeId, String),
>)
    ensures
        node_map::distinct_keys(r@),
        forall|i: int|
            0 <= i < r@.len() ==> is_missing(
                own@,
                text_values(desired@),
                texts::texts_of(current@),
                (#[trigger] r@[i]).0@,
            ) && r@[i].1@ == text_values(desired@)[r@[i].0@],
        forall|n: Seq<char>| #[trigger]
            is_missing(own@, text_values(desired@), texts::texts_of(current@), n) ==> exists|
                i: int,
            |
                0 <= i < r@.len() && (#[trigger] r@[i]).0@ == n,
{
    let ghost want = text_values(desired@);
    let ghost have = texts::texts_of(current@);
    let entries = desired.entries();
    let mut r: Vec<(NodeId, String)> = Vec::new();
    let mut i: usize = 0;
    while i < entries.len()
        invariant
            i <= entries.len(),
            node_map::lists_map(entries@, desired@),
            want == text_values(desired@),
            have == texts::texts_of(current@),
            node_map::distinct_keys(r@),
            forall|k: int|
                0 <= k < r@.len() ==> is_missing(own@, want, have, (#[trigger] r@[k]).0@)
                    && r@[k].1@ == want[r@[k].0@],
            forall|k: int|
                0 <= k < r@.len() ==> exists|j: int|
                    0 <= j < i && (#[trigger] entries@[j]).0@ == (#[trigger] r@[k]).0@,
            forall|j: int|
                0 <= j < i && is_missing(own@, want, have, (#[trigger] entries@[j]).0@)
                    ==> exists|k: int| 0 <= k < r@.len() && (#[trigger] r@[k]).0@ == entries@[j].0@,
        decreases entries.len() - i,
    {
        let ghost had = r@;
        let node = &entries[i].0;
        assert(want.contains_key(node@));
        if !has_text(current.as_slice(), node.as_str()) && !text_precedes(
            node.as_str(),
            own.as_str(),
        ) {
            proof {
                assert forall|k: int| 0 <= k < had.len() implies (#[trigger] had[k]).0@
                    != node@ by {
                    let j = choose|j: int| 0 <= j < i && (#[trigger] entries@[j]).0@ == had[k].0@;
                    assert(entries@[j].0@ != entries@[i as int].0@);
                }
            }
            r.push((node.clone(), entries[i].1.clone()));
        }
        proof {
            assert forall|k: int| 0 <= k < r@.len() implies exists|j: int|
                0 <= j < i + 1 && (#[trigger] entries@[j]).0@ == (#[trigger] r@[k]).0@ by {
                if k < had.len() {
                    assert(r@[k] == had[k]);
                    let j = choose|j: int| 0 <= j < i && (#[trigger] entries@[j]).0@ == had[k].0@;
                    assert(entries@[j].0@ == r@[k].0@);
                } else {
                    assert(entries@[i as int].0@ == r@[k].0@);
                }
            }
            assert forall|j: int|
                0 <= j < i + 1 && is_missing(own@, want, have, (#[trigger] entries@[j]).0@)
                implies exists|k: int|
                0 <= k < r@.len() && (#[trigger] r@[k]).0@ == entries@[j].0@ by {
                if j < i {
                    let k = choose|k: int|
                        0 <= k < had.len() && (#[trigger] had[k]).0@ == entries@[j].0@;
                    assert(r@[k].0@ == entries@[j].0@);
                } else {
                    assert(r@[r@.len() - 1].0@ == entries@[j].0@);
                }
            }
        }
        i += 1;
    }
    proof {
        assert forall|n: Seq<char>| #[trigger] is_missing(own@, want, have, n) implies exists|
            k: int,
        |
            0 <= k < r@.len() && (#[trigger] r@[k]).0@ == n by {
            assert(desired@.contains_key(n));
            let j = choose|j: int| 0 <= j < entries@.len() && (#[trigger] entries@[j]).0@ == n;
            assert(is_missing(own@, want, have, entries@[j].0@));
        }
    }
    r
}

/// The departed peers among those connected.
fn departed_peers(desired: &NodeMap<String>, current: &Vec<NodeId>) -> (r: Vec<NodeId>)
    ensures
        texts::texts_of(r@).no_duplicates(),
        forall|n: Seq<char>|
            texts::texts_of(r@).contains(n) <==> #[trigger] has_departed(
                text_values(desired@),
                texts::texts_of(current@),
                n,
            ),
{
    let ghost have = texts::texts_of(current@);
    let mut r: Vec<NodeId> = Vec::new();
    let mut i: usize = 0;
    assert(have.take(0).to_set() =~= Set::empty());
    while i < current.len()
        invariant
            i <= current.len(),
            have == texts::texts_of(current@),
            texts::texts_of(r@).no_duplicates(),
            forall|n: Seq<char>|
                texts::texts_of(r@).contains(n) <==> #[trigger] has_departed(
                    text_values(desired@),
                    have.take(i as int),
                    n,
                ),
        decreases current.len() - i,
    {
        let ghost had = texts::texts_of(r@);
        let ghost node = current@[i as int]@;
        proof {
            assert(have.take(i + 1) =~= have.take(i as int).push(node));
            seqs::lemma_push_to_set(have.take(i as int), node);
        }
        if !desired.contains_node(&current[i]) && !has_text(r.as_slice(), current[i].as_str()) {
            let id = current[i].clone();
            assert(texts::texts_of(r@.push(id)) =~= had.push(id@));
            proof {
                seqs::lemma_push_no_duplicates(had, node);
                seqs::lemma_push_to_set(had, node);
            }
            r.push(id);
        }
        proof {
            assert forall|n: Seq<char>|
                texts::texts_of(r@).contains(n) <==> #[trigger] has_departed(
                    text_values(desired@),
                    have.take(i + 1),
                    n,
                ) by {
                assert(have.take(i + 1).to_set().contains(n) == have.take(i + 1).contains(n));
                assert(have.take(i as int).to_set().contains(n) == have.take(i as int).contains(n));
                assert(texts::texts_of(r@).to_set().contains(n) == texts::texts_of(r@).contains(n));
                assert(had.to_set().contains(n) == had.contains(n));
                assert(had.contains(n) <==> has_departed(
                    text_values(desired@),
                    have.take(i as int),
                    n,
                ));
            }
        }
        i += 1;
    }
    assert(have.take(i as int) =~= have);
    r
}

/// Compare who is connected with who is there.
pub fn reconcile(own: &NodeId, live_peers: &Vec<(NodeId, String)>, current: &Vec<NodeId>) -> (r:
    Reconciliation)
    ensures
        r.settles(own@, addresses(live_peers@), texts::texts_of(current@)),
{
    let desired = addresses_of(live_peers);
    let connect = missing_peers(own, &desired, current);
    let disconnect = departed_peers(&desired, current);
    let r = Reconciliation { connect, disconnect };
    proof {
        let have = texts::texts_of(current@);
        assert forall|n: Seq<char>| #[trigger] is_missing(
            own@,
            addresses(live_peers@),
            have,
            n,
        ) implies exists|i: int| 0 <= i < r.connect@.len() && (#[trigger] r.connect@[i]).0@
            == n by {
            let i = choose|i: int| 0 <= i < connect@.len() && (#[trigger] connect@[i]).0@ == n;
            assert(r.connect@[i].0@ == n);
        }
    }
    r
}

/// Of two replicas that are there and not connected, exactly one connects to
/// the other.
pub proof fn law_one_side_connects(
    a: Seq<char>,
    b: Seq<char>,
    seen_by_a: Map<Seq<char>, Seq<char>>,
    seen_by_b: Map<Seq<char>, Seq<char>>,
    peers_of_a: Seq<Seq<char>>,
    peers_of_b: Seq<Seq<char>>,
)
    requires
        a != b,
        seen_by_a.contains_key(b),
        seen_by_b.contains_key(a),
        !peers_of_a.contains(b),
        !peers_of_b.contains(a),
    ensures
        is_missing(a, seen_by_a, peers_of_a, b) != is_missing(b, seen_by_b, peers_of_b, a),
{
    texts::lemma_precedes_total(a, b);
    texts::lemma_precedes_total(b, a);
}

/// No replica connects to itself.
pub proof fn law_never_own_peer(
    own: Seq<char>,
    desired: Map<Seq<char>, Seq<char>>,
    current: Seq<Seq<char>>,
)
    ensures
        !is_missing(own, desired, current, own),
{
    texts::lemma_precedes_total(own, own);
}

/// Once the missing peers are connected and the departed ones are gone, there
/// is nothing left to do.
pub proof fn law_reconciled_once(
    own: Seq<char>,
    desired: Map<Seq<char>, Seq<char>>,
    current: Seq<Seq<char>>,
    after: Seq<Seq<char>>,
)
    requires
        forall|n: Seq<char>|
            after.contains(n) <==> is_missing(own, desired, current, n) || (current.contains(n)
                && !has_departed(desired, current, n)),
    ensures
        forall|n: Seq<char>| !is_missing(own, desired, after, n),
        forall|n: Seq<char>| !has_departed(desired, after, n),
{
}

/// A list that names each replica once gives each its address.
pub proof fn lemma_addresses(list: Seq<(NodeId, String)>)
    requires
        forall|i: int, j: int|
            0 <= i < j < list.len() ==> (#[trigger] list[i]).0@ != (
            #[trigger] list[j]).0@,
    ensures
        forall|i: int|
            0 <= i < list.len() ==> addresses(list).contains_key((#[trigger] list[i]).0@)
                && addresses(list)[list[i].0@] == list[i].1@,
        forall|n: Seq<char>| #[trigger]
            addresses(list).contains_key(n) ==> exists|i: int|
                0 <= i < list.len() && (#[trigger] list[i]).0@ == n,
    decreases list.len(),
{
    if list.len() > 0 {
        let rest = list.drop_last();
        assert forall|i: int, j: int| 0 <= i < j < rest.len() implies (
        #[trigger] rest[i]).0@ != (#[trigger] rest[j]).0@ by {
            assert(rest[i] == list[i] && rest[j] == list[j]);
        }
        lemma_addresses(rest);
        assert forall|i: int| 0 <= i < list.len() implies addresses(list).contains_key(
            (#[trigger] list[i]).0@,
        ) && addresses(list)[list[i].0@] == list[i].1@ by {
            if i < rest.len() {
                assert(rest[i] == list[i]);
                assert(addresses(rest).contains_key(rest[i].0@));
                assert(list[i].0@ != list[list.len() - 1].0@);
            }
        }
        assert forall|n: Seq<char>| #[trigger] addresses(list).contains_key(n) implies exists|
            i: int,
        |
            0 <= i < list.len() && (#[trigger] list[i]).0@ == n by {
            if n == list.last().0@ {
                assert(list[list.len() - 1].0@ == n);
            } else {
                assert(addresses(rest).contains_key(n));
                let i = choose|i: int| 0 <= i < rest.len() && (#[trigger] rest[i]).0@ == n;
                assert(list[i].0@ == n);
            }
        }
    }
}

/// The replica connects to just those that are there, not yet connected, and
/// come after it by their identifiers, each at its address; it leaves just
/// those that are connected and no longer there.
pub proof fn law_reconciliation_settles_exactly(
    r: Reconciliation,
    own: Seq<char>,
    desired: Map<Seq<char>, Seq<char>>,
    current: Seq<Seq<char>>,
    n: Seq<char>,
)
    requires
        r.settles(own, desired, current),
        n != own,
    ensures
        (exists|i: int| 0 <= i < r.connect@.len() && (#[trigger] r.connect@[i]).0@ == n)
            <==> desired.contains_key(n) && !current.contains(n) && texts::precedes(own, n),
        forall|i: int|
            0 <= i < r.connect@.len() && (#[trigger] r.connect@[i]).0@ == n ==> r.connect@[i].1@
                == desired[n],
        (exists|i: int|
            0 <= i < r.disconnect@.len() && (#[trigger] r.disconnect@[i])@ == n)
            <==> current.contains(n) && !desired.contains_key(n),
        forall|i: int, j: int|
            0 <= i < j < r.connect@.len() ==> (#[trigger] r.connect@[i]).0@ != (
            #[trigger] r.connect@[j]).0@,
        forall|i: int, j: int|
            0 <= i < j < r.disconnect@.len() ==> (#[trigger] r.disconnect@[i])@ != (
            #[trigger] r.disconnect@[j])@,
{
    texts::lemma_precedes_total(own, n);
    let gone = texts::texts_of(r.disconnect@);
    if exists|i: int| 0 <= i < r.connect@.len() && (#[trigger] r.connect@[i]).0@ == n {
        let i = choose|i: int| 0 <= i < r.connect@.len() && (#[trigger] r.connect@[i]).0@ == n;
        assert(is_missing(own, desired, current, r.connect@[i].0@));
    }
    if desired.contains_key(n) && !current.contains(n) && texts::precedes(own, n) {
        assert(is_missing(own, desired, current, n));
    }
    assert(gone.contains(n) <==> has_departed(desired, current, n));
    if gone.contains(n) {
        let i = choose|i: int| 0 <= i < gone.len() && gone[i] == n;
        assert(r.disconnect@[i]@ == n);
    }
    if exists|i: int| 0 <= i < r.disconnect@.len() && (#[trigger] r.disconnect@[i])@ == n {
        let i = choose|i: int| 0 <= i < r.disconnect@.len() && (#[trigger] r.disconnect@[i])@ == n;
        assert(gone[i] == n);
    }
    assert forall|i: int, j: int| 0 <= i < j < r.disconnect@.len() implies (
    #[trigger] r.disconnect@[i])@ != (#[trigger] r.disconnect@[j])@ by {
        assert(gone[i] != gone[j]);
    }
}

/// Of the addresses that a list gives for a replica, the last one holds; a
/// replica that is not on the list has none.
pub proof fn law_last_address_holds(list: Seq<(NodeId, String)>, i: int, n: Seq<char>)
    ensures
        0 <= i < list.len() && (forall|j: int|
            i < j < list.len() ==> (#[trigger] list[j]).0@ != list[i].0@) ==> addresses(
            list,
        ).contains_key(list[i].0@) && addresses(list)[list[i].0@] == list[i].1@,
        addresses(list).contains_key(n) ==> exists|k: int|
            0 <= k < list.len() && (#[trigger] list[k]).0@ == n,
    decreases list.len(),
{
    if list.len() > 0 {
        let rest = list.drop_last();
        let last = list.len() - 1;
        law_last_address_holds(rest, i, n);
        if 0 <= i < last && (forall|j: int|
            i < j < list.len() ==> (#[trigger] list[j]).0@ != list[i].0@) {
            assert(rest[i] == list[i]);
            assert(list[last].0@ != list[i].0@);
            assert forall|j: int| i < j < rest.len() implies (#[trigger] rest[j]).0@
                != rest[i].0@ by {
                assert(rest[j] == list[j]);
            }
        }
        if addresses(list).contains_key(n) {
            if n == list[last].0@ {
                assert(list[last].0@ == n);
            } else {
                assert(addresses(rest).contains_key(n));
                let k = choose|k: int| 0 <= k < rest.len() && (#[trigger] rest[k]).0@ == n;
                assert(list[k].0@ == n);
            }
        }
    }
}

} // verus!
