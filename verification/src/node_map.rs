//! Finite maps keyed by replica identifier.

use vstd::prelude::*;

use crate::common::{same_id, NodeId};

verus! {

/// No replica is listed twice.
pub open spec fn distinct_keys<T>(entries: Seq<(NodeId, T)>) -> bool {
    forall|i: int, j: int|
        0 <= i < j < entries.len() ==> (#[trigger] entries[i]).0@ != (#[trigger] entries[j]).0@
}

/// The list holds each entry of the map once, and nothing else.
pub open spec fn lists_map<T>(entries: Seq<(NodeId, T)>, m: Map<Seq<char>, T>) -> bool {
    &&& distinct_keys(entries)
    &&& forall|i: int|
        0 <= i < entries.len() ==> m.contains_key((#[trigger] entries[i]).0@)
            && m[entries[i].0@] == entries[i].1
    &&& forall|n: Seq<char>| #[trigger]
        m.contains_key(n) ==> exists|i: int|
            0 <= i < entries.len() && (#[trigger] entries[i]).0@ == n
}

/// The map that a list of entries spells out, the later ones winning.
pub open spec fn map_of<T>(entries: Seq<(NodeId, T)>) -> Map<Seq<char>, T>
    decreases entries.len(),
{
    if entries.len() == 0 {
        Map::empty()
    } else {
        map_of(entries.drop_last()).insert(entries.last().0@, entries.last().1)
    }
}

proof fn lemma_map_of<T>(entries: Seq<(NodeId, T)>)
    requires
        distinct_keys(entries),
    ensures
        lists_map(entries, map_of(entries)),
    decreases entries.len(),
{
    let m = map_of(entries);
    if entries.len() > 0 {
        let rest = entries.drop_last();
        let last = entries.last();
        assert(last == entries[entries.len() - 1]);
        assert forall|i: int, j: int| 0 <= i < j < rest.len() implies (#[trigger] rest[i]).0@ != (
        #[trigger] rest[j]).0@ by {
            assert(rest[i] == entries[i] && rest[j] == entries[j]);
        }
        lemma_map_of(rest);
        assert forall|i: int| 0 <= i < entries.len() implies m.contains_key(
            (#[trigger] entries[i]).0@,
        ) && m[entries[i].0@] == entries[i].1 by {
            if i < rest.len() {
                assert(rest[i] == entries[i]);
                assert(map_of(rest).contains_key(rest[i].0@));
            }
        }
        assert forall|n: Seq<char>| #[trigger] m.contains_key(n) implies exists|i: int|
            0 <= i < entries.len() && (#[trigger] entries[i]).0@ == n by {
            if n == last.0@ {
                assert(entries[entries.len() - 1].0@ == n);
            } else {
                assert(map_of(rest).contains_key(n));
                let i = choose|i: int| 0 <= i < rest.len() && (#[trigger] rest[i]).0@ == n;
                assert(entries[i].0@ == n);
            }
        }
    }
}

/// A list determines the map that it lists.
proof fn lemma_lists_unique<T>(
    entries: Seq<(NodeId, T)>,
    a: Map<Seq<char>, T>,
    b: Map<Seq<char>, T>,
)
    requires
        lists_map(entries, a),
        lists_map(entries, b),
    ensures
        a == b,
{
    assert forall|n: Seq<char>| a.contains_key(n) == b.contains_key(n) by {
        if a.contains_key(n) {
            let i = choose|i: int| 0 <= i < entries.len() && (#[trigger] entries[i]).0@ == n;
            assert(b.contains_key(entries[i].0@));
        }
        if b.contains_key(n) {
            let i = choose|i: int| 0 <= i < entries.len() && (#[trigger] entries[i]).0@ == n;
            assert(a.contains_key(entries[i].0@));
        }
    }
    assert forall|n: Seq<char>| a.contains_key(n) implies a[n] == b[n] by {
        let i = choose|i: int| 0 <= i < entries.len() && (#[trigger] entries[i]).0@ == n;
        assert(a[entries[i].0@] == b[entries[i].0@]);
    }
    assert(a =~= b);
}

/// A list without repetitions spells out the map that it lists.
pub proof fn lemma_spelled_out<T>(entries: Seq<(NodeId, T)>, m: Map<Seq<char>, T>)
    requires
        lists_map(entries, m),
    ensures
        map_of(entries) == m,
{
    lemma_map_of(entries);
    lemma_lists_unique(entries, map_of(entries), m);
}

/// Spelling out one more entry.
pub proof fn lemma_next_entry<T>(entries: Seq<(NodeId, T)>, i: int)
    requires
        distinct_keys(entries),
        0 <= i < entries.len(),
    ensures
        !map_of(entries.take(i)).contains_key(entries[i].0@),
        map_of(entries.take(i + 1)) == map_of(entries.take(i)).insert(
            entries[i].0@,
            entries[i].1,
        ),
{
    let p = entries.take(i);
    assert forall|j: int, k: int| 0 <= j < k < p.len() implies (#[trigger] p[j]).0@ != (
    #[trigger] p[k]).0@ by {
        assert(p[j] == entries[j] && p[k] == entries[k]);
    }
    lemma_map_of(p);
    if map_of(p).contains_key(entries[i].0@) {
        let j = choose|j: int| 0 <= j < p.len() && (#[trigger] p[j]).0@ == entries[i].0@;
        assert(p[j] == entries[j]);
    }
    assert(entries.take(i + 1).drop_last() =~= p);
}

/// A map keyed by replica.
pub struct NodeMap<T> {
    entries: Vec<(NodeId, T)>,
}

impl<T> View for NodeMap<T> {
    type V = Map<Seq<char>, T>;

    closed spec fn view(&self) -> Map<Seq<char>, T> {
        map_of(self.entries@)
    }
}

impl<T> NodeMap<T> {
    #[verifier::type_invariant]
    spec fn listed_once(self) -> bool {
        distinct_keys(self.entries@)
    }

    pub fn new() -> (r: Self)
        ensures
            r@ == Map::<Seq<char>, T>::empty(),
    {
        NodeMap { entries: Vec::new() }
    }

    fn position(&self, node: &NodeId) -> (r: Option<usize>)
        ensures
            match r {
                Some(i) => i < self.entries.len() && self.entries@[i as int].0@ == node@,
                None => !self@.contains_key(node@),
            },
    {
        let mut i: usize = 0;
        while i < self.entries.len()
            invariant
                i <= self.entries.len(),
                forall|j: int| 0 <= j < i ==> (#[trigger] self.entries@[j]).0@ != node@,
            decreases self.entries.len() - i,
        {
            if same_id(&self.entries[i].0, node) {
                return Some(i);
            }
            i += 1;
        }
        proof {
            use_type_invariant(self);
            lemma_map_of(self.entries@);
        }
        None
    }

    /// The value of `node`, if it has one.
    pub fn get(&self, node: &NodeId) -> (r: Option<&T>)
        ensures
            match r {
                Some(v) => self@.contains_key(node@) && self@[node@] == *v,
                None => !self@.contains_key(node@),
            },
    {
        match self.position(node) {
            Some(i) => {
                proof {
                    use_type_invariant(self);
                    lemma_map_of(self.entries@);
                }
                Some(&self.entries[i].1)
            },
            None => None,
        }
    }

    pub fn contains_node(&self, node: &NodeId) -> (r: bool)
        ensures
            r == self@.contains_key(node@),
    {
        self.get(node).is_some()
    }

    /// Set the value of `node`.
    pub fn insert(&mut self, node: NodeId, value: T)
        ensures
            final(self)@ == old(self)@.insert(node@, value),
    {
        proof {
            use_type_invariant(&*self);
            lemma_map_of(self.entries@);
        }
        let ghost before = self.entries@;
        let ghost m = self@.insert(node@, value);
        let pos = self.position(&node);
        let mut entries: Vec<(NodeId, T)> = Vec::new();
        std::mem::swap(&mut entries, &mut self.entries);
        match pos {
            Some(i) => {
                entries.set(i, (node, value));
                proof {
                    assert forall|j: int| 0 <= j < before.len() implies (
                    #[trigger] entries@[j]).0@ == before[j].0@ by {}
                    assert(distinct_keys(entries@));
                    assert forall|n: Seq<char>| #[trigger] m.contains_key(n) implies exists|k: int|
                        0 <= k < entries@.len() && (#[trigger] entries@[k]).0@ == n by {
                        if n == node@ {
                            assert(entries@[i as int].0@ == n);
                        } else {
                            let k = choose|k: int|
                                0 <= k < before.len() && (#[trigger] before[k]).0@ == n;
                            assert(entries@[k].0@ == n);
                        }
                    }
                    lemma_map_of(entries@);
                    lemma_lists_unique(entries@, map_of(entries@), m);
                }
            },
            None => {
                let ghost e = (node, value);
                entries.push((node, value));
                proof {
                    assert(entries@.drop_last() =~= before);
                    assert forall|j: int, k: int| 0 <= j < k < entries@.len() implies (
                    #[trigger] entries@[j]).0@ != (#[trigger] entries@[k]).0@ by {
                        assert(entries@[j] == before[j]);
                        assert(map_of(before).contains_key(before[j].0@));
                    }
                }
            },
        }
        self.entries = entries;
    }

    /// Drop the value of `node`; was there one?
    pub fn remove(&mut self, node: &NodeId) -> (r: bool)
        ensures
            final(self)@ == old(self)@.remove(node@),
            r == old(self)@.contains_key(node@),
    {
        proof {
            use_type_invariant(&*self);
            lemma_map_of(self.entries@);
        }
        let ghost before = self.entries@;
        let ghost m = self@.remove(node@);
        let pos = self.position(node);
        let mut entries: Vec<(NodeId, T)> = Vec::new();
        std::mem::swap(&mut entries, &mut self.entries);
        match pos {
            Some(i) => {
                entries.remove(i);
                proof {
                    assert forall|j: int| 0 <= j < entries@.len() implies #[trigger] entries@[j] == (
                    if j < i {
                        before[j]
                    } else {
                        before[j + 1]
                    }) by {}
                    assert forall|n: Seq<char>| #[trigger] m.contains_key(n) implies exists|k: int|
                        0 <= k < entries@.len() && (#[trigger] entries@[k]).0@ == n by {
                        let k = choose|k: int|
                            0 <= k < before.len() && (#[trigger] before[k]).0@ == n;
                        assert(k != i);
                        if k < i {
                            assert(entries@[k].0@ == n);
                        } else {
                            assert(entries@[k - 1].0@ == n);
                        }
                    }
                    assert(distinct_keys(entries@));
                    lemma_map_of(entries@);
                    lemma_lists_unique(entries@, map_of(entries@), m);
                    assert(before[i as int].0@ == node@);
                }
                self.entries = entries;
                true
            },
            None => {
                assert(m =~= map_of(before));
                self.entries = entries;
                false
            },
        }
    }

    /// The entries, each once, in no particular order.
    pub fn entries(&self) -> (r: &Vec<(NodeId, T)>)
        ensures
            lists_map(r@, self@),
    {
        proof {
            use_type_invariant(self);
            lemma_map_of(self.entries@);
        }
        &self.entries
    }
}

} // verus!
