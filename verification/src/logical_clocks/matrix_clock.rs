//! Matrix clocks: what each replica is known to have seen.

use vstd::prelude::*;
use vstd::string::StringExecFns;

use crate::common::{ClockModel, MatrixModel, NodeId};
use crate::crdt::text_codec;
use crate::crdt::text_codec::debug_string;
use crate::crdt::ElementCodec;
use crate::logical_clocks::version_vector as clocks;
use crate::logical_clocks::version_vector::{vv_join, VersionVector};
use crate::node_map;
use crate::node_map::NodeMap;
use crate::numbers;
use crate::numbers::decimal;
use crate::seqs;
use crate::text as texts;
use crate::text::join_texts;

verus! {

/// The rows of either matrix; where both have one, the join of the two.
pub open spec fn matrix_join(m: MatrixModel, k: MatrixModel) -> MatrixModel {
    Map::new(
        |n: Seq<char>| m.contains_key(n) || k.contains_key(n),
        |n: Seq<char>|
            if m.contains_key(n) && k.contains_key(n) {
                clocks::join(k[n], m[n])
            } else if k.contains_key(n) {
                k[n]
            } else {
                m[n]
            },
    )
}

/// The matrix without what any row says of `node`.
pub open spec fn without_column(m: MatrixModel, node: Seq<char>) -> MatrixModel {
    Map::new(|n: Seq<char>| m.contains_key(n), |n: Seq<char>| m[n].remove(node))
}

/// The clocks in a map of version vectors.
pub open spec fn clock_rows(rows: Map<Seq<char>, VersionVector>) -> MatrixModel {
    Map::new(|n: Seq<char>| rows.contains_key(n), |n: Seq<char>| rows[n]@)
}

/// A matrix clock.
pub struct MatrixClock {
    rows: NodeMap<VersionVector>,
}

impl View for MatrixClock {
    type V = MatrixModel;

    closed spec fn view(&self) -> MatrixModel {
        clock_rows(self.rows@)
    }
}

impl Clone for MatrixClock {
    fn clone(&self) -> (r: Self)
        ensures
            r@ == self@,
    {
        let mut r = MatrixClock::new();
        let entries = self.rows.entries();
        assert(r@ =~= clock_rows(node_map::map_of(entries@.take(0))));
        let mut i: usize = 0;
        while i < entries.len()
            invariant
                i <= entries.len(),
                node_map::distinct_keys(entries@),
                r@ == clock_rows(node_map::map_of(entries@.take(i as int))),
            decreases entries.len() - i,
        {
            proof {
                node_map::lemma_next_entry(entries@, i as int);
            }
            r.set_row(entries[i].0.clone(), entries[i].1.clone());
            assert(r@ =~= clock_rows(node_map::map_of(entries@.take(i + 1))));
            i += 1;
        }
        proof {
            assert(entries@.take(i as int) =~= entries@);
            node_map::lemma_spelled_out(entries@, self.rows@);
        }
        r
    }
}

impl MatrixClock {
    /// The matrix without rows.
    pub fn new() -> (r: Self)
        ensures
            r@ == Map::<Seq<char>, ClockModel>::empty(),
    {
        let r = MatrixClock { rows: NodeMap::new() };
        assert(r@ =~= Map::<Seq<char>, ClockModel>::empty());
        r
    }

    /// What `node` is known to have seen, if anything is known of it.
    pub fn row(&self, node: &NodeId) -> (r: Option<&VersionVector>)
        ensures
            match r {
                Some(v) => self@.contains_key(node@) && self@[node@] == v@,
                None => !self@.contains_key(node@),
            },
    {
        self.rows.get(node)
    }

    /// Set what `node` is known to have seen.
    pub fn set_row(&mut self, node: NodeId, clock: VersionVector)
        ensures
            final(self)@ == old(self)@.insert(node@, clock@),
    {
        let ghost before = self@;
        self.rows.insert(node, clock);
        assert(self@ =~= before.insert(node@, clock@));
    }

    /// Forget what `node` is known to have seen.
    pub fn remove_row(&mut self, node: &NodeId)
        ensures
            final(self)@ == old(self)@.remove(node@),
    {
        let ghost before = self@;
        self.rows.remove(node);
        assert(self@ =~= before.remove(node@));
    }

    /// Forget what is known to have been seen of `node`.
    pub fn remove_column(&mut self, node: &NodeId)
        ensures
            final(self)@ == without_column(old(self)@, node@),
    {
        let ghost before = self@;
        let mut r: NodeMap<VersionVector> = NodeMap::new();
        let entries = self.rows.entries();
        assert(clock_rows(r@) =~= without_column(
            clock_rows(node_map::map_of(entries@.take(0))),
            node@,
        ));
        let mut i: usize = 0;
        while i < entries.len()
            invariant
                i <= entries.len(),
                node_map::distinct_keys(entries@),
                clock_rows(r@) == without_column(
                    clock_rows(node_map::map_of(entries@.take(i as int))),
                    node@,
                ),
            decreases entries.len() - i,
        {
            let ghost done = clock_rows(r@);
            proof {
                node_map::lemma_next_entry(entries@, i as int);
            }
            let mut clock = entries[i].1.clone();
            clock.remove(node);
            let ghost value = clock@;
            r.insert(entries[i].0.clone(), clock);
            proof {
                assert(clock_rows(r@) =~= done.insert(entries@[i as int].0@, value));
                assert(clock_rows(r@) =~= without_column(
                    clock_rows(node_map::map_of(entries@.take(i + 1))),
                    node@,
                ));
            }
            i += 1;
        }
        proof {
            assert(entries@.take(i as int) =~= entries@);
            node_map::lemma_spelled_out(entries@, self.rows@);
        }
        self.rows = r;
    }

    /// Learn what another matrix knows.
    pub fn raise(&mut self, other: &MatrixClock)
        ensures
            final(self)@ == matrix_join(old(self)@, other@),
    {
        let ghost before = self@;
        let entries = other.rows.entries();
        assert(self@ =~= matrix_join(before, clock_rows(node_map::map_of(entries@.take(0)))));
        let mut i: usize = 0;
        while i < entries.len()
            invariant
                i <= entries.len(),
                node_map::distinct_keys(entries@),
                self@ == matrix_join(before, clock_rows(node_map::map_of(entries@.take(i as int)))),
            decreases entries.len() - i,
        {
            let ghost p = clock_rows(node_map::map_of(entries@.take(i as int)));
            let ghost n = entries@[i as int].0@;
            proof {
                node_map::lemma_next_entry(entries@, i as int);
                assert(clock_rows(node_map::map_of(entries@.take(i + 1))) =~= p.insert(
                    n,
                    entries@[i as int].1@,
                ));
            }
            let clock = match self.row(&entries[i].0) {
                Some(known) => vv_join(&entries[i].1, known),
                None => entries[i].1.clone(),
            };
            self.set_row(entries[i].0.clone(), clock);
            assert(self@ =~= matrix_join(before, p.insert(n, entries@[i as int].1@)));
            i += 1;
        }
        proof {
            assert(entries@.take(i as int) =~= entries@);
            node_map::lemma_spelled_out(entries@, other.rows@);
        }
    }

    /// The rows of these replicas.
    pub fn rows_of(&self, nodes: &Vec<NodeId>) -> (r: MatrixClock)
        ensures
            r@ == self@.restrict(texts::texts_of(nodes@).to_set()),
    {
        let mut r = MatrixClock::new();
        let ghost ids = texts::texts_of(nodes@);
        assert(r@ =~= self@.restrict(ids.take(0).to_set()));
        let mut i: usize = 0;
        while i < nodes.len()
            invariant
                i <= nodes.len(),
                ids == texts::texts_of(nodes@),
                r@ == self@.restrict(ids.take(i as int).to_set()),
            decreases nodes.len() - i,
        {
            proof {
                assert(ids.take(i + 1) =~= ids.take(i as int).push(ids[i as int]));
                seqs::lemma_push_to_set(ids.take(i as int), ids[i as int]);
            }
            if let Some(clock) = self.row(&nodes[i]) {
                r.set_row(nodes[i].clone(), clock.clone());
            }
            assert(r@ =~= self@.restrict(ids.take(i + 1).to_set()));
            i += 1;
        }
        assert(ids.take(i as int) =~= ids);
        r
    }

    /// The replicas that have a row, each once, in no particular order.
    pub fn nodes(&self) -> (r: Vec<NodeId>)
        ensures
            texts::texts_of(r@).no_duplicates(),
            texts::texts_of(r@).to_set() == self@.dom(),
    {
        let entries = self.rows.entries();
        let mut r: Vec<NodeId> = Vec::new();
        let mut i: usize = 0;
        while i < entries.len()
            invariant
                i <= entries.len(),
                r.len() == i,
                forall|j: int| 0 <= j < i ==> (#[trigger] r@[j])@ == entries@[j].0@,
            decreases entries.len() - i,
        {
            r.push(entries[i].0.clone());
            i += 1;
        }
        proof {
            let ids = texts::texts_of(r@);
            assert forall|j: int, k: int| 0 <= j < k < ids.len() implies ids[j] != ids[k] by {
                assert(r@[j]@ == entries@[j].0@ && r@[k]@ == entries@[k].0@);
            }
            assert forall|n: Seq<char>| ids.to_set().contains(n) == self@.dom().contains(n) by {
                if ids.contains(n) {
                    let j = choose|j: int| 0 <= j < ids.len() && ids[j] == n;
                    assert(r@[j]@ == entries@[j].0@);
                    assert(self.rows@.contains_key(entries@[j].0@));
                }
                if self@.contains_key(n) {
                    assert(self.rows@.contains_key(n));
                    let j = choose|j: int|
                        0 <= j < entries@.len() && (#[trigger] entries@[j]).0@ == n;
                    assert(r@[j]@ == n);
                    assert(ids[j] == n);
                }
            }
            assert(ids.to_set() =~= self@.dom());
        }
        r
    }
}

// ── Printing ────────────────────────────────────────────────────────────

/// A list of printed pairs in braces.
pub open spec fn braced(pairs: Seq<(Seq<char>, Seq<char>)>) -> Seq<char> {
    "{"@ + texts::joined(
        pairs.map_values(
            |p: (Seq<char>, Seq<char>)| text_codec::debug_text(p.0) + ": "@ + p.1,
        ),
        ", "@,
    ) + "}"@
}

/// The list names each replica of the set once, and nothing else.
pub open spec fn names_once(
    pairs: Seq<(Seq<char>, Seq<char>)>,
    nodes: Set<Seq<char>>,
) -> bool {
    &&& pairs.map_values(|p: (Seq<char>, Seq<char>)| p.0).no_duplicates()
    &&& pairs.map_values(|p: (Seq<char>, Seq<char>)| p.0).to_set() == nodes
}

/// Is `text` the clock with its entries in some order?
pub open spec fn prints_clock(clock: ClockModel, text: Seq<char>) -> bool {
    exists|pairs: Seq<(Seq<char>, Seq<char>)>|
        {
            &&& #[trigger] names_once(pairs, clock.dom())
            &&& forall|i: int|
                0 <= i < pairs.len() ==> (#[trigger] pairs[i]).1 == numbers::decimal_text(
                    clock[pairs[i].0] as nat,
                )
            &&& text == braced(pairs)
        }
}

/// Is `text` the matrix with its rows in some order?
pub open spec fn prints_matrix(m: MatrixModel, text: Seq<char>) -> bool {
    exists|pairs: Seq<(Seq<char>, Seq<char>)>|
        {
            &&& #[trigger] names_once(pairs, m.dom())
            &&& forall|i: int|
                0 <= i < pairs.len() ==> prints_clock(m[pairs[i].0], (#[trigger] pairs[i]).1)
            &&& text == braced(pairs)
        }
}

/// The values of a list of text pairs.
pub open spec fn pair_values(pairs: Seq<(String, String)>) -> Seq<(Seq<char>, Seq<char>)> {
    pairs.map_values(|p: (String, String)| (p.0@, p.1@))
}

/// Print pairs in braces.
fn print_pairs(pairs: &Vec<(String, String)>) -> (r: String)
    ensures
        r@ == braced(pair_values(pairs@)),
{
    let ghost write = |p: (Seq<char>, Seq<char>)| text_codec::debug_text(p.0) + ": "@ + p.1;
    let ghost values = pair_values(pairs@);
    let mut lines: Vec<String> = Vec::new();
    let mut i: usize = 0;
    while i < pairs.len()
        invariant
            i <= pairs.len(),
            values == pair_values(pairs@),
            write == (|p: (Seq<char>, Seq<char>)| text_codec::debug_text(p.0) + ": "@ + p.1),
            texts::texts_of(lines@) =~= values.take(i as int).map_values(write),
        decreases pairs.len() - i,
    {
        let mut line = debug_string(pairs[i].0.as_str());
        line.append(": ");
        line.append(pairs[i].1.as_str());
        assert(texts::texts_of(lines@.push(line)) =~= texts::texts_of(lines@).push(line@));
        lines.push(line);
        i += 1;
    }
    assert(values.take(i as int) =~= values);
    let mut r = "{".to_owned();
    r.append(join_texts(&lines, ", ").as_str());
    r.append("}");
    r
}

/// A list of entries names each key once.
proof fn lemma_names_once<T>(
    entries: Seq<(NodeId, T)>,
    m: Map<Seq<char>, T>,
    pairs: Seq<(Seq<char>, Seq<char>)>,
)
    requires
        node_map::lists_map(entries, m),
        pairs.len() == entries.len(),
        forall|j: int| 0 <= j < pairs.len() ==> (#[trigger] pairs[j]).0 == entries[j].0@,
    ensures
        names_once(pairs, m.dom()),
{
    let names = pairs.map_values(|p: (Seq<char>, Seq<char>)| p.0);
    assert forall|j: int, k: int|
        0 <= j < names.len() && 0 <= k < names.len() && j != k implies names[j] != names[k] by {
        assert(pairs[j].0 == entries[j].0@ && pairs[k].0 == entries[k].0@);
    }
    assert forall|n: Seq<char>| names.to_set().contains(n) == m.dom().contains(n) by {
        if names.contains(n) {
            let j = choose|j: int| 0 <= j < names.len() && names[j] == n;
            assert(pairs[j].0 == entries[j].0@);
            assert(m.contains_key(entries[j].0@));
        }
        if m.contains_key(n) {
            let j = choose|j: int| 0 <= j < entries.len() && (#[trigger] entries[j]).0@ == n;
            assert(pairs[j].0 == n);
            assert(names[j] == n);
        }
    }
    assert(names.to_set() =~= m.dom());
}

/// Print a clock.
pub fn print_clock(clock: &VersionVector) -> (r: String)
    ensures
        prints_clock(clock@, r@),
{
    let entries = clock.entries();
    let mut pairs: Vec<(String, String)> = Vec::new();
    let mut i: usize = 0;
    while i < entries.len()
        invariant
            i <= entries.len(),
            pairs.len() == i,
            forall|j: int|
                0 <= j < i ==> (#[trigger] pairs@[j]).0@ == entries@[j].0@ && pairs@[j].1@
                    == numbers::decimal_text(entries@[j].1 as nat),
        decreases entries.len() - i,
    {
        pairs.push((entries[i].0.clone(), decimal(entries[i].1)));
        i += 1;
    }
    let r = print_pairs(&pairs);
    proof {
        let values = pair_values(pairs@);
        assert forall|j: int| 0 <= j < values.len() implies (#[trigger] values[j]).0
            == entries@[j].0@ by {
            assert(pairs@[j].0@ == entries@[j].0@);
        }
        lemma_names_once(entries@, clock@, values);
        assert forall|j: int| 0 <= j < values.len() implies (#[trigger] values[j]).1
            == numbers::decimal_text(clock@[values[j].0] as nat) by {
            assert(pairs@[j].0@ == entries@[j].0@);
            assert(clock@[entries@[j].0@] == entries@[j].1);
        }
    }
    r
}

impl MatrixClock {
    /// Print the matrix.
    pub fn print(&self) -> (r: String)
        ensures
            prints_matrix(self@, r@),
    {
        let entries = self.rows.entries();
        let mut pairs: Vec<(String, String)> = Vec::new();
        let mut i: usize = 0;
        while i < entries.len()
            invariant
                i <= entries.len(),
                pairs.len() == i,
                forall|j: int|
                    0 <= j < i ==> (#[trigger] pairs@[j]).0@ == entries@[j].0@ && prints_clock(
                        entries@[j].1@,
                        pairs@[j].1@,
                    ),
            decreases entries.len() - i,
        {
            pairs.push((entries[i].0.clone(), print_clock(&entries[i].1)));
            i += 1;
        }
        let r = print_pairs(&pairs);
        proof {
            let values = pair_values(pairs@);
            assert forall|j: int| 0 <= j < values.len() implies (#[trigger] values[j]).0
                == entries@[j].0@ by {
                assert(pairs@[j].0@ == entries@[j].0@);
            }
            lemma_names_once(entries@, self.rows@, values);
            assert(self.rows@.dom() =~= self@.dom());
            assert forall|j: int| 0 <= j < values.len() implies prints_clock(
                self@[values[j].0],
                (#[trigger] values[j]).1,
            ) by {
                assert(pairs@[j].0@ == entries@[j].0@);
                assert(self.rows@[entries@[j].0@] == entries@[j].1);
            }
        }
        r
    }
}

/// Learning never lowers what a replica is known to have seen.
pub proof fn law_matrix_only_grows(m: MatrixModel, k: MatrixModel, n: Seq<char>)
    ensures
        m.contains_key(n) ==> matrix_join(m, k).contains_key(n) && clocks::leq(
            m[n],
            matrix_join(m, k)[n],
        ),
        k.contains_key(n) ==> matrix_join(m, k).contains_key(n) && clocks::leq(
            k[n],
            matrix_join(m, k)[n],
        ),
{
    if m.contains_key(n) && k.contains_key(n) {
        clocks::law_join_least_upper_bound(k[n], m[n], m[n]);
    }
}

// ── Size ────────────────────────────────────────────────────────────────

/// The sum of the weights of some replicas.
pub open spec fn total(nodes: Set<Seq<char>>, weight: spec_fn(Seq<char>) -> nat) -> nat
    decreases nodes.len(),
{
    if nodes.finite() && nodes.len() > 0 {
        let n = nodes.choose();
        weight(n) + total(nodes.remove(n), weight)
    } else {
        0
    }
}

/// One more replica adds its weight.
proof fn lemma_total_insert(
    nodes: Set<Seq<char>>,
    node: Seq<char>,
    weight: spec_fn(Seq<char>) -> nat,
)
    requires
        nodes.finite(),
        !nodes.contains(node),
    ensures
        total(nodes.insert(node), weight) == weight(node) + total(nodes, weight),
    decreases nodes.len(),
{
    let more = nodes.insert(node);
    let first = more.choose();
    assert(more.contains(node));
    if first == node {
        assert(more.remove(node) =~= nodes);
    } else {
        let fewer = nodes.remove(first);
        assert(more.remove(first) =~= fewer.insert(node));
        lemma_total_insert(fewer, node, weight);
        lemma_total_insert(fewer, first, weight);
        assert(fewer.insert(first) =~= nodes);
    }
}

/// The bytes that an identifier takes.
pub open spec fn id_size(node: Seq<char>) -> nat {
    String::encoding(node).len()
}

/// The bytes that a clock takes: of each entry the identifier, and eight for
/// the counter.
pub open spec fn clock_size(clock: ClockModel) -> nat {
    total(clock.dom(), |n: Seq<char>| id_size(n) + 8)
}

/// The bytes that a matrix takes: of each row the identifier and the clock.
pub open spec fn matrix_size(m: MatrixModel) -> nat {
    total(m.dom(), |n: Seq<char>| id_size(n) + clock_size(m[n]))
}

/// Is this the number, or none because the number is too great?
pub open spec fn counts(r: Option<usize>, n: nat) -> bool {
    match r {
        Some(v) => v == n,
        None => n > usize::MAX,
    }
}

fn sum(a: Option<usize>, b: Option<usize>) -> (r: Option<usize>)
    ensures
        forall|m: nat, n: nat| counts(a, m) && counts(b, n) ==> #[trigger] counts(r, m + n),
{
    match (a, b) {
        (Some(x), Some(y)) => x.checked_add(y),
        _ => None,
    }
}

fn size_of_clock(clock: &VersionVector) -> (r: Option<usize>)
    ensures
        counts(r, clock_size(clock@)),
{
    let ghost weight = |n: Seq<char>| id_size(n) + 8;
    let entries = clock.entries();
    let mut r: Option<usize> = Some(0);
    let mut i: usize = 0;
    assert(node_map::map_of(entries@.take(0)).dom() =~= Set::<Seq<char>>::empty());
    while i < entries.len()
        invariant
            i <= entries.len(),
            node_map::distinct_keys(entries@),
            weight == (|n: Seq<char>| id_size(n) + 8),
            node_map::map_of(entries@.take(i as int)).dom().finite(),
            counts(r, total(node_map::map_of(entries@.take(i as int)).dom(), weight)),
        decreases entries.len() - i,
    {
        let ghost had = node_map::map_of(entries@.take(i as int));
        let id = entries[i].0.encode_elem();
        let size = sum(Some(id.len()), Some(8));
        proof {
            node_map::lemma_next_entry(entries@, i as int);
            lemma_total_insert(had.dom(), entries@[i as int].0@, weight);
            assert(had.insert(entries@[i as int].0@, entries@[i as int].1).dom()
                =~= had.dom().insert(entries@[i as int].0@));
            assert(counts(Some(id.len()), id_size(entries@[i as int].0@)));
            assert(counts(Some(8), 8));
            assert(counts(size, id_size(entries@[i as int].0@) + 8));
        }
        r = sum(size, r);
        i += 1;
    }
    proof {
        assert(entries@.take(i as int) =~= entries@);
        node_map::lemma_spelled_out(entries@, clock@);
    }
    r
}

impl MatrixClock {
    /// The bytes that the matrix takes; none when they cannot be counted.
    pub fn size_bytes(&self) -> (r: Option<usize>)
        ensures
            counts(r, matrix_size(self@)),
    {
        let ghost weight = |n: Seq<char>| id_size(n) + clock_size(self@[n]);
        let entries = self.rows.entries();
        let mut r: Option<usize> = Some(0);
        let mut i: usize = 0;
        assert(node_map::map_of(entries@.take(0)).dom() =~= Set::<Seq<char>>::empty());
        while i < entries.len()
            invariant
                i <= entries.len(),
                node_map::lists_map(entries@, self.rows@),
                weight == (|n: Seq<char>| id_size(n) + clock_size(self@[n])),
                node_map::map_of(entries@.take(i as int)).dom().finite(),
                counts(r, total(node_map::map_of(entries@.take(i as int)).dom(), weight)),
            decreases entries.len() - i,
        {
            let ghost had = node_map::map_of(entries@.take(i as int));
            let ghost node = entries@[i as int].0@;
            let id = entries[i].0.encode_elem();
            let row = size_of_clock(&entries[i].1);
            let size = sum(Some(id.len()), row);
            proof {
                node_map::lemma_next_entry(entries@, i as int);
                lemma_total_insert(had.dom(), node, weight);
                assert(had.insert(node, entries@[i as int].1).dom() =~= had.dom().insert(node));
                assert(self@[node] == entries@[i as int].1@);
                assert(counts(Some(id.len()), id_size(node)));
                assert(counts(size, id_size(node) + clock_size(self@[node])));
            }
            r = sum(size, r);
            i += 1;
        }
        proof {
            assert(entries@.take(i as int) =~= entries@);
            node_map::lemma_spelled_out(entries@, self.rows@);
            assert(self@.dom() =~= self.rows@.dom());
        }
        r
    }
}

/// Two matrices joined have the rows of both, and in each row the greater of
/// what the two say.
pub proof fn law_matrix_join_takes_the_greater(
    m: MatrixModel,
    k: MatrixModel,
    row: Seq<char>,
    n: Seq<char>,
)
    ensures
        matrix_join(m, k).contains_key(row) <==> m.contains_key(row) || k.contains_key(row),
        matrix_join(m, k).contains_key(row) ==> {
            ||| m.contains_key(row) && clocks::counter_of(matrix_join(m, k)[row], n)
                == clocks::counter_of(m[row], n)
            ||| k.contains_key(row) && clocks::counter_of(matrix_join(m, k)[row], n)
                == clocks::counter_of(k[row], n)
        },
        m.contains_key(row) ==> clocks::counter_of(m[row], n) <= clocks::counter_of(
            matrix_join(m, k)[row],
            n,
        ),
        k.contains_key(row) ==> clocks::counter_of(k[row], n) <= clocks::counter_of(
            matrix_join(m, k)[row],
            n,
        ),
{
}

/// A matrix without a column keeps its rows, and in each row all but that
/// replica.
pub proof fn law_column_is_dropped(m: MatrixModel, node: Seq<char>, row: Seq<char>, n: Seq<char>)
    ensures
        without_column(m, node).contains_key(row) == m.contains_key(row),
        m.contains_key(row) ==> !without_column(m, node)[row].contains_key(node),
        m.contains_key(row) && n != node ==> without_column(m, node)[row].contains_key(n)
            == m[row].contains_key(n),
        m.contains_key(row) && n != node && m[row].contains_key(n) ==> without_column(
            m,
            node,
        )[row][n] == m[row][n],
{
}

} // verus!
