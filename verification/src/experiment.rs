//! Experiments: many replicas in one process, in a topology laid down by
//! their names.
//!
//! Each replica that initiates garbage collections is connected to all others
//! that do. The plain replicas are dealt out among them in turn.

use vstd::prelude::*;
use vstd::string::StringExecFns;

use crate::common::NodeId;
use crate::numbers;
use crate::numbers::{decimal, parse_u64};
use crate::text as texts;
use crate::text::strip_prefix;

verus! {

// ── Names ───────────────────────────────────────────────────────────────

/// What the name of a replica begins with.
pub open spec fn name_start(gc_replica: bool) -> Seq<char> {
    if gc_replica {
        "gc-server-"@
    } else {
        "normal-server-"@
    }
}

/// The name of a replica.
pub open spec fn name_of(gc_replica: bool, number: u64) -> Seq<char> {
    name_start(gc_replica) + numbers::decimal_text(number as nat)
}

/// The number in the name of a replica.
pub open spec fn number_in(gc_replica: bool, name: Seq<char>) -> Option<u64> {
    match texts::after_prefix(name, name_start(gc_replica)) {
        Some(rest) => numbers::u64_value(rest),
        None => None,
    }
}

/// The name of a replica.
pub fn replica_name(gc_replica: bool, number: u64) -> (r: NodeId)
    ensures
        r@ == name_of(gc_replica, number),
{
    let mut r = (if gc_replica {
        "gc-server-"
    } else {
        "normal-server-"
    }).to_owned();
    r.append(decimal(number).as_str());
    r
}

/// The number in the name of a replica.
pub fn replica_number(gc_replica: bool, name: &str) -> (r: Option<u64>)
    ensures
        r == number_in(gc_replica, name@),
{
    let start = if gc_replica {
        "gc-server-"
    } else {
        "normal-server-"
    };
    match strip_prefix(name, start) {
        Some(rest) => parse_u64(rest.as_str()),
        None => None,
    }
}

// ── Topology ────────────────────────────────────────────────────────────

/// The collecting replica that the plain replica `number` belongs to.
pub open spec fn collector_of(number: u64, gc_count: u64) -> u64
    recommends
        number >= 1,
        gc_count >= 1,
{
    ((number - 1) % (gc_count as int) + 1) as u64
}

/// The collecting replicas up to `count`, without the one with this number.
pub open spec fn other_collectors(number: u64, count: nat) -> Seq<Seq<char>>
    decreases count,
{
    if count == 0 {
        Seq::empty()
    } else {
        let rest = other_collectors(number, (count - 1) as nat);
        if count == number {
            rest
        } else {
            rest.push(name_of(true, count as u64))
        }
    }
}

/// The plain replicas up to `count` that belong to a collecting one.
pub open spec fn dealt_to(number: u64, gc_count: u64, count: nat) -> Seq<Seq<char>>
    decreases count,
{
    if count == 0 {
        Seq::empty()
    } else {
        let rest = dealt_to(number, gc_count, (count - 1) as nat);
        if collector_of(count as u64, gc_count) == number {
            rest.push(name_of(false, count as u64))
        } else {
            rest
        }
    }
}

/// The replicas that a replica connects to.
pub open spec fn neighbours(
    gc_replica: bool,
    number: u64,
    gc_count: u64,
    normal_count: u64,
) -> Seq<Seq<char>> {
    if gc_replica {
        other_collectors(number, gc_count as nat) + dealt_to(
            number,
            gc_count,
            normal_count as nat,
        )
    } else {
        seq![name_of(true, collector_of(number, gc_count))]
    }
}

fn list_other_collectors(number: u64, count: u64) -> (r: Vec<NodeId>)
    ensures
        texts::texts_of(r@) == other_collectors(number, count as nat),
{
    let mut r: Vec<NodeId> = Vec::new();
    let mut j: u64 = 0;
    assert(texts::texts_of(r@) =~= other_collectors(number, 0));
    while j < count
        invariant
            j <= count,
            texts::texts_of(r@) == other_collectors(number, j as nat),
        decreases count - j,
    {
        let ghost had = texts::texts_of(r@);
        j += 1;
        if j != number {
            let name = replica_name(true, j);
            assert(texts::texts_of(r@.push(name)) =~= had.push(name@));
            r.push(name);
        }
    }
    r
}

/// The replicas that a replica connects to, by its name.
pub fn compute_connect_node_ids(
    node_name: &str,
    gc_replica: bool,
    gc_count: u64,
    normal_count: u64,
) -> (r: Vec<NodeId>)
    requires
        number_in(gc_replica, node_name@) is Some,
        gc_replica ==> normal_count == 0 || gc_count > 0,
        !gc_replica ==> gc_count > 0 && number_in(gc_replica, node_name@)->0 >= 1,
    ensures
        texts::texts_of(r@) == neighbours(
            gc_replica,
            number_in(gc_replica, node_name@)->0,
            gc_count,
            normal_count,
        ),
{
    let number: u64 = match replica_number(gc_replica, node_name) {
        Some(number) => number,
        None => 0,
    };
    if !gc_replica {
        let mut r: Vec<NodeId> = Vec::new();
        r.push(replica_name(true, (number - 1) % gc_count + 1));
        assert(texts::texts_of(r@) =~= neighbours(gc_replica, number, gc_count, normal_count));
        return r;
    }
    let mut r = list_other_collectors(number, gc_count);
    let ghost others = texts::texts_of(r@);
    let mut i: u64 = 0;
    assert(texts::texts_of(r@) =~= others + dealt_to(number, gc_count, 0));
    while i < normal_count
        invariant
            i <= normal_count,
            normal_count == 0 || gc_count > 0,
            texts::texts_of(r@) == others + dealt_to(number, gc_count, i as nat),
        decreases normal_count - i,
    {
        let ghost had = texts::texts_of(r@);
        let ghost dealt = dealt_to(number, gc_count, i as nat);
        i += 1;
        if (i - 1) % gc_count + 1 == number {
            let name = replica_name(false, i);
            assert(texts::texts_of(r@.push(name)) =~= had.push(name@));
            assert((others + dealt).push(name@) =~= others + dealt.push(name@));
            r.push(name);
        }
    }
    r
}

/// The replicas that a replica may connect to, if there is a choice: there is
/// none without plain replicas.
pub fn connect_node_ids(
    node_name: &str,
    gc_replica: bool,
    gc_count: u64,
    normal_count: u64,
) -> (r: Option<Vec<NodeId>>)
    requires
        normal_count > 0 ==> gc_count > 0 && number_in(gc_replica, node_name@) is Some && (
        gc_replica || number_in(gc_replica, node_name@)->0 >= 1),
    ensures
        match r {
            Some(ids) => normal_count > 0 && texts::texts_of(ids@) == neighbours(
                gc_replica,
                number_in(gc_replica, node_name@)->0,
                gc_count,
                normal_count,
            ),
            None => normal_count == 0,
        },
{
    if normal_count == 0 {
        None
    } else {
        Some(compute_connect_node_ids(node_name, gc_replica, gc_count, normal_count))
    }
}

// ── Replicas ────────────────────────────────────────────────────────────

/// A replica of an experiment.
pub struct Replica {
    pub node_name: NodeId,
    pub addr: String,
    pub port: u64,
    pub gc_replica: bool,
}

/// Is this the replica with the number, at the host? The ports of those that
/// collect begin after 8000, the ports of the others after 6000.
pub open spec fn is_replica(r: Replica, host: Seq<char>, gc_replica: bool, number: u64) -> bool {
    &&& r.gc_replica == gc_replica
    &&& r.node_name@ == name_of(gc_replica, number)
    &&& r.port == number + if gc_replica {
        8000int
    } else {
        6000int
    }
    &&& r.addr@ == host + ":"@ + numbers::decimal_text(r.port as nat)
}

fn replica(host: &str, gc_replica: bool, number: u64) -> (r: Replica)
    requires
        number <= u64::MAX - 8000,
    ensures
        is_replica(r, host@, gc_replica, number),
{
    let port: u64 = number + if gc_replica {
        8000
    } else {
        6000
    };
    let mut addr = host.to_owned();
    addr.append(":");
    addr.append(decimal(port).as_str());
    Replica { node_name: replica_name(gc_replica, number), addr, port, gc_replica }
}

/// The replicas of an experiment: first those that collect, then the others.
pub fn replicas(host: &str, gc_count: u64, normal_count: u64) -> (r: Vec<Replica>)
    requires
        gc_count <= u64::MAX - 8000,
        normal_count <= u64::MAX - 8000,
    ensures
        r@.len() == gc_count + normal_count,
        forall|i: int|
            0 <= i < gc_count ==> is_replica(#[trigger] r@[i], host@, true, (i + 1) as u64),
        forall|i: int|
            gc_count <= i < gc_count + normal_count ==> is_replica(
                #[trigger] r@[i],
                host@,
                false,
                (i - gc_count + 1) as u64,
            ),
{
    let mut r: Vec<Replica> = Vec::new();
    let mut j: u64 = 0;
    while j < gc_count
        invariant
            j <= gc_count,
            gc_count <= u64::MAX - 8000,
            r@.len() == j,
            forall|i: int|
                0 <= i < j ==> is_replica(#[trigger] r@[i], host@, true, (i + 1) as u64),
        decreases gc_count - j,
    {
        j += 1;
        r.push(replica(host, true, j));
    }
    let mut k: u64 = 0;
    while k < normal_count
        invariant
            k <= normal_count,
            normal_count <= u64::MAX - 8000,
            r@.len() == gc_count + k,
            forall|i: int|
                0 <= i < gc_count ==> is_replica(#[trigger] r@[i], host@, true, (i + 1) as u64),
            forall|i: int|
                gc_count <= i < gc_count + k ==> is_replica(
                    #[trigger] r@[i],
                    host@,
                    false,
                    (i - gc_count + 1) as u64,
                ),
        decreases normal_count - k,
    {
        k += 1;
        r.push(replica(host, false, k));
    }
    r
}

// ── Laws ────────────────────────────────────────────────────────────────

/// The number in the name of a replica is read back, and the names of the two
/// kinds of replicas are never the same.
pub proof fn law_name_reads_back(gc_replica: bool, number: u64)
    ensures
        number_in(gc_replica, name_of(gc_replica, number)) == Some(number),
        number_in(!gc_replica, name_of(gc_replica, number)) is None,
{
    reveal_strlit("gc-server-");
    reveal_strlit("normal-server-");
    let start = name_start(gc_replica);
    let name = name_of(gc_replica, number);
    let digits = numbers::decimal_text(number as nat);
    assert(name.subrange(0, start.len() as int) =~= start);
    assert(name.take(start.len() as int) =~= start);
    assert(name.skip(start.len() as int) =~= digits);
    numbers::law_decimal_reads_back(number as nat);
    assert(name[0] == start[0]);
    assert(name[0] != name_start(!gc_replica)[0]);
    let other = name_start(!gc_replica);
    if texts::after_prefix(name, other) is Some {
        assert(name.subrange(0, other.len() as int)[0] == name[0]);
        assert(name.take(other.len() as int)[0] == name[0]);
    }
}

proof fn lemma_other_collectors(number: u64, count: nat, n: Seq<char>)
    requires
        count <= u64::MAX,
    ensures
        other_collectors(number, count).contains(n) <==> exists|j: u64|
            1 <= j <= count && j != number && n == #[trigger] name_of(true, j),
    decreases count,
{
    let all = other_collectors(number, count);
    if count > 0 {
        let rest = other_collectors(number, (count - 1) as nat);
        lemma_other_collectors(number, (count - 1) as nat, n);
        if all.contains(n) {
            let i = choose|i: int| 0 <= i < all.len() && all[i] == n;
            if i < rest.len() {
                assert(rest[i] == n);
                assert(rest.contains(n));
            } else {
                assert(n == name_of(true, count as u64));
            }
        }
        if exists|j: u64| 1 <= j <= count && j != number && n == #[trigger] name_of(true, j) {
            let j = choose|j: u64|
                1 <= j <= count && j != number && n == #[trigger] name_of(true, j);
            if j == count {
                assert(all[all.len() - 1] == n);
            } else {
                assert(1 <= j <= count - 1);
                assert(rest.contains(n));
                let i = choose|i: int| 0 <= i < rest.len() && rest[i] == n;
                assert(all[i] == n);
            }
        }
    }
}

proof fn lemma_dealt_to(number: u64, gc_count: u64, count: nat, n: Seq<char>)
    requires
        count <= u64::MAX,
    ensures
        dealt_to(number, gc_count, count).contains(n) <==> exists|j: u64|
            1 <= j <= count && collector_of(j, gc_count) == number && n == #[trigger] name_of(
                false,
                j,
            ),
    decreases count,
{
    let all = dealt_to(number, gc_count, count);
    if count > 0 {
        let rest = dealt_to(number, gc_count, (count - 1) as nat);
        lemma_dealt_to(number, gc_count, (count - 1) as nat, n);
        if all.contains(n) {
            let i = choose|i: int| 0 <= i < all.len() && all[i] == n;
            if i < rest.len() {
                assert(rest[i] == n);
                assert(rest.contains(n));
            } else {
                assert(n == name_of(false, count as u64));
            }
        }
        if exists|j: u64|
            1 <= j <= count && collector_of(j, gc_count) == number && n == #[trigger] name_of(
                false,
                j,
            ) {
            let j = choose|j: u64|
                1 <= j <= count && collector_of(j, gc_count) == number && n == #[trigger] name_of(
                    false,
                    j,
                );
            if j == count {
                assert(all[all.len() - 1] == n);
            } else {
                assert(1 <= j <= count - 1);
                assert(rest.contains(n));
                let i = choose|i: int| 0 <= i < rest.len() && rest[i] == n;
                assert(all[i] == n);
            }
        }
    }
}

/// Two replicas of an experiment name each other as neighbours, or neither
/// does.
pub proof fn law_neighbours_are_mutual(
    a_collects: bool,
    a: u64,
    b_collects: bool,
    b: u64,
    gc_count: u64,
    normal_count: u64,
)
    requires
        gc_count >= 1,
        1 <= a <= if a_collects {
            gc_count
        } else {
            normal_count
        },
        1 <= b <= if b_collects {
            gc_count
        } else {
            normal_count
        },
    ensures
        neighbours(a_collects, a, gc_count, normal_count).contains(name_of(b_collects, b))
            <==> neighbours(b_collects, b, gc_count, normal_count).contains(
            name_of(a_collects, a),
        ),
{
    lemma_neighbours(a_collects, a, b_collects, b, gc_count, normal_count);
    lemma_neighbours(b_collects, b, a_collects, a, gc_count, normal_count);
}

/// Who is a neighbour of whom.
proof fn lemma_neighbours(
    a_collects: bool,
    a: u64,
    b_collects: bool,
    b: u64,
    gc_count: u64,
    normal_count: u64,
)
    requires
        gc_count >= 1,
        1 <= a,
        1 <= b <= if b_collects {
            gc_count
        } else {
            normal_count
        },
    ensures
        neighbours(a_collects, a, gc_count, normal_count).contains(name_of(b_collects, b)) <==> if a_collects {
            if b_collects {
                a != b
            } else {
                collector_of(b, gc_count) == a
            }
        } else {
            b_collects && collector_of(a, gc_count) == b
        },
{
    let n = name_of(b_collects, b);
    let all = neighbours(a_collects, a, gc_count, normal_count);
    law_name_reads_back(b_collects, b);
    if a_collects {
        let others = other_collectors(a, gc_count as nat);
        let dealt = dealt_to(a, gc_count, normal_count as nat);
        lemma_other_collectors(a, gc_count as nat, n);
        lemma_dealt_to(a, gc_count, normal_count as nat, n);
        if all.contains(n) {
            let i = choose|i: int| 0 <= i < all.len() && all[i] == n;
            if i < others.len() {
                assert(others[i] == n);
                assert(others.contains(n));
            } else {
                assert(dealt[i - others.len()] == n);
                assert(dealt.contains(n));
            }
        }
        if others.contains(n) {
            let i = choose|i: int| 0 <= i < others.len() && others[i] == n;
            assert(all[i] == n);
            let j = choose|j: u64| 1 <= j <= gc_count && j != a && n == #[trigger] name_of(true, j);
            law_name_reads_back(true, j);
        }
        if dealt.contains(n) {
            let i = choose|i: int| 0 <= i < dealt.len() && dealt[i] == n;
            assert(all[others.len() + i] == n);
            let j = choose|j: u64|
                1 <= j <= normal_count && collector_of(j, gc_count) == a && n == #[trigger] name_of(
                    false,
                    j,
                );
            law_name_reads_back(false, j);
        }
    } else {
        let c = collector_of(a, gc_count);
        law_name_reads_back(true, c);
        assert(all[0] == name_of(true, c));
        if all.contains(n) {
            let i = choose|i: int| 0 <= i < all.len() && all[i] == n;
            assert(i == 0);
        }
    }
}

/// Each plain replica has exactly one neighbour, and it is a collecting
/// replica of the experiment.
pub proof fn law_plain_replica_has_one_collector(number: u64, gc_count: u64, normal_count: u64)
    requires
        gc_count >= 1,
        1 <= number,
    ensures
        neighbours(false, number, gc_count, normal_count) == seq![
            name_of(true, collector_of(number, gc_count)),
        ],
        1 <= collector_of(number, gc_count) <= gc_count,
{
    let m = (number - 1) % (gc_count as int);
    assert(0 <= m < gc_count);
}

/// Two collecting replicas are neighbours just when they are not the same, a
/// plain one and a collecting one just when the plain one was dealt to it, and
/// two plain ones never.
pub proof fn law_topology(
    a_collects: bool,
    a: u64,
    b_collects: bool,
    b: u64,
    gc_count: u64,
    normal_count: u64,
)
    requires
        gc_count >= 1,
        1 <= a,
        1 <= b <= if b_collects {
            gc_count
        } else {
            normal_count
        },
    ensures
        a_collects && b_collects ==> (neighbours(a_collects, a, gc_count, normal_count).contains(
            name_of(b_collects, b),
        ) <==> a != b),
        a_collects && !b_collects ==> (neighbours(a_collects, a, gc_count, normal_count).contains(
            name_of(b_collects, b),
        ) <==> a == (b - 1) % (gc_count as int) + 1),
        !a_collects && b_collects ==> (neighbours(a_collects, a, gc_count, normal_count).contains(
            name_of(b_collects, b),
        ) <==> b == (a - 1) % (gc_count as int) + 1),
        !a_collects && !b_collects ==> !neighbours(
            a_collects,
            a,
            gc_count,
            normal_count,
        ).contains(name_of(b_collects, b)),
{
    lemma_neighbours(a_collects, a, b_collects, b, gc_count, normal_count);
    assert(0 <= (a - 1) % (gc_count as int) < gc_count);
    assert(0 <= (b - 1) % (gc_count as int) < gc_count);
}

} // verus!
