//! Clocks, vectors and matrices.

use experimental_crdt::common::same_id;
use experimental_crdt::logical_clocks::dot_version_vector::{
    frontier_dvv, Dot, DotVersionVector,
};
use experimental_crdt::logical_clocks::matrix_clock::{print_clock, MatrixClock};
use experimental_crdt::logical_clocks::version_vector::{vv_join, vv_leq, vv_meet, VersionVector};
use experimental_crdt::node_map::NodeMap;

fn id(s: &str) -> String {
    s.to_string()
}

fn clock(entries: &[(&str, u64)]) -> VersionVector {
    let mut v = VersionVector::new();
    for (node, counter) in entries {
        v.insert(node.to_string(), *counter);
    }
    v
}

#[test]
fn join_takes_the_greater() {
    let j = vv_join(&clock(&[("a", 3), ("b", 1)]), &clock(&[("a", 2), ("c", 4)]));
    assert_eq!(j.counter(&id("a")), 3);
    assert_eq!(j.counter(&id("b")), 1);
    assert_eq!(j.counter(&id("c")), 4);
    assert_eq!(j.entries().len(), 3);
}

#[test]
fn meet_takes_the_lesser() {
    let m = vv_meet(&clock(&[("a", 3), ("b", 1)]), &clock(&[("a", 2), ("c", 4)]));
    assert_eq!(m.counter(&id("a")), 2);
    assert!(!m.contains_node(&id("b")));
    assert!(!m.contains_node(&id("c")));
}

#[test]
fn clocks_are_ordered_pointwise() {
    let low = clock(&[("a", 1)]);
    let high = clock(&[("a", 2), ("b", 1)]);
    assert!(vv_leq(&low, &high));
    assert!(!vv_leq(&high, &low));
    assert!(vv_leq(&low, &low));
    // A zero entry is no entry.
    assert!(vv_leq(&clock(&[("z", 0)]), &low));
}

#[test]
fn entries_can_be_dropped() {
    let mut v = clock(&[("a", 1), ("b", 2)]);
    v.remove(&id("a"));
    assert_eq!(v.get(&id("a")), None);
    assert_eq!(v.get(&id("b")), Some(2));
    v.remove(&id("b"));
    assert!(v.is_empty());
}

#[test]
fn event_counts_up() {
    let mut v = DotVersionVector::new(id("a"));
    assert!(v.effective_map().is_empty());
    v.event();
    v.event();
    assert_eq!(v.dot.counter, 2);
    assert_eq!(v.effective_counter(&id("a")), 2);
    assert!(v.dominates_dot(&Dot::new(id("a"), 2)));
    assert!(!v.dominates_dot(&Dot::new(id("a"), 3)));
    assert!(!v.dominates_dot(&Dot::new(id("b"), 1)));
}

#[test]
fn merge_learns_all() {
    let mut a = DotVersionVector::new(id("a"));
    a.event();
    let mut b = DotVersionVector::new(id("b"));
    b.event();
    b.event();
    a.merge(&b);
    assert_eq!(a.dot.counter, 1);
    assert_eq!(a.effective_counter(&id("b")), 2);
    // Its own events come back through another replica.
    let mut fresh = DotVersionVector::new(id("a"));
    fresh.merge(&a);
    assert_eq!(fresh.dot.counter, 1);
}

#[test]
fn news_for_an_observer() {
    let mut a = DotVersionVector::new(id("a"));
    a.event();
    a.context.insert(id("b"), 4);
    let none = a.delta_since(&clock(&[("a", 1), ("b", 4)]));
    assert_eq!(none.dot.counter, 0);
    assert!(none.context.is_empty());
    let some = a.delta_since(&clock(&[("a", 1), ("b", 3)]));
    assert_eq!(some.dot.counter, 0);
    assert_eq!(some.context.counter(&id("b")), 4);
}

#[test]
fn vector_made_from_a_clock() {
    let v = frontier_dvv(&id("a"), &clock(&[("a", 5), ("b", 2)]));
    assert_eq!(v.dot.counter, 5);
    assert!(!v.context.contains_node(&id("a")));
    assert_eq!(v.effective_map().counter(&id("b")), 2);
}

#[test]
fn replica_can_be_forgotten() {
    let mut v = frontier_dvv(&id("a"), &clock(&[("a", 5), ("b", 2)]));
    v.remove(&id("b"));
    assert_eq!(v.effective_counter(&id("b")), 0);
    assert_eq!(v.effective_counter(&id("a")), 5);
}

#[test]
fn same_dots() {
    assert!(Dot::new(id("a"), 1).same(&Dot::new(id("a"), 1)));
    assert!(!Dot::new(id("a"), 1).same(&Dot::new(id("b"), 1)));
    assert!(!Dot::new(id("a"), 1).same(&Dot::new(id("a"), 2)));
    assert!(same_id(&id("x"), &id("x")));
    assert!(!same_id(&id("x"), &id("y")));
}

#[test]
fn matrix_rows_only_grow() {
    let mut m = MatrixClock::new();
    m.set_row(id("p"), clock(&[("a", 3)]));
    let mut other = MatrixClock::new();
    other.set_row(id("p"), clock(&[("a", 2), ("b", 1)]));
    other.set_row(id("q"), clock(&[("b", 7)]));
    m.raise(&other);
    let p = m.row(&id("p")).unwrap();
    assert_eq!(p.counter(&id("a")), 3);
    assert_eq!(p.counter(&id("b")), 1);
    assert_eq!(m.row(&id("q")).unwrap().counter(&id("b")), 7);
}

#[test]
fn matrix_forgets_rows_and_columns() {
    let mut m = MatrixClock::new();
    m.set_row(id("p"), clock(&[("a", 3), ("b", 1)]));
    m.set_row(id("q"), clock(&[("a", 2)]));
    m.remove_column(&id("a"));
    assert_eq!(m.row(&id("p")).unwrap().counter(&id("a")), 0);
    assert_eq!(m.row(&id("p")).unwrap().counter(&id("b")), 1);
    m.remove_row(&id("p"));
    assert!(m.row(&id("p")).is_none());
    assert_eq!(m.nodes(), vec![id("q")]);
    let only = m.rows_of(&vec![id("q"), id("x")]);
    assert_eq!(only.nodes(), vec![id("q")]);
}

#[test]
fn clocks_are_printed() {
    assert_eq!(print_clock(&clock(&[])), "{}");
    assert_eq!(print_clock(&clock(&[("a\"", 12)])), "{\"a\\\"\": 12}");
    let mut m = MatrixClock::new();
    m.set_row(id("p"), clock(&[("a", 3)]));
    assert_eq!(m.print(), "{\"p\": {\"a\": 3}}");
}

#[test]
fn map_of_nodes() {
    let mut m: NodeMap<u64> = NodeMap::new();
    m.insert(id("a"), 1);
    m.insert(id("b"), 2);
    m.insert(id("a"), 3);
    assert_eq!(m.get(&id("a")), Some(&3));
    assert_eq!(m.entries().len(), 2);
    assert!(m.remove(&id("a")));
    assert!(!m.remove(&id("a")));
    assert!(!m.contains_node(&id("a")));
    assert!(m.contains_node(&id("b")));
}
