//! Sets and their deltas.

use experimental_crdt::common::NodeId;
use experimental_crdt::crdt::or_set::{OrSet, OrSetDelta, OrSetOp};
use experimental_crdt::crdt::{CodecError, DeltaContext, DeltaCrdt, ElementCodec};
use experimental_crdt::logical_clocks::dot_version_vector::{Dot, DotVersionVector};
use experimental_crdt::logical_clocks::version_vector::VersionVector;
use experimental_crdt::proto::proto_or_set_op::Op;
use experimental_crdt::proto::{ProtoDot, ProtoDotPair, ProtoElemDot, ProtoOrSetDelta, ProtoOrSetOp};

fn nid(s: &str) -> NodeId {
    s.to_string()
}

/// A local operation, as an engine performs it.
fn engine_apply_local(
    set: &mut OrSet<String>,
    dvv: &mut DotVersionVector,
    op: OrSetOp<String>,
) -> OrSetDelta<String> {
    dvv.event();
    let dot = Dot::new(dvv.dot.node_id.clone(), dvv.dot.counter);
    set.apply_local(dot, op, dvv)
}

/// A merge, as an engine performs it.
fn engine_merge_delta(
    set: &mut OrSet<String>,
    dvv: &mut DotVersionVector,
    delta: &OrSetDelta<String>,
) {
    set.merge_delta(delta);
    let (ctx, node, counter) = delta.causal_context();
    let remote_dvv = DotVersionVector {
        dot: Dot::new(node, counter),
        context: ctx,
    };
    dvv.merge(&remote_dvv);
}

#[test]
fn add_uses_dot() {
    let mut set = OrSet::<String>::new();
    let mut dvv = DotVersionVector::new(nid("A"));

    let _ = engine_apply_local(&mut set, &mut dvv, OrSetOp::Add("x".to_string()));

    assert!(set.contains(&"x".to_string()));
    assert_eq!(dvv.dot.counter, 1);
}

#[test]
fn remove_clears_element() {
    let mut set = OrSet::<String>::new();
    let mut dvv = DotVersionVector::new(nid("A"));

    let _ = engine_apply_local(&mut set, &mut dvv, OrSetOp::Add("x".to_string()));
    assert_eq!(dvv.dot.counter, 1);

    // Remove mints a new dot (tombstone event) — DVV advances.
    let _ = engine_apply_local(&mut set, &mut dvv, OrSetOp::Remove("x".to_string()));
    assert_eq!(dvv.dot.counter, 2);
    assert!(!set.contains(&"x".to_string()));
}

#[test]
fn concurrent_add_wins() {
    let mut a_set = OrSet::<String>::new();
    let mut a_dvv = DotVersionVector::new(nid("A"));
    let mut b_set = OrSet::<String>::new();
    let mut b_dvv = DotVersionVector::new(nid("B"));

    let delta_a =
        engine_apply_local(&mut a_set, &mut a_dvv, OrSetOp::Add("x".to_string()));
    engine_merge_delta(&mut b_set, &mut b_dvv, &delta_a);
    assert!(b_set.contains(&"x".to_string()));

    let remove_delta =
        engine_apply_local(&mut b_set, &mut b_dvv, OrSetOp::Remove("x".to_string()));
    let readd_delta =
        engine_apply_local(&mut a_set, &mut a_dvv, OrSetOp::Add("x".to_string()));

    // A's re-add dot is not tombstoned by B's remove (which only tombstones A:1).
    engine_merge_delta(&mut a_set, &mut a_dvv, &remove_delta);
    assert!(a_set.contains(&"x".to_string()));

    engine_merge_delta(&mut b_set, &mut b_dvv, &readd_delta);
    assert!(b_set.contains(&"x".to_string()));
}

#[test]
fn delta_roundtrip_through_bytes() {
    let mut set = OrSet::<String>::new();
    let mut dvv = DotVersionVector::new(nid("A"));

    let delta = engine_apply_local(&mut set, &mut dvv, OrSetOp::Add("hello".to_string()));
    let delta_bytes = OrSet::<String>::encode_delta(&delta);

    let decoded = OrSet::<String>::decode_delta(&delta_bytes).unwrap();

    let mut remote_set = OrSet::<String>::new();
    let mut remote_dvv = DotVersionVector::new(nid("B"));
    engine_merge_delta(&mut remote_set, &mut remote_dvv, &decoded);

    assert!(remote_set.contains(&"hello".to_string()));
    assert_eq!(remote_dvv.effective_counter(&nid("A")), 1);
}

#[test]
fn full_state_sync() {
    let mut a_set = OrSet::<String>::new();
    let mut a_dvv = DotVersionVector::new(nid("A"));

    engine_apply_local(&mut a_set, &mut a_dvv, OrSetOp::Add("x".to_string()));
    engine_apply_local(&mut a_set, &mut a_dvv, OrSetOp::Add("y".to_string()));
    // Remove "x" so full state includes a tombstone.
    engine_apply_local(&mut a_set, &mut a_dvv, OrSetOp::Remove("x".to_string()));

    let state = a_set.full_state(&a_dvv);

    // Full state must carry tombstones and correct causal metadata.
    assert!(!state.tombstones.is_empty());
    assert_eq!(state.dot_counter, a_dvv.dot.counter);

    let state_bytes = OrSet::<String>::encode_delta(&state);
    let decoded = OrSet::<String>::decode_delta(&state_bytes).unwrap();

    let mut b_set = OrSet::<String>::new();
    let mut b_dvv = DotVersionVector::new(nid("B"));
    engine_merge_delta(&mut b_set, &mut b_dvv, &decoded);

    assert!(!b_set.contains(&"x".to_string()));
    assert!(b_set.contains(&"y".to_string()));
    assert_eq!(b_dvv.effective_counter(&nid("A")), 3);
}

#[test]
fn incremental_delta_only_contains_new_ops() {
    let mut set = OrSet::<String>::new();
    let mut dvv = DotVersionVector::new(nid("A"));

    // Add "x" — delta carries only this add, no tombstones.
    let add_delta = engine_apply_local(&mut set, &mut dvv, OrSetOp::Add("x".to_string()));
    assert_eq!(add_delta.adds.len(), 1);
    assert_eq!(add_delta.tombstones.len(), 0);

    // Add "y" — delta carries only this add, no tombstones.
    let add_y_delta = engine_apply_local(&mut set, &mut dvv, OrSetOp::Add("y".to_string()));
    assert_eq!(add_y_delta.adds.len(), 1);
    assert_eq!(add_y_delta.tombstones.len(), 0);

    // Remove "x" — delta carries only the tombstone, no adds.
    let remove_delta =
        engine_apply_local(&mut set, &mut dvv, OrSetOp::Remove("x".to_string()));
    assert_eq!(remove_delta.adds.len(), 0);
    assert_eq!(remove_delta.tombstones.len(), 1);
}

// ── delta_since tests ───────────────────────────────────────────────

#[test]
fn delta_since_empty_remote_equals_full_state() {
    let mut set = OrSet::<String>::new();
    let mut dvv = DotVersionVector::new(nid("A"));

    engine_apply_local(&mut set, &mut dvv, OrSetOp::Add("x".to_string()));
    engine_apply_local(&mut set, &mut dvv, OrSetOp::Add("y".to_string()));
    engine_apply_local(&mut set, &mut dvv, OrSetOp::Remove("x".to_string()));

    let empty_knowledge = VersionVector::new();
    let delta = set.delta_since(&empty_knowledge, &dvv);

    // A brand-new joiner must receive every add and every tombstone.
    let full = set.full_state(&dvv);
    assert_eq!(delta.adds.len(), full.adds.len());
    assert_eq!(delta.tombstones.len(), full.tombstones.len());
}

#[test]
fn delta_since_up_to_date_remote_is_empty() {
    let mut set = OrSet::<String>::new();
    let mut dvv = DotVersionVector::new(nid("A"));

    engine_apply_local(&mut set, &mut dvv, OrSetOp::Add("x".to_string()));
    engine_apply_local(&mut set, &mut dvv, OrSetOp::Add("y".to_string()));

    // Remote already knows everything.
    let delta = set.delta_since(&dvv.effective_map(), &dvv);
    assert!(delta.adds.is_empty());
    assert!(delta.tombstones.is_empty());
}

#[test]
fn delta_since_sends_only_missing_adds() {
    let mut a_set = OrSet::<String>::new();
    let mut a_dvv = DotVersionVector::new(nid("A"));

    // A adds "x" then "y".
    engine_apply_local(&mut a_set, &mut a_dvv, OrSetOp::Add("x".to_string()));
    let snapshot_knowledge = a_dvv.effective_map(); // B knows up to here
    engine_apply_local(&mut a_set, &mut a_dvv, OrSetOp::Add("y".to_string()));

    // B only knows about A:1 — should receive only the "y" add.
    let delta = a_set.delta_since(&snapshot_knowledge, &a_dvv);
    assert_eq!(delta.adds.len(), 1);
    assert_eq!(delta.adds[0].0, "y".to_string());
    assert!(delta.tombstones.is_empty());
}

#[test]
fn delta_since_sends_only_missing_tombstones() {
    let mut a_set = OrSet::<String>::new();
    let mut a_dvv = DotVersionVector::new(nid("A"));

    // A adds "x" and "y"; B syncs at this point.
    engine_apply_local(&mut a_set, &mut a_dvv, OrSetOp::Add("x".to_string()));
    engine_apply_local(&mut a_set, &mut a_dvv, OrSetOp::Add("y".to_string()));
    let b_knowledge = a_dvv.effective_map();

    // A then removes "x" — B doesn't know yet.
    engine_apply_local(&mut a_set, &mut a_dvv, OrSetOp::Remove("x".to_string()));

    let delta = a_set.delta_since(&b_knowledge, &a_dvv);
    assert!(delta.adds.is_empty(), "no new adds expected");
    assert_eq!(delta.tombstones.len(), 1, "B is missing the remove tombstone");
}

#[test]
fn delta_since_pull_response_converges() {
    // Simulate the full pull protocol: A has state, B pulls with its knowledge.
    let mut a_set = OrSet::<String>::new();
    let mut a_dvv = DotVersionVector::new(nid("A"));
    let mut b_set = OrSet::<String>::new();
    let mut b_dvv = DotVersionVector::new(nid("B"));

    // A adds "x", "y", then removes "x".
    engine_apply_local(&mut a_set, &mut a_dvv, OrSetOp::Add("x".to_string()));
    engine_apply_local(&mut a_set, &mut a_dvv, OrSetOp::Add("y".to_string()));
    engine_apply_local(&mut a_set, &mut a_dvv, OrSetOp::Remove("x".to_string()));

    // B has no state; it sends its empty knowledge map in a pull request.
    let b_knowledge = b_dvv.effective_map();

    // A responds with a minimal delta (equals full state here since B is empty).
    // Context is now populated directly by delta_since — no post-hoc patching.
    let response = a_set.delta_since(&b_knowledge, &a_dvv);

    // B merges the response.
    engine_merge_delta(&mut b_set, &mut b_dvv, &response);

    assert!(!b_set.contains(&"x".to_string()), "x should be removed");
    assert!(b_set.contains(&"y".to_string()), "y should be present");
    assert_eq!(b_dvv.effective_counter(&nid("A")), 3);
}

#[test]
fn delta_since_partial_pull_response_converges() {
    // B already has some state from A; a partial pull should bring it up to date.
    let mut a_set = OrSet::<String>::new();
    let mut a_dvv = DotVersionVector::new(nid("A"));
    let mut b_set = OrSet::<String>::new();
    let mut b_dvv = DotVersionVector::new(nid("B"));

    // A adds "x"; B syncs.
    let delta_x = engine_apply_local(&mut a_set, &mut a_dvv, OrSetOp::Add("x".to_string()));
    engine_merge_delta(&mut b_set, &mut b_dvv, &delta_x);
    assert!(b_set.contains(&"x".to_string()));

    // A then adds "y" and removes "x" — B hasn't seen these yet.
    engine_apply_local(&mut a_set, &mut a_dvv, OrSetOp::Add("y".to_string()));
    engine_apply_local(&mut a_set, &mut a_dvv, OrSetOp::Remove("x".to_string()));

    // B pulls with its current knowledge.
    let b_knowledge = b_dvv.effective_map();
    let response = a_set.delta_since(&b_knowledge, &a_dvv);

    // The response must be minimal: 1 new add ("y") and 1 new tombstone.
    assert_eq!(response.adds.len(), 1);
    assert_eq!(response.tombstones.len(), 1);

    engine_merge_delta(&mut b_set, &mut b_dvv, &response);

    assert!(!b_set.contains(&"x".to_string()), "x should be removed");
    assert!(b_set.contains(&"y".to_string()), "y should be present");
    assert_eq!(b_dvv.effective_counter(&nid("A")), 3);
}

// ── More of the set ─────────────────────────────────────────────────────

fn add(set: &mut OrSet<String>, dvv: &mut DotVersionVector, value: &str) -> OrSetDelta<String> {
    engine_apply_local(set, dvv, OrSetOp::Add(value.to_string()))
}

fn remove(set: &mut OrSet<String>, dvv: &mut DotVersionVector, value: &str) -> OrSetDelta<String> {
    engine_apply_local(set, dvv, OrSetOp::Remove(value.to_string()))
}

fn sorted(set: &OrSet<String>) -> Vec<String> {
    let mut v = set.elements();
    v.sort();
    v
}

#[test]
fn empty_set_has_nothing() {
    let set = OrSet::<String>::new();
    assert!(set.is_empty());
    assert_eq!(set.len(), 0);
    assert_eq!(set.print_state(), "");
    assert!(set.get_random_element().is_none());
    assert!(OrSet::<String>::default().is_empty());
}

#[test]
fn state_is_printed_in_order() {
    let mut set = OrSet::<String>::new();
    let mut dvv = DotVersionVector::new(nid("A"));
    add(&mut set, &mut dvv, "pear");
    add(&mut set, &mut dvv, "apple");
    add(&mut set, &mut dvv, "fig\"s");
    add(&mut set, &mut dvv, "apple");
    assert_eq!(set.len(), 3);
    assert_eq!(set.print_state(), "\"apple\", \"fig\\\"s\", \"pear\"");
}

#[test]
fn some_element_is_offered() {
    let mut set = OrSet::<String>::new();
    let mut dvv = DotVersionVector::new(nid("A"));
    add(&mut set, &mut dvv, "only");
    assert_eq!(set.get_random_element(), Some("only".to_string()));
}

#[test]
fn merging_twice_is_merging_once() {
    let mut a = OrSet::<String>::new();
    let mut a_dvv = DotVersionVector::new(nid("A"));
    let mut b = OrSet::<String>::new();
    let mut b_dvv = DotVersionVector::new(nid("B"));
    let d = add(&mut a, &mut a_dvv, "x");
    engine_merge_delta(&mut b, &mut b_dvv, &d);
    engine_merge_delta(&mut b, &mut b_dvv, &d);
    assert_eq!(sorted(&b), vec!["x".to_string()]);
    let full = b.full_state(&b_dvv);
    assert_eq!(full.adds.len(), 1);
}

#[test]
fn merges_commute() {
    let mut a = OrSet::<String>::new();
    let mut a_dvv = DotVersionVector::new(nid("A"));
    let d1 = add(&mut a, &mut a_dvv, "x");
    let d2 = remove(&mut a, &mut a_dvv, "x");
    let d3 = add(&mut a, &mut a_dvv, "y");

    let mut b = OrSet::<String>::new();
    let mut b_dvv = DotVersionVector::new(nid("B"));
    engine_merge_delta(&mut b, &mut b_dvv, &d3);
    engine_merge_delta(&mut b, &mut b_dvv, &d2);
    engine_merge_delta(&mut b, &mut b_dvv, &d1);
    assert_eq!(sorted(&b), vec!["y".to_string()]);
    assert_eq!(sorted(&b), sorted(&a));
}

#[test]
fn exchange_converges() {
    let mut a = OrSet::<String>::new();
    let mut a_dvv = DotVersionVector::new(nid("A"));
    let mut b = OrSet::<String>::new();
    let mut b_dvv = DotVersionVector::new(nid("B"));
    add(&mut a, &mut a_dvv, "x");
    add(&mut b, &mut b_dvv, "y");
    let from_a = a.full_state(&a_dvv);
    let from_b = b.full_state(&b_dvv);
    engine_merge_delta(&mut a, &mut a_dvv, &from_b);
    engine_merge_delta(&mut b, &mut b_dvv, &from_a);
    assert_eq!(sorted(&a), vec!["x".to_string(), "y".to_string()]);
    assert_eq!(sorted(&a), sorted(&b));
}

#[test]
fn collection_drops_stable_tombstones_only() {
    let mut set = OrSet::<String>::new();
    let mut dvv = DotVersionVector::new(nid("A"));
    add(&mut set, &mut dvv, "x");
    add(&mut set, &mut dvv, "y");
    remove(&mut set, &mut dvv, "x");

    // The removal is not yet stable.
    let mut frontier = DotVersionVector::new(nid("A"));
    frontier.dot.counter = 2;
    set.perform_gc(&frontier);
    assert_eq!(set.full_state(&dvv).tombstones.len(), 1);

    frontier.dot.counter = 3;
    set.perform_gc(&frontier);
    assert_eq!(set.full_state(&dvv).tombstones.len(), 0);
    assert_eq!(sorted(&set), vec!["y".to_string()]);
}

#[test]
fn removing_what_is_not_there_changes_nothing() {
    let mut set = OrSet::<String>::new();
    let mut dvv = DotVersionVector::new(nid("A"));
    let d = remove(&mut set, &mut dvv, "x");
    assert!(d.adds.is_empty());
    assert!(d.tombstones.is_empty());
    assert_eq!(d.dot_counter, 1);
    assert!(set.is_empty());
}

// ── Messages ────────────────────────────────────────────────────────────

fn wire_dot(node: &str, counter: u64) -> Option<ProtoDot> {
    Some(ProtoDot { node_id: node.to_string(), counter })
}

fn wire_delta(adds: Vec<ProtoElemDot>, tombstones: Vec<ProtoDotPair>) -> ProtoOrSetDelta {
    ProtoOrSetDelta {
        adds,
        tombstones,
        context: VersionVector::new(),
        dot_node: "A".to_string(),
        dot_counter: 1,
    }
}

#[test]
fn message_without_dot_is_refused() {
    let m = wire_delta(vec![ProtoElemDot { element: vec![120], dot: None }], vec![]);
    assert!(matches!(OrSet::<String>::decode_delta(&m), Err(CodecError::MissingDot)));
    let m = wire_delta(vec![], vec![ProtoDotPair { add_dot: wire_dot("A", 1), remove_dot: None }]);
    assert!(matches!(OrSet::<String>::decode_delta(&m), Err(CodecError::MissingDot)));
}

#[test]
fn message_with_bad_element_is_refused() {
    let m = wire_delta(vec![ProtoElemDot { element: vec![0xff], dot: wire_dot("A", 1) }], vec![]);
    assert!(matches!(OrSet::<String>::decode_delta(&m), Err(CodecError::InvalidElement)));
    assert!(matches!(
        OrSet::<String>::decode_op(&ProtoOrSetOp { op: Some(Op::AddElement(vec![0xff])) }),
        Err(CodecError::InvalidElement)
    ));
}

#[test]
fn operation_is_read_back() {
    let m = OrSet::<String>::encode_op(&OrSetOp::Add("\u{e9}".to_string()));
    match &m.op {
        Some(Op::AddElement(bytes)) => assert_eq!(bytes, &vec![0xc3, 0xa9]),
        _ => panic!("an addition"),
    }
    match OrSet::<String>::decode_op(&m) {
        Ok(OrSetOp::Add(value)) => assert_eq!(value, "\u{e9}"),
        _ => panic!("an addition"),
    }
    match OrSet::<String>::decode_op(&OrSet::<String>::encode_op(&OrSetOp::Remove(nid("z")))) {
        Ok(OrSetOp::Remove(value)) => assert_eq!(value, "z"),
        _ => panic!("a removal"),
    }
    assert!(matches!(
        OrSet::<String>::decode_op(&ProtoOrSetOp { op: None }),
        Err(CodecError::MissingOperation)
    ));
}

#[test]
fn text_is_its_utf8_bytes() {
    let s = "h\u{f6}".to_string();
    assert_eq!(s.encode_elem(), vec![0x68, 0xc3, 0xb6]);
    assert_eq!(String::decode_elem(&[0x68, 0xc3, 0xb6]).ok(), Some(s));
    assert!(String::decode_elem(&[0xc3]).is_err());
}
