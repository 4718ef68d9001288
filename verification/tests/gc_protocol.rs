//! Rounds of collection through an object store.

use experimental_crdt::common::NodeId;
use experimental_crdt::crdt::or_set::{OrSet, OrSetOp};
use experimental_crdt::crdt::DeltaCrdt;
use experimental_crdt::gc_protocol::{
    compute_stable_timestamp, is_strictly_greater, CatchUpEvent, CatchUpStep, GcProtocolError,
    GcReplica, InitiateEvent, InitiateStep, JoinEvent, JoinStep,
};
use experimental_crdt::logical_clocks::dot_version_vector::DotVersionVector;
use experimental_crdt::logical_clocks::version_vector::VersionVector;
use experimental_crdt::object_store::{
    bottom_state_key, clock_key, epoch_entry_key, gc_intent_key, latest_number, member_key,
    BottomState, EpochEntry, GcIntent, ObjectStore,
};

fn clock(entries: &[(&str, u64)]) -> VersionVector {
    let mut v = VersionVector::new();
    for (node, counter) in entries {
        v.insert(node.to_string(), *counter);
    }
    v
}

fn names(v: &[&str]) -> Vec<String> {
    v.iter().map(|s| s.to_string()).collect()
}

fn replica(name: &str) -> GcReplica<OrSet<String>> {
    let node: NodeId = name.to_string();
    GcReplica::new(node.clone(), OrSet::new(), DotVersionVector::new(node))
}

#[test]
fn test_is_strictly_greater() {
    let mut vv1 = VersionVector::new();
    let mut vv2 = VersionVector::new();

    vv1.insert("a".to_string(), 5);
    vv2.insert("a".to_string(), 3);

    assert!(is_strictly_greater(&vv1, &vv2));
    assert!(!is_strictly_greater(&vv2, &vv1));

    vv1.insert("b".to_string(), 2);
    vv2.insert("b".to_string(), 2);

    assert!(is_strictly_greater(&vv1, &vv2));

    vv2.insert("c".to_string(), 1);
    assert!(!is_strictly_greater(&vv1, &vv2));

    vv1.insert("c".to_string(), 1);
    assert!(is_strictly_greater(&vv1, &vv2));
}

#[test]
fn test_is_strictly_greater_empty() {
    let mut vv1 = VersionVector::new();
    let vv2 = VersionVector::new();

    assert!(!is_strictly_greater(&vv1, &vv2));

    vv1.insert("a".to_string(), 1);
    assert!(is_strictly_greater(&vv1, &vv2));
}

#[test]
fn stable_timestamp_is_pointwise_minimum() {
    let v = compute_stable_timestamp(&vec![
        clock(&[("a", 5), ("b", 2)]),
        clock(&[("a", 3), ("b", 7), ("c", 1)]),
    ]);
    assert_eq!(v.counter(&"a".to_string()), 3);
    assert_eq!(v.counter(&"b".to_string()), 2);
    assert_eq!(v.counter(&"c".to_string()), 0);
    assert!(compute_stable_timestamp(&vec![]).is_empty());
}

#[test]
fn member_without_clock_holds_everything_back() {
    let v = compute_stable_timestamp(&vec![clock(&[("a", 5)]), clock(&[]), clock(&[("a", 4)])]);
    assert!(v.is_empty());
}

#[test]
fn first_round_is_committed() {
    let mut r = replica("a");
    r.local_write(OrSetOp::Add("x".to_string()));
    r.local_write(OrSetOp::Remove("x".to_string()));
    let step = InitiateStep::CatchUp(CatchUpStep::ListEpochs);
    let step = r.initiate_gc(step, InitiateEvent::CatchUp(CatchUpEvent::Keys(vec![])));
    assert!(matches!(step, InitiateStep::ListEpochs));
    let step = r.initiate_gc(step, InitiateEvent::Keys(vec![]));
    assert!(matches!(step, InitiateStep::ListMembers { epoch: 1 }));
    let step = r.initiate_gc(step, InitiateEvent::Keys(names(&["member/a", "member/b"])));
    match &step {
        InitiateStep::Claim { intent, members } => {
            assert_eq!(intent.epoch, 1);
            assert_eq!(intent.initiator_id, "a");
            assert_eq!(members, &names(&["a", "b"]));
        }
        _ => panic!("a claim"),
    }
    let step = r.initiate_gc(step, InitiateEvent::Claimed(true));
    assert!(matches!(step, InitiateStep::ListMembersAgain { epoch: 1, .. }));
    let step = r.initiate_gc(step, InitiateEvent::Keys(names(&["member/a", "member/b"])));
    assert!(matches!(step, InitiateStep::ReadClocks { epoch: 1, .. }));
    let clocks = vec![clock(&[("a", 2)]), clock(&[("a", 2), ("b", 4)])];
    let step = r.initiate_gc(step, InitiateEvent::Clocks(clocks));
    match &step {
        InitiateStep::WriteEntry { entry, bottom } => {
            assert_eq!(entry.epoch, 1);
            assert_eq!(entry.stable_timestamp.counter(&"a".to_string()), 2);
            assert_eq!(bottom.initiator_vv.counter(&"a".to_string()), 2);
            assert!(bottom.state_bytes.is_empty());
        }
        _ => panic!("a commit"),
    }
    assert!(r.crdt_state.full_state(&r.dvv).tombstones.is_empty());
    let step = r.initiate_gc(step, InitiateEvent::Written);
    assert!(matches!(step, InitiateStep::WriteBottom { epoch: 1, .. }));
    assert_eq!(r.epoch, 0);
    let step = r.initiate_gc(step, InitiateEvent::Written);
    assert!(matches!(step, InitiateStep::Release { epoch: 1, begun: true }));
    assert_eq!(r.epoch, 1);
    let step = r.initiate_gc(step, InitiateEvent::Released);
    assert!(matches!(step, InitiateStep::Done { outcome: Ok(true) }));
}

#[test]
fn claimed_by_another_gives_up() {
    let mut r = replica("a");
    let intent = GcIntent { epoch: 1, initiator_id: "a".to_string() };
    let step = InitiateStep::Claim { intent, members: vec![] };
    let step = r.initiate_gc(step, InitiateEvent::Claimed(false));
    assert!(matches!(step, InitiateStep::Done { outcome: Ok(false) }));
}

#[test]
fn changed_membership_gives_up() {
    let mut r = replica("a");
    let step = InitiateStep::ListMembersAgain { epoch: 4, members: names(&["a"]) };
    let step = r.initiate_gc(step, InitiateEvent::Keys(names(&["member/a", "member/b"])));
    assert!(matches!(step, InitiateStep::Release { epoch: 4, begun: false }));
    let step = r.initiate_gc(step, InitiateEvent::Released);
    assert!(matches!(step, InitiateStep::Done { outcome: Ok(false) }));
}

#[test]
fn round_without_progress_gives_up() {
    let mut r = replica("a");
    let step = InitiateStep::ReadPrevious { epoch: 2, stable: clock(&[("a", 3)]) };
    let previous = EpochEntry { epoch: 1, stable_timestamp: clock(&[("a", 3)]) };
    let step = r.initiate_gc(step, InitiateEvent::Entry(Some(previous)));
    assert!(matches!(step, InitiateStep::Release { epoch: 2, begun: false }));

    let step = InitiateStep::ReadPrevious { epoch: 2, stable: clock(&[("a", 4)]) };
    let previous = EpochEntry { epoch: 1, stable_timestamp: clock(&[("a", 3)]) };
    let step = r.initiate_gc(step, InitiateEvent::Entry(Some(previous)));
    assert!(matches!(step, InitiateStep::WriteEntry { .. }));
}

#[test]
fn replica_behind_gives_up() {
    let mut r = replica("a");
    let step = InitiateStep::ListEpochs;
    let step = r.initiate_gc(step, InitiateEvent::Keys(names(&["epoch_entry/3"])));
    assert!(matches!(step, InitiateStep::Done { outcome: Ok(false) }));
}

#[test]
fn answer_to_another_question_changes_nothing() {
    let mut r = replica("a");
    let step = InitiateStep::ListMembers { epoch: 1 };
    let step = r.initiate_gc(step, InitiateEvent::Claimed(true));
    assert!(matches!(step, InitiateStep::ListMembers { epoch: 1 }));
}

#[test]
fn replica_catches_up() {
    let mut r = replica("a");
    r.local_write(OrSetOp::Add("x".to_string()));
    r.local_write(OrSetOp::Remove("x".to_string()));
    let keys = names(&["epoch_entry/2", "epoch_entry/10", "epoch_entry/x", "other/99"]);
    let step = r.observe_epoch_change(CatchUpStep::ListEpochs, CatchUpEvent::Keys(keys));
    assert!(matches!(step, CatchUpStep::ReadEntry { epoch: 10 }));
    let entry = EpochEntry { epoch: 10, stable_timestamp: clock(&[("a", 2)]) };
    let step = r.observe_epoch_change(step, CatchUpEvent::Entry(Some(entry)));
    match &step {
        CatchUpStep::WriteClock { clock } => assert_eq!(clock.counter(&"a".to_string()), 2),
        _ => panic!("a clock"),
    }
    assert_eq!(r.epoch, 10);
    assert!(r.crdt_state.full_state(&r.dvv).tombstones.is_empty());
    let step = r.observe_epoch_change(step, CatchUpEvent::Written);
    assert!(matches!(step, CatchUpStep::Done { outcome: Ok(()) }));
    let keys = names(&["epoch_entry/10"]);
    let step = r.observe_epoch_change(CatchUpStep::ListEpochs, CatchUpEvent::Keys(keys));
    assert!(matches!(step, CatchUpStep::Done { outcome: Ok(()) }));
}

#[test]
fn missing_entry_is_an_error() {
    let mut r = replica("a");
    let step = r.observe_epoch_change(
        CatchUpStep::ReadEntry { epoch: 7 },
        CatchUpEvent::Entry(None),
    );
    match step {
        CatchUpStep::Done { outcome: Err(e) } => {
            assert_eq!(e, GcProtocolError::EpochEntryMissing(7));
            assert_eq!(e.message(), "epoch_entry missing for epoch 7");
        }
        _ => panic!("an error"),
    }
    assert_eq!(r.epoch, 0);
}

#[test]
fn new_replica_starts_from_what_was_seen() {
    let mut b = replica("b");
    b.local_write(OrSetOp::Add("mine".to_string()));
    let step = b.bootstrap(JoinStep::WriteMember, JoinEvent::Written);
    assert!(matches!(step, JoinStep::ListBottoms));
    let step = b.bootstrap(step, JoinEvent::Keys(names(&["bottom_state/3", "bottom_state/4"])));
    assert!(matches!(step, JoinStep::ReadIntent { epoch: 4 }));
    let step = b.bootstrap(step, JoinEvent::Intent(true));
    assert!(matches!(step, JoinStep::ReadBottom { epoch: 4 }));
    let bottom = BottomState {
        state_bytes: vec![],
        initiator_vv: clock(&[("a", 1), ("b", 9), ("c", 4)]),
    };
    let step = b.bootstrap(step, JoinEvent::Bottom(Some(bottom)));
    assert!(matches!(step, JoinStep::ReadEntry { epoch: 4, .. }));
    let entry = EpochEntry { epoch: 4, stable_timestamp: clock(&[("c", 6)]) };
    let step = b.bootstrap(step, JoinEvent::Entry(Some(entry)));
    match &step {
        JoinStep::WriteClock { clock } => {
            assert_eq!(clock.counter(&"a".to_string()), 1);
            assert_eq!(clock.counter(&"b".to_string()), 9);
            assert_eq!(clock.counter(&"c".to_string()), 6);
        }
        _ => panic!("a clock"),
    }
    assert_eq!(b.dvv.dot.counter, 9);
    assert!(!b.dvv.context.contains_node(&"b".to_string()));
    assert!(b.crdt_state.contains(&"mine".to_string()));
    assert_eq!(b.epoch, 4);
    let step = b.bootstrap(step, JoinEvent::Written);
    assert!(matches!(step, JoinStep::Done { outcome: Ok(()) }));
}

#[test]
fn mark_of_the_next_round_does_not_hold_a_new_replica_back() {
    let mut b = replica("b");
    for present in [true, false] {
        let step = b.bootstrap(JoinStep::ReadIntent { epoch: 2 }, JoinEvent::Intent(present));
        assert!(matches!(step, JoinStep::ReadBottom { epoch: 2 }));
    }
}

#[test]
fn joining_fails_without_its_records() {
    let mut b = replica("b");
    match b.bootstrap(JoinStep::ReadBottom { epoch: 4 }, JoinEvent::Bottom(None)) {
        JoinStep::Done { outcome: Err(e) } => {
            assert_eq!(e, GcProtocolError::BottomStateMissing(4));
            assert_eq!(e.message(), "bottom_state missing for epoch 4");
        }
        _ => panic!("an error"),
    }
    let bottom = BottomState { state_bytes: vec![], initiator_vv: clock(&[]) };
    match b.bootstrap(JoinStep::ReadEntry { epoch: 4, bottom }, JoinEvent::Entry(None)) {
        JoinStep::Done { outcome: Err(e) } => {
            assert_eq!(e.message(), "epoch_entry missing for epoch 4");
        }
        _ => panic!("an error"),
    }
    assert_eq!(b.epoch, 0);
}

#[test]
fn replicas_of_rounds_merge() {
    let mut a = replica("a");
    let mut b = replica("b");
    let d = a.local_write(OrSetOp::Add("x".to_string()));
    b.merge_delta(&d);
    assert!(b.crdt_state.contains(&"x".to_string()));
    assert_eq!(b.write_clock().counter(&"a".to_string()), 1);
}

#[test]
fn old_records_are_cleaned_up() {
    let a = replica("a");
    let keys = a.cleanup(&names(&["epoch_entry/1", "epoch_entry/3"]));
    let expected = vec![
        ("epoch_entry/1".to_string(), "bottom_state/1".to_string()),
        ("epoch_entry/2".to_string(), "bottom_state/2".to_string()),
    ];
    assert_eq!(keys, expected);
    assert!(a.cleanup(&vec![]).is_empty());
}

// ── The store ───────────────────────────────────────────────────────────

#[test]
fn store_keys() {
    assert_eq!(epoch_entry_key(12), "epoch_entry/12");
    assert_eq!(bottom_state_key(0), "bottom_state/0");
    assert_eq!(gc_intent_key(u64::MAX), "gc_intent/18446744073709551615");
    assert_eq!(member_key(&"n".to_string()), "member/n");
    assert_eq!(clock_key(&"n".to_string()), "clock/n");
}

#[test]
fn latest_number_among_keys() {
    let keys = names(&["epoch_entry/9", "epoch_entry/10", "epoch_entry/", "epoch_entry/-1"]);
    assert_eq!(latest_number("epoch_entry/", &keys), 10);
    assert_eq!(latest_number("bottom_state/", &keys), 0);
}

#[test]
fn missing_counters_count_as_zero() {
    assert!(!is_strictly_greater(&clock(&[("a", 0)]), &clock(&[])));
    assert!(!is_strictly_greater(&clock(&[]), &clock(&[("a", 0)])));
    assert!(is_strictly_greater(&clock(&[("a", 0), ("b", 1)]), &clock(&[("c", 0)])));
}

#[test]
fn absent_objects_are_no_failure() {
    let store = ObjectStore::new("b".to_string());
    assert_eq!(store.bucket, "b");
    assert_eq!(store.read(Ok::<u8, String>(7)), Ok(Some(7)));
    assert_eq!(store.read::<u8>(Err("service: NoSuchKey (404)".to_string())), Ok(None));
    assert_eq!(store.read::<u8>(Err("Not Found".to_string())), Ok(None));
    assert_eq!(store.read::<u8>(Err("timeout".to_string())), Err("timeout".to_string()));
    assert_eq!(store.read_or_default::<u64>(Err("NoSuchKey".to_string())), Ok(0));
    match store.read_or_default::<VersionVector>(Err("NoSuchKey".to_string())) {
        Ok(v) => assert!(v.is_empty()),
        Err(_) => panic!("an empty clock"),
    }
    assert!(store.read_or_default::<u64>(Err("timeout".to_string())).is_err());
    match store.read_or_default(Ok(clock(&[("a", 1)]))) {
        Ok(v) => assert_eq!(v.counter(&"a".to_string()), 1),
        Err(_) => panic!("the clock"),
    }
}

#[test]
fn swap_only_what_was_expected() {
    let store = ObjectStore::new("b".to_string());
    let mark = |e: u64, n: &str| Some(GcIntent { epoch: e, initiator_id: n.to_string() });
    assert!(store.cas::<GcIntent>(&None, &None));
    assert!(!store.cas(&mark(1, "a"), &None));
    assert!(!store.cas(&None, &mark(1, "a")));
    assert!(store.cas(&mark(1, "a"), &mark(1, "a")));
    assert!(!store.cas(&mark(1, "a"), &mark(1, "b")));
    assert!(!store.cas(&mark(1, "a"), &mark(2, "a")));
    let entry = |v: &[(&str, u64)]| Some(EpochEntry { epoch: 1, stable_timestamp: clock(v) });
    assert!(store.cas(&entry(&[("a", 1), ("b", 2)]), &entry(&[("b", 2), ("a", 1)])));
    assert!(!store.cas(&entry(&[("a", 1)]), &entry(&[("a", 1), ("b", 0)])));
    assert!(!store.cas(&Some(clock(&[("a", 1)])), &Some(clock(&[("a", 2)]))));
}

#[test]
fn suffixes_of_keys() {
    let store = ObjectStore::new("b".to_string());
    let keys = names(&["member/a", "members", "member/b/c", "member/"]);
    assert_eq!(store.list_suffixes(&keys, "member/"), names(&["a", "b/c", ""]));
    assert_eq!(store.list_keys(&keys, "member/"), names(&["a", "b/c", ""]));
}

#[test]
fn steps_name_the_epochs_they_read() {
    let read = |epoch| InitiateStep::ReadPrevious { epoch, stable: clock(&[]) };
    assert_eq!(read(2).previous_epoch(), Some(1));
    assert_eq!(read(0).previous_epoch(), None);
    assert_eq!(InitiateStep::ListEpochs.previous_epoch(), None);
    assert_eq!(JoinStep::ReadIntent { epoch: 4 }.intent_epoch(), Some(5));
    assert_eq!(JoinStep::ReadIntent { epoch: u64::MAX }.intent_epoch(), None);
    assert_eq!(JoinStep::WriteMember.intent_epoch(), None);
}
