//! Engines and the coordinator of collections.

use experimental_crdt::common::NodeId;
use experimental_crdt::crdt::or_set::{OrSet, OrSetOp};
use experimental_crdt::crdt::{CodecError, DeltaCrdt};
use experimental_crdt::crdt_engine as broadcasting;
use experimental_crdt::dissemination::{PullRoundEngine, PushPull as PushPullAll};
use experimental_crdt::engine::crdt_engine::{
    jittered, next_initiation_delay, CrdtEngine, CrdtEngineReply, CrdtEngineRequest,
};
use experimental_crdt::gc::coordinator::{
    live_members, BootstrapEvent, BootstrapStep, GcCoordinator, GcInitiationAbortReason,
    InitiationEvent, InitiationStep,
};
use experimental_crdt::gc::stable::compute_stable_timestamp;
use experimental_crdt::gc::storage::{EpochMetadata, S3GcStorage, StoredState};
use experimental_crdt::gc::{GcConfig, GcReplicaConfig, GcStorageConfig};
use experimental_crdt::logical_clocks::dot_version_vector::DotVersionVector;
use experimental_crdt::logical_clocks::matrix_clock::MatrixClock;
use experimental_crdt::logical_clocks::version_vector::VersionVector;
use experimental_crdt::network::dissemination::{
    DisseminationStrategy, PullPeriodic, PushDissemination,
};
use experimental_crdt::peers::peer_registry::{PeerHandle, PeerRegistry};
use experimental_crdt::proto::{ProtoElemDot, ProtoOrSetDelta};
use experimental_crdt::time::Interval;

type Words = OrSet<String>;

fn id(s: &str) -> NodeId {
    s.to_string()
}

fn list(v: &[&str]) -> Vec<String> {
    v.iter().map(|s| s.to_string()).collect()
}

fn clock(entries: &[(&str, u64)]) -> VersionVector {
    let mut v = VersionVector::new();
    for (node, counter) in entries {
        v.insert(node.to_string(), *counter);
    }
    v
}

fn config(gc_replica: bool) -> GcConfig {
    GcConfig {
        gc_replica,
        observe_interval: Interval::from_secs(120),
        storage_config: GcStorageConfig { bucket: id("b"), prefix: id("gc/") },
        gc_replica_config: if gc_replica {
            Some(GcReplicaConfig::new(Interval::from_secs(300)))
        } else {
            None
        },
    }
}

fn engine(name: &str, gc_replica: bool) -> CrdtEngine<Words, PullPeriodic> {
    let s = PullPeriodic::new(Interval::from_secs(1));
    CrdtEngine::new(id(name), id("set"), OrSet::new(), s, config(gc_replica))
}

fn peers(v: &[(&str, bool, u64)]) -> PeerRegistry {
    let mut r = PeerRegistry::new();
    for (n, gc, channel) in v {
        r.insert(id(n), *gc, PeerHandle { channel: *channel });
    }
    r
}

fn add(value: &str) -> OrSetOp<String> {
    OrSetOp::Add(id(value))
}

// ── The engine ──────────────────────────────────────────────────────────

#[test]
fn write_counts_and_pull_only_is_silent() {
    let mut e = engine("a", false);
    let registry = peers(&[("p", false, 1)]);
    assert!(e.client_operation(&registry, add("x")).is_empty());
    assert_eq!(e.inner.dvv.dot.counter, 1);
    assert_eq!(e.print_state(), "\"x\"");
    assert_eq!(e.get_random_element(), "x");
    assert_eq!(e.dissemination.get_dissemination_round(), 0);
    assert_eq!(e.do_pull_round(&registry).len(), 1);
    assert_eq!(e.dissemination.get_dissemination_round(), 1);
}

#[test]
fn pushing_engine_advertises() {
    let mut e: CrdtEngine<Words, PushDissemination> =
        CrdtEngine::new(id("a"), id("set"), OrSet::new(), PushDissemination::new(), config(false));
    let registry = peers(&[("p", false, 1), ("q", true, 2)]);
    let mut to: Vec<u64> =
        e.client_operation(&registry, add("x")).iter().map(|m| m.0.channel).collect();
    to.sort();
    assert_eq!(to, vec![1, 2]);
    assert_eq!(e.dissemination.get_dissemination_round(), 1);
    assert!(e.do_pull_round(&registry).is_empty());
    assert_eq!(e.dissemination.get_dissemination_round(), 1);
}

#[test]
fn pull_brings_a_replica_up_to_date() {
    let mut a = engine("a", false);
    let mut b = engine("b", false);
    let registry = peers(&[("a", false, 1), ("b", false, 2)]);
    a.client_operation(&registry, add("x"));
    let known = b.inner.dvv.effective_map();
    let r = a.server_pull_request(&registry, &id("b"), &id("set"), &known).unwrap();
    assert!(r.knowledge_matrix.is_none());
    assert!(r.our_knowledge_request.is_none());
    let d = r.delta_payload;
    assert!(d.is_some());
    b.server_delta(&registry, &id("set"), &d, &None);
    assert!(b.inner.crdt.contains(&id("x")));
    let known = b.inner.dvv.effective_map();
    let r = a.server_pull_request(&registry, &id("b"), &id("set"), &known).unwrap();
    assert!(r.delta_payload.is_none());
}

#[test]
fn answer_asks_back_when_behind() {
    let mut a = engine("a", false);
    let registry = peers(&[]);
    let known = clock(&[("z", 3)]);
    let r = a.server_pull_request(&registry, &id("b"), &id("set"), &known).unwrap();
    assert!(r.delta_payload.is_none());
    assert!(r.our_knowledge_request.is_some());
    let sent = a.respond_to_pull_request(&registry, &id("b"), None, None, r.our_knowledge_request);
    assert!(sent.is_none());
}

#[test]
fn other_instances_are_ignored() {
    let mut a = engine("a", false);
    let registry = peers(&[]);
    assert!(a.server_pull_request(&registry, &id("b"), &id("other"), &clock(&[])).is_none());
    let full = a.inner.crdt.full_state(&a.inner.dvv);
    let m = Some(Words::encode_delta(&full));
    assert!(a.server_delta(&registry, &id("other"), &m, &None).is_empty());
    assert!(a.server_delta(&registry, &id("set"), &None, &None).is_empty());
}

#[test]
fn collecting_engine_tracks_its_peers() {
    let mut a = engine("a", true);
    let registry = peers(&[("n", false, 1), ("g", true, 2)]);
    a.server_pull_request(&registry, &id("n"), &id("set"), &clock(&[("a", 1)]));
    assert_eq!(a.print_matrix_clock(), "Matrix Clock: {\"n\": {\"a\": 1}}");
    // A collecting peer is told what the plain ones have seen, even without
    // news.
    let r = a.server_pull_request(&registry, &id("g"), &id("set"), &clock(&[])).unwrap();
    assert!(r.delta_payload.is_some());
    assert_eq!(r.knowledge_matrix.unwrap().nodes(), list(&["n"]));
    assert_eq!(engine("b", false).print_matrix_clock(), "Matrix Clock: GC replica disabled");
}

#[test]
fn requests_are_handled() {
    let mut a = engine("a", false);
    let registry = peers(&[("p", false, 1)]);
    let ask = |e: &mut CrdtEngine<Words, PullPeriodic>, r| e.handle(&registry, r);
    match ask(&mut a, CrdtEngineRequest::GetRandomElement) {
        CrdtEngineReply::Tell(t) => assert_eq!(t, "error: empty crdt"),
        _ => panic!("an answer"),
    }
    assert!(matches!(
        ask(&mut a, CrdtEngineRequest::ClientOperation(add("x"))),
        CrdtEngineReply::Send(v) if v.is_empty()
    ));
    match ask(&mut a, CrdtEngineRequest::PrintState) {
        CrdtEngineReply::Tell(t) => assert_eq!(t, "\"x\""),
        _ => panic!("an answer"),
    }
    match ask(&mut a, CrdtEngineRequest::PrintMatrix) {
        CrdtEngineReply::Tell(t) => assert_eq!(t, "Matrix Clock: GC replica disabled"),
        _ => panic!("an answer"),
    }
    assert!(matches!(
        ask(&mut a, CrdtEngineRequest::DoPullRound),
        CrdtEngineReply::Send(v) if v.len() == 1
    ));
    let r = CrdtEngineRequest::DeltaRequest(id("p"), id("set"), clock(&[]));
    assert!(matches!(ask(&mut a, r), CrdtEngineReply::Respond(n, _) if n == "p"));
    let r = CrdtEngineRequest::DeltaRequest(id("p"), id("other"), clock(&[]));
    assert!(matches!(ask(&mut a, r), CrdtEngineReply::Ignore));
    let r = CrdtEngineRequest::DeltaResponse(id("p"), id("set"), None, None);
    assert!(matches!(ask(&mut a, r), CrdtEngineReply::Send(v) if v.is_empty()));
    match ask(&mut a, CrdtEngineRequest::DeregistrationState) {
        CrdtEngineReply::Final(n, m) => {
            assert_eq!(n, 1);
            assert_eq!(m.adds.len(), 1);
        }
        _ => panic!("the last word"),
    }
    assert!(matches!(
        ask(&mut a, CrdtEngineRequest::InitiateGc),
        CrdtEngineReply::Initiate(InitiationStep::ReadMetadata)
    ));
    assert!(matches!(
        ask(&mut a, CrdtEngineRequest::ObserveEpochChange),
        CrdtEngineReply::ReadMetadata
    ));
    assert!(matches!(
        ask(&mut a, CrdtEngineRequest::PrintInternals),
        CrdtEngineReply::TellInternals
    ));
    assert!(matches!(
        ask(&mut a, CrdtEngineRequest::LogCrdtMetrics),
        CrdtEngineReply::LogMetrics(0)
    ));
}

#[test]
fn tries_are_spread_in_time() {
    let i = Interval::from_secs(100);
    assert_eq!(jittered(&i, -7).nanos, 99_999_999_993);
    assert_eq!(jittered(&i, 7).nanos, 100_000_000_007);
    assert_eq!(jittered(&Interval { nanos: 3 }, -7).nanos, 0);
    let mut seen = vec![];
    for _ in 0..50 {
        let d = next_initiation_delay(&i).nanos;
        assert!(d >= 95_000_000_000 && d <= 105_000_000_000);
        seen.push(d);
    }
    seen.dedup();
    assert!(seen.len() > 1);
}

// ── Collections ─────────────────────────────────────────────────────────

#[test]
fn collection_goes_through() {
    let mut a = engine("a", true);
    let registry = peers(&[("n", false, 1)]);
    a.client_operation(&registry, add("x"));
    a.client_operation(&registry, OrSetOp::Remove(id("x")));
    a.server_pull_request(&registry, &id("n"), &id("set"), &clock(&[("a", 2)]));
    let m = EpochMetadata { epoch: 4, v_stable: clock(&[]), obsolete_dots: vec![] };
    let step = a.initiate_gc(InitiationStep::ReadMetadata, InitiationEvent::Metadata(m));
    assert!(matches!(step, InitiationStep::ListMembers { epoch: 5, .. }));
    let step = a.initiate_gc(step, InitiationEvent::Members(list(&["a", "n"])));
    assert!(matches!(step, InitiationStep::ClaimIntent { epoch: 5, .. }));
    let step = a.initiate_gc(step, InitiationEvent::Claimed(true));
    let step = a.initiate_gc(step, InitiationEvent::Members(list(&["n", "a"])));
    assert!(matches!(step, InitiationStep::ReadFinalDots { epoch: 5, .. }));
    let step = a.initiate_gc(step, InitiationEvent::FinalDots(clock(&[])));
    match &step {
        InitiationStep::WriteState { state, metadata } => {
            assert_eq!(state.epoch, 5);
            assert!(state.state_payload.tombstones.is_empty());
            assert_eq!(metadata.v_stable.counter(&id("a")), 2);
        }
        _ => panic!("a state"),
    }
    let step = a.initiate_gc(step, InitiationEvent::Written);
    assert!(matches!(step, InitiationStep::WriteMetadata { .. }));
    assert_eq!(a.inner.gc.epoch(), 0);
    let step = a.initiate_gc(step, InitiationEvent::Written);
    assert_eq!(a.inner.gc.epoch(), 5);
    assert!(matches!(step, InitiationStep::ReleaseIntent { epoch: 5, outcome: None }));
    let step = a.initiate_gc(step, InitiationEvent::Released);
    assert!(matches!(step, InitiationStep::Done { outcome: None }));
}

#[test]
fn collection_is_given_up() {
    let mut a = engine("a", true);
    let claim = InitiationStep::ClaimIntent {
        epoch: 1,
        previous: clock(&[]),
        members: list(&["a"]),
    };
    let step = a.initiate_gc(claim, InitiationEvent::Claimed(false));
    assert!(matches!(
        step,
        InitiationStep::Done { outcome: Some(GcInitiationAbortReason::ConcurrentInitiator) }
    ));
    let again = InitiationStep::ListMembersAgain {
        epoch: 1,
        previous: clock(&[]),
        members: list(&["a"]),
    };
    let step = a.initiate_gc(again, InitiationEvent::Members(list(&["a", "b"])));
    assert!(matches!(
        step,
        InitiationStep::ReleaseIntent {
            epoch: 1,
            outcome: Some(GcInitiationAbortReason::MembershipChange),
        }
    ));
    let dots = InitiationStep::ReadFinalDots {
        epoch: 1,
        previous: clock(&[]),
        members: list(&["a"]),
    };
    let step = a.initiate_gc(dots, InitiationEvent::FinalDots(clock(&[])));
    assert!(matches!(
        step,
        InitiationStep::ReleaseIntent {
            epoch: 1,
            outcome: Some(GcInitiationAbortReason::NoProgress),
        }
    ));
}

#[test]
fn epoch_is_observed_once() {
    let mut a = engine("a", false);
    let registry = peers(&[]);
    a.client_operation(&registry, add("x"));
    a.client_operation(&registry, OrSetOp::Remove(id("x")));
    let m = EpochMetadata { epoch: 2, v_stable: clock(&[("a", 2)]), obsolete_dots: vec![] };
    assert!(a.observe_epoch_change(&m));
    assert!(!a.observe_epoch_change(&m));
    assert!(a.inner.crdt.full_state(&a.inner.dvv).tombstones.is_empty());
    assert_eq!(a.inner.gc.epoch(), 2);
}

#[test]
fn new_replica_joins() {
    let mut a = engine("a", true);
    let registry = peers(&[]);
    a.client_operation(&registry, add("x"));
    let full = a.inner.crdt.full_state(&a.inner.dvv);
    let state = |epoch| StoredState {
        epoch,
        state_payload: Some(Words::encode_delta(&full)),
        initiator_clock: clock(&[("a", 1)]),
    };
    let mut b = engine("b", false);
    let step = b.new_replica_bootstrap(BootstrapStep::ReadMetadata, BootstrapEvent::Epoch(3));
    assert!(matches!(step, BootstrapStep::ReadIntent { epoch: 3 }));
    let step = b.new_replica_bootstrap(step, BootstrapEvent::Intent(true));
    let step = b.new_replica_bootstrap(step, BootstrapEvent::Epoch(3));
    let step = b.new_replica_bootstrap(step, BootstrapEvent::Intent(true));
    assert!(matches!(step, BootstrapStep::PauseThenReadMetadata { epoch: 3 }));
    let step = b.new_replica_bootstrap(step, BootstrapEvent::Epoch(4));
    let step = b.new_replica_bootstrap(step, BootstrapEvent::Intent(false));
    assert!(matches!(step, BootstrapStep::ReadState { epoch: 4 }));
    let step = b.new_replica_bootstrap(step, BootstrapEvent::State(state(3)));
    assert!(matches!(step, BootstrapStep::PauseThenReadState { epoch: 4 }));
    assert!(b.inner.crdt.is_empty());
    let step = b.new_replica_bootstrap(step, BootstrapEvent::State(state(4)));
    assert!(matches!(step, BootstrapStep::Done { outcome: Ok(()) }));
    assert!(b.inner.crdt.contains(&id("x")));
    assert_eq!(b.inner.gc.epoch(), 4);
    assert_eq!(b.inner.dvv.effective_counter(&id("a")), 1);
}

#[test]
fn joining_with_a_broken_state_fails() {
    let mut b = engine("b", false);
    let broken = ProtoOrSetDelta {
        adds: vec![ProtoElemDot { element: vec![120], dot: None }],
        tombstones: vec![],
        context: VersionVector::new(),
        dot_node: id("a"),
        dot_counter: 1,
    };
    let state =
        StoredState { epoch: 4, state_payload: Some(broken), initiator_clock: clock(&[]) };
    let step =
        b.new_replica_bootstrap(BootstrapStep::ReadState { epoch: 4 }, BootstrapEvent::State(state));
    assert!(matches!(step, BootstrapStep::Done { outcome: Err(CodecError::MissingDot) }));
}

#[test]
fn joining_waits_for_the_state_of_its_epoch() {
    let mut b = engine("b", false);
    let step = b.new_replica_bootstrap(
        BootstrapStep::ReadState { epoch: 4 },
        BootstrapEvent::State(StoredState::absent()),
    );
    assert!(matches!(step, BootstrapStep::PauseThenReadState { epoch: 4 }));
    // A state of the right epoch that cannot be read ends it.
    let unread = StoredState { epoch: 4, state_payload: None, initiator_clock: clock(&[]) };
    let step = b.new_replica_bootstrap(step, BootstrapEvent::State(unread));
    assert!(matches!(step, BootstrapStep::Done { outcome: Err(CodecError::InvalidMessage) }));
    assert!(b.inner.crdt.is_empty());
}

#[test]
fn joining_looks_for_the_next_mark() {
    assert_eq!(BootstrapStep::ReadIntent { epoch: 3 }.intent_epoch(), Some(4));
    let again = BootstrapStep::ReadIntentAgain { epoch: 7, seen: 6 };
    assert_eq!(again.intent_epoch(), Some(8));
    assert_eq!(BootstrapStep::ReadIntent { epoch: u64::MAX }.intent_epoch(), None);
    assert_eq!(BootstrapStep::ReadMetadata.intent_epoch(), None);
}

#[test]
fn only_what_is_taken_up_informs_the_coordinator() {
    let e = engine("a", true);
    let asked = |crdt: &str| CrdtEngineRequest::DeltaRequest(id("b"), id(crdt), clock(&[]));
    assert!(e.informs_coordinator(&asked("set")));
    assert!(!e.informs_coordinator(&asked("other")));
    let source = engine("b", false);
    let delta = Words::encode_delta(&source.inner.crdt.full_state(&source.inner.dvv));
    let answer = |crdt: &str, payload, matrix| {
        CrdtEngineRequest::DeltaResponse(id("b"), id(crdt), payload, matrix)
    };
    let told = answer("set", Some(delta), Some(MatrixClock::new()));
    assert!(e.informs_coordinator(&told));
    assert!(!e.informs_coordinator(&answer("set", None, Some(MatrixClock::new()))));
    let delta = Words::encode_delta(&source.inner.crdt.full_state(&source.inner.dvv));
    assert!(!e.informs_coordinator(&answer("set", Some(delta), None)));
    let delta = Words::encode_delta(&source.inner.crdt.full_state(&source.inner.dvv));
    assert!(!e.informs_coordinator(&answer("other", Some(delta), Some(MatrixClock::new()))));
    assert!(!e.informs_coordinator(&CrdtEngineRequest::ClientOperation(add("x"))));
}

#[test]
fn collection_keeps_what_is_left_known() {
    let mut a = engine("a", false);
    let registry = peers(&[]);
    a.client_operation(&registry, add("x"));
    a.client_operation(&registry, add("y"));
    a.client_operation(&registry, OrSetOp::Remove(id("x")));
    let m = EpochMetadata { epoch: 1, v_stable: clock(&[("a", 3)]), obsolete_dots: vec![] };
    assert!(a.observe_epoch_change(&m));
    let full = a.inner.crdt.full_state(&a.inner.dvv);
    assert_eq!(full.adds.len(), 1);
    assert!(full.tombstones.is_empty());
    for (_, d) in full.adds.iter() {
        assert!(d.counter <= a.inner.dvv.effective_counter(&d.node_id));
    }
}

#[test]
fn stable_is_what_all_have_seen() {
    let mut m = MatrixClock::new();
    m.set_row(id("b"), clock(&[("a", 2), ("b", 9)]));
    let own = clock(&[("a", 5), ("b", 3), ("gone", 4)]);
    let members = list(&["a", "b"]);
    let (v, obsolete) = compute_stable_timestamp(&m, &id("a"), &members, &clock(&[]), &own);
    assert_eq!(v.counter(&id("a")), 2);
    assert_eq!(v.counter(&id("b")), 3);
    assert!(obsolete.is_empty());
    // A member of which nothing is known holds everything back.
    let members = list(&["a", "b", "c"]);
    let (v, _) = compute_stable_timestamp(&m, &id("a"), &members, &clock(&[]), &own);
    assert!(v.is_empty());
}

#[test]
fn departed_replicas_become_obsolete() {
    let mut m = MatrixClock::new();
    m.set_row(id("b"), clock(&[("a", 5), ("gone", 4)]));
    let own = clock(&[("a", 5), ("gone", 4)]);
    let members = list(&["a", "b"]);
    let (_, obsolete) =
        compute_stable_timestamp(&m, &id("a"), &members, &clock(&[("gone", 4)]), &own);
    assert_eq!(obsolete, list(&["gone"]));
    let (_, obsolete) =
        compute_stable_timestamp(&m, &id("a"), &members, &clock(&[("gone", 6)]), &own);
    assert!(obsolete.is_empty());
}

#[test]
fn coordinator_settings() {
    let g = GcCoordinator::new(config(true));
    assert!(g.gc_replica());
    assert_eq!(g.initiate_interval(), Some(Interval::from_secs(300)));
    assert_eq!(g.observe_interval(), Interval::from_secs(120));
    assert!(GcCoordinator::new(config(false)).initiate_interval().is_none());
    assert_eq!(live_members(&list(&["b", "a", "b"])), list(&["a", "b"]));
}

#[test]
fn records_have_keys() {
    let s = S3GcStorage::new(GcStorageConfig { bucket: id("bk"), prefix: id("gc//") });
    assert_eq!(s.bucket(), "bk");
    assert_eq!(s.gc_intent_key(7), "gc/gc_intent_7.json");
    assert_eq!(s.epoch_entry_key(), "gc/epoch_state.json");
    assert_eq!(s.final_dots_key_prefix(), "gc/final_dots/");
    assert_eq!(s.key("x", "y"), "gc/xy");
}

#[test]
fn last_events_are_read_from_keys() {
    let s = S3GcStorage::new(GcStorageConfig { bucket: id("bk"), prefix: id("gc") });
    assert_eq!(s.parse_final_dot_key("gc/final_dots/n_12.json"), Some((id("n"), 12)));
    assert_eq!(s.parse_final_dot_key("gc/final_dots/n_m_12.json"), None);
    assert_eq!(s.parse_final_dot_key("gc/final_dots/n_x.json"), None);
    assert_eq!(s.parse_final_dot_key("gc/final_dots/n_12"), None);
    assert_eq!(s.parse_final_dot_key("other/n_12.json"), None);
    let v = s.read_final_dots(&list(&["gc/final_dots/n_12.json", "x", "gc/final_dots/m_3.json"]));
    assert_eq!(v.counter(&id("n")), 12);
    assert_eq!(v.counter(&id("m")), 3);
}

// ── The broadcasting engine ─────────────────────────────────────────────

fn broadcaster(name: &str) -> broadcasting::CrdtEngine<Words, PushPullAll> {
    let s = PushPullAll::new(Interval::from_secs(1));
    broadcasting::CrdtEngine::new(id(name), id("set"), OrSet::new(), s)
}

#[test]
fn broadcasting_engine_tells_everyone() {
    let mut a = broadcaster("a");
    let registry = peers(&[("p", false, 1), ("q", false, 2)]);
    assert_eq!(a.client_operation(&registry, add("x")).len(), 2);
    assert_eq!(a.do_pull_round(&registry).len(), 2);
    assert_eq!(a.print_state(), "\"x\"");
    assert_eq!(a.get_random_element(), Some(id("x")));
}

#[test]
fn broadcasting_engines_converge() {
    let mut a = broadcaster("a");
    let mut b = broadcaster("b");
    let registry = peers(&[("a", false, 1), ("b", false, 2)]);
    a.client_operation(&registry, add("x"));
    b.client_operation(&registry, add("y"));
    let known = b.dvv.effective_map();
    let r = a.server_pull_request(&id("set"), &known).unwrap();
    assert!(r.our_knowledge_request.is_some());
    assert_eq!(b.server_delta(&registry, &id("set"), &r.delta_payload).len(), 2);
    let r = b.server_pull_request(&id("set"), &a.dvv.effective_map()).unwrap();
    a.server_delta(&registry, &id("set"), &r.delta_payload);
    assert_eq!(a.print_state(), "\"x\", \"y\"");
    assert_eq!(a.print_state(), b.print_state());
    assert!(a.server_pull_request(&id("other"), &known).is_none());
    let sent = a.respond_to_pull_request(&registry, &id("b"), Some(vec![1]), None);
    assert_eq!(sent.unwrap().0.channel, 2);
}

#[test]
fn vector_of_a_new_engine_is_empty() {
    let a = broadcaster("a");
    assert!(a.dvv.effective_map().is_empty());
    assert!(DotVersionVector::new(id("a")).effective_map().is_empty());
}

#[test]
fn nothing_is_known_before_the_first_epoch() {
    let m = EpochMetadata::initial();
    assert_eq!(m.epoch, 0);
    assert!(m.v_stable.is_empty());
    assert!(m.obsolete_dots.is_empty());
}

#[test]
fn metrics_of_collecting_engines() {
    let members = list(&["a", "node"]);
    let none = clock(&[]);
    let plain = engine("a", false);
    assert!(plain.inner.gc.log_metrics(&id("a"), &members, &none, &plain.inner.dvv).is_none());

    let mut a = engine("a", true);
    let registry = peers(&[("node", false, 1)]);
    a.client_operation(&registry, add("x"));
    let m = a.inner.gc.log_metrics(&id("a"), &members, &none, &a.inner.dvv).unwrap();
    assert_eq!(m.matrix_clock_size_bytes, Some(0));
    assert!(m.v_stable.is_empty());

    let known = clock(&[("a", 1), ("node", 7)]);
    a.server_pull_request(&registry, &id("node"), &id("set"), &known);
    let m = a.inner.gc.log_metrics(&id("a"), &members, &none, &a.inner.dvv).unwrap();
    assert_eq!(m.matrix_clock_size_bytes, Some(4 + (1 + 8) + (4 + 8)));
    assert_eq!(m.v_stable.counter(&id("a")), 1);
    assert_eq!(m.v_stable.counter(&id("node")), 0);
}
