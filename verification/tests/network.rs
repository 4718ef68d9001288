//! Frames, handshakes and dissemination.

use experimental_crdt::common::NodeId;
use experimental_crdt::dissemination as to_all;
use experimental_crdt::dissemination::DisseminationStrategy as TellsAll;
use experimental_crdt::logical_clocks::matrix_clock::MatrixClock;
use experimental_crdt::logical_clocks::version_vector::VersionVector;
use experimental_crdt::network::dissemination::{
    make_crdt_op_envelope, make_pull_request_envelope, DisseminationStrategy, PullPeriodic,
    PushDissemination, PushPull,
};
use experimental_crdt::network::protocol::{frame, frame_len, payload_len, FrameError, MAX_FRAME_LEN};
use experimental_crdt::network::simulated::{SimulatedNetwork, SimulatedPeer};
use experimental_crdt::network::tcp_connection::{
    begin_handshake, dispatch, first_backoff, handshake, local_handshake, next_backoff,
    receive_handshake, reconnect, HandshakeError, HandshakeEvent, HandshakeStep, TcpNetwork,
};
use experimental_crdt::network::Network;
use experimental_crdt::node_map::NodeMap;
use experimental_crdt::peers::peer_registry::{PeerHandle, PeerRegistry};
use experimental_crdt::proto::envelope::Payload;
use experimental_crdt::proto::{Envelope, Handshake};
use experimental_crdt::time::Interval;

fn id(s: &str) -> NodeId {
    s.to_string()
}

fn clock(entries: &[(&str, u64)]) -> VersionVector {
    let mut v = VersionVector::new();
    for (node, counter) in entries {
        v.insert(node.to_string(), *counter);
    }
    v
}

fn two_peers() -> PeerRegistry {
    let mut r = PeerRegistry::new();
    r.insert(id("p"), false, PeerHandle { channel: 1 });
    r.insert(id("q"), true, PeerHandle { channel: 2 });
    r
}

fn is_pull(e: &Envelope, origin: &str, gc: bool, a: u64) -> bool {
    match &e.payload {
        Some(Payload::CrdtPullRequest(r)) => {
            r.origin_node_id == origin
                && r.crdt_id == "set"
                && r.gc_replica == gc
                && r.knowledge.as_ref().unwrap().entries.counter(&id("a")) == a
        }
        _ => false,
    }
}

// ── Frames ──────────────────────────────────────────────────────────────

#[test]
fn frame_holds_length_and_payload() {
    assert_eq!(frame(&[7, 8]), vec![0, 0, 0, 2, 7, 8]);
    assert_eq!(frame(&[]), vec![0, 0, 0, 0]);
    let long = vec![1u8; 0x1_0203];
    let f = frame(&long);
    assert_eq!(&f[..4], &[0, 1, 2, 3]);
    assert_eq!(&f[4..], long.as_slice());
}

#[test]
fn frame_length_is_read_back() {
    assert_eq!(payload_len(&[1, 2, 3, 4]), 0x0102_0304);
    assert_eq!(frame_len(&[0, 0, 1, 0]), Ok(256));
    assert_eq!(frame_len(&MAX_FRAME_LEN.to_be_bytes()), Ok(16_777_216));
}

#[test]
fn frame_too_large_is_refused() {
    let e = frame_len(&(MAX_FRAME_LEN + 1).to_be_bytes()).unwrap_err();
    assert_eq!(e, FrameError::TooLarge(16_777_217));
    assert_eq!(e.message(), "frame too large: 16777217 bytes");
}

// ── Connections ─────────────────────────────────────────────────────────

#[test]
fn backoff_doubles_up_to_a_limit() {
    let mut b = first_backoff();
    let mut seen = vec![];
    for _ in 0..7 {
        seen.push(b.nanos / 1_000_000_000);
        b = next_backoff(&b);
    }
    assert_eq!(seen, vec![1, 2, 4, 8, 16, 30, 30]);
}

#[test]
fn a_connection_starts_the_backoff_over() {
    let secs = |i: Interval| i.nanos / 1_000_000_000;
    let (wait, next) = reconnect(&first_backoff(), false);
    assert_eq!((secs(wait), secs(next)), (1, 2));
    let (wait, next) = reconnect(&next, false);
    assert_eq!((secs(wait), secs(next)), (2, 4));
    let (wait, next) = reconnect(&Interval::from_secs(16), false);
    assert_eq!((secs(wait), secs(next)), (16, 30));
    let (wait, next) = reconnect(&Interval::from_secs(30), true);
    assert_eq!((secs(wait), secs(next)), (1, 2));
}

#[test]
fn initiator_writes_first() {
    let step = begin_handshake(true);
    assert!(matches!(step, HandshakeStep::WriteFirst));
    let step = handshake(step, HandshakeEvent::Written);
    assert!(matches!(step, HandshakeStep::Read));
    let hello = local_handshake("p", "Peer", true);
    match handshake(step, HandshakeEvent::Received(Some(hello))) {
        HandshakeStep::Done(Ok((node, gc))) => {
            assert_eq!(node, "p");
            assert!(gc);
        }
        _ => panic!("done"),
    }
}

#[test]
fn acceptor_reads_first() {
    let step = begin_handshake(false);
    let step = handshake(step, HandshakeEvent::Received(Some(local_handshake("p", "Peer", false))));
    assert!(matches!(&step, HandshakeStep::Write(n, false) if n == "p"));
    assert!(matches!(handshake(step, HandshakeEvent::Written), HandshakeStep::Done(Ok(_))));
}

#[test]
fn failed_handshakes() {
    assert_eq!(receive_handshake(&None), Err(HandshakeError::EarlyEnd));
    let old = Envelope {
        payload: Some(Payload::Handshake(Handshake {
            node_id: id("p"),
            node_name: id("p"),
            version: 2,
            gc_replica: false,
        })),
    };
    assert_eq!(receive_handshake(&Some(old)), Err(HandshakeError::UnsupportedVersion(2)));
    let other = make_pull_request_envelope("set", &id("p"), false, &clock(&[]));
    assert_eq!(receive_handshake(&Some(other)), Err(HandshakeError::NotAHandshake));
    assert_eq!(
        receive_handshake(&Some(Envelope { payload: None })),
        Err(HandshakeError::NotAHandshake)
    );
    assert_eq!(HandshakeError::EarlyEnd.message(), "EOF before handshake");
    assert_eq!(HandshakeError::UnsupportedVersion(2).message(), "unsupported version 2");
    assert_eq!(HandshakeError::NotAHandshake.message(), "expected Handshake, got ");
}

#[test]
fn handshake_out_of_turn_changes_nothing() {
    let step = handshake(HandshakeStep::Read, HandshakeEvent::Written);
    assert!(matches!(step, HandshakeStep::Read));
}

#[test]
fn empty_envelopes_are_not_handed_on() {
    assert!(!dispatch(&Envelope { payload: None }));
    assert!(dispatch(&local_handshake("p", "p", false)));
}

#[test]
fn kinds_of_networks() {
    assert!(!TcpNetwork.allow_bidirectional());
    let mut channels = NodeMap::new();
    channels.insert(id("h:1"), SimulatedPeer { node_id: id("p"), gc_replica: true });
    let net = SimulatedNetwork::new(channels);
    assert!(net.allow_bidirectional());
    let mut registry = PeerRegistry::new();
    let r = net.connect(&id("h:1"), &id("me"), &mut registry, PeerHandle { channel: 9 });
    assert_eq!(r, "p");
    assert_eq!(registry.get(&id("p")), Some((true, PeerHandle { channel: 9 })));
    let r = net.connect(&id("h:2"), &id("me"), &mut registry, PeerHandle { channel: 10 });
    assert_eq!(r, "me");
    assert_eq!(registry.len(), 1);
}

// ── Strategies ──────────────────────────────────────────────────────────

fn channels(sent: &[(PeerHandle, Envelope)]) -> Vec<u64> {
    let mut v: Vec<u64> = sent.iter().map(|s| s.0.channel).collect();
    v.sort();
    v
}

#[test]
fn push_advertises_to_all_peers() {
    let registry = two_peers();
    let mut s = PushDissemination::new();
    let sent = s.push_version_vector(&registry, &id("me"), "set", true, &clock(&[("a", 4)]));
    assert_eq!(channels(&sent), vec![1, 2]);
    assert!(sent.iter().all(|m| is_pull(&m.1, "me", true, 4)));
    assert_eq!(s.get_dissemination_round(), 1);
    assert_eq!(s.on_post_merge(&registry, &id("me"), "set", true, &clock(&[])).len(), 2);
    assert!(s.do_pull_round(&registry, &id("me"), "set", true, &clock(&[])).is_empty());
    assert_eq!(s.pull_interval(), None);
    let alone = PeerRegistry::new();
    assert!(s.push_version_vector(&alone, &id("me"), "set", true, &clock(&[])).is_empty());
    assert_eq!(s.get_dissemination_round(), 2);
}

#[test]
fn pull_asks_all_peers() {
    let registry = two_peers();
    let mut s = PullPeriodic::new(Interval::from_secs(1));
    assert!(s.push_version_vector(&registry, &id("me"), "set", false, &clock(&[])).is_empty());
    assert!(s.on_post_merge(&registry, &id("me"), "set", false, &clock(&[])).is_empty());
    let sent = s.do_pull_round(&registry, &id("me"), "set", false, &clock(&[("a", 1)]));
    assert_eq!(channels(&sent), vec![1, 2]);
    assert!(sent.iter().all(|m| is_pull(&m.1, "me", false, 1)));
    assert_eq!(s.get_dissemination_round(), 1);
    assert_eq!(s.pull_interval(), Some(Interval::from_secs(1)));
}

#[test]
fn push_pull_does_both() {
    let registry = two_peers();
    let mut s = PushPull::new(Interval::from_secs(2));
    let pushed = s.push_version_vector(&registry, &id("me"), "set", false, &clock(&[("a", 4)]));
    assert_eq!(pushed.len(), 1);
    assert!(pushed[0].0.channel == 1 || pushed[0].0.channel == 2);
    assert!(is_pull(&pushed[0].1, "me", false, 4));
    assert_eq!(s.do_pull_round(&registry, &id("me"), "set", false, &clock(&[])).len(), 2);
    assert_eq!(s.get_dissemination_round(), 2);
}

#[test]
fn push_pull_pushes_to_nobody_alone() {
    let registry = PeerRegistry::new();
    let mut s = PushPull::new(Interval::from_secs(2));
    assert!(s.push_version_vector(&registry, &id("me"), "set", false, &clock(&[])).is_empty());
}

#[test]
fn answers_carry_delta_and_question() {
    let registry = two_peers();
    let mut s = PushPull::new(Interval::from_secs(1));
    let mut m = MatrixClock::new();
    m.set_row(id("x"), clock(&[("a", 1)]));
    let (to, e) = s
        .respond_to_pull_request(
            &registry,
            &id("q"),
            "set",
            &id("me"),
            Some(vec![1, 2]),
            false,
            Some(m),
            Some(clock(&[("a", 5)])),
        )
        .unwrap();
    assert_eq!(to.channel, 2);
    match &e.payload {
        Some(Payload::CrdtOp(op)) => {
            assert_eq!(op.payload, vec![1, 2]);
            assert_eq!(op.origin_node_id, "me");
            let k = op.requester_knowledge.as_ref().unwrap();
            assert_eq!(k.entries.counter(&id("a")), 5);
            assert!(op.knowledge_matrix.as_ref().unwrap().entries.row(&id("x")).is_some());
        }
        _ => panic!("a delta"),
    }
    let (_, e) = s
        .respond_to_pull_request(
            &registry, &id("p"), "set", &id("me"), None, false, None, Some(clock(&[("a", 5)])),
        )
        .unwrap();
    assert!(is_pull(&e, "me", false, 5));
    assert!(s
        .respond_to_pull_request(&registry, &id("p"), "set", &id("me"), None, false, None, None)
        .is_none());
    assert!(s
        .respond_to_pull_request(
            &registry, &id("gone"), "set", &id("me"), Some(vec![]), false, None, None,
        )
        .is_none());
}

#[test]
fn pull_only_never_asks_back() {
    let registry = two_peers();
    let mut s = PullPeriodic::new(Interval::from_secs(1));
    let (_, e) = s
        .respond_to_pull_request(
            &registry, &id("p"), "set", &id("me"), Some(vec![9]), false, None,
            Some(clock(&[("a", 5)])),
        )
        .unwrap();
    match &e.payload {
        Some(Payload::CrdtOp(op)) => assert!(op.requester_knowledge.is_none()),
        _ => panic!("a delta"),
    }
    assert!(s
        .respond_to_pull_request(
            &registry, &id("p"), "set", &id("me"), None, false, None, Some(clock(&[])),
        )
        .is_none());
}

#[test]
fn delta_message_without_extras() {
    let e = make_crdt_op_envelope("set", &id("me"), vec![3], None, None);
    match e.payload {
        Some(Payload::CrdtOp(op)) => {
            assert_eq!(op.crdt_id, "set");
            assert!(op.knowledge_matrix.is_none());
        }
        _ => panic!("a delta"),
    }
}

// ── Strategies without a count ──────────────────────────────────────────

#[test]
fn broadcast_push_tells_everyone() {
    let registry = two_peers();
    let s = to_all::PushBroadcast::new();
    let sent = s.push_version_vector(&registry, &id("me"), "set", &clock(&[("a", 2)]));
    assert_eq!(channels(&sent), vec![1, 2]);
    assert!(sent.iter().all(|m| is_pull(&m.1, "me", false, 2)));
    assert_eq!(s.on_post_merge(&registry, &id("me"), "set", &clock(&[])).len(), 2);
    assert!(s.do_pull_round(&registry, &id("me"), "set", &clock(&[])).is_empty());
    assert!(s.pull_interval().is_none());
}

#[test]
fn broadcast_pull_asks_everyone() {
    let registry = two_peers();
    let s = to_all::PullPeriodic::new(Interval::from_secs(3));
    assert!(s.push_version_vector(&registry, &id("me"), "set", &clock(&[])).is_empty());
    assert!(s.on_post_merge(&registry, &id("me"), "set", &clock(&[])).is_empty());
    assert_eq!(channels(&s.do_pull_round(&registry, &id("me"), "set", &clock(&[]))), vec![1, 2]);
    assert_eq!(s.pull_interval(), Some(Interval::from_secs(3)));
    let r = s.respond_to_pull_request(
        &registry, &id("p"), "set", &id("me"), None, Some(clock(&[])),
    );
    assert!(r.is_none());
}

#[test]
fn broadcast_push_pull_asks_back() {
    let registry = two_peers();
    let s = to_all::PushPull::new(Interval::from_secs(3));
    let (to, e) = s
        .respond_to_pull_request(
            &registry, &id("p"), "set", &id("me"), Some(vec![1]), Some(clock(&[("a", 1)])),
        )
        .unwrap();
    assert_eq!(to.channel, 1);
    match &e.payload {
        Some(Payload::CrdtOp(op)) => assert!(op.requester_knowledge.is_some()),
        _ => panic!("a delta"),
    }
    assert_eq!(s.do_pull_round(&registry, &id("me"), "set", &clock(&[])).len(), 2);
}
