//! Peers: registered, discovered, connected.

use experimental_crdt::common::NodeId;
use experimental_crdt::network::simulated::SimulatedNetwork;
use experimental_crdt::network::tcp_connection::{local_handshake, TcpNetwork};
use experimental_crdt::node_map::NodeMap;
use experimental_crdt::peers::discovery::{
    expires_at, list_live_node_ids, list_live_registrations, parse_registration_key,
    registration_key, registration_key_prefix, Discovery, DiscoveryConfig, RegistrationKeyError,
    DISCOVERY_NODES_PREFIX, FINAL_DOTS_PREFIX,
};
use experimental_crdt::peers::heartbeat;
use experimental_crdt::peers::peer_connector::PeerConnector;
use experimental_crdt::peers::peer_manager::PeerManager;
use experimental_crdt::peers::peer_registry::{PeerHandle, PeerRegistry};
use experimental_crdt::peers::reconciliation::reconcile;
use experimental_crdt::time::Interval;

fn id(s: &str) -> NodeId {
    s.to_string()
}

fn list(v: &[&str]) -> Vec<String> {
    v.iter().map(|s| s.to_string()).collect()
}

fn pairs(v: &[(&str, &str)]) -> Vec<(String, String)> {
    v.iter().map(|(a, b)| (a.to_string(), b.to_string())).collect()
}

// ── Registries ──────────────────────────────────────────────────────────

#[test]
fn registry_keeps_peers() {
    let mut r = PeerRegistry::new();
    assert!(r.is_empty());
    r.insert(id("p"), false, PeerHandle { channel: 1 });
    r.insert(id("q"), true, PeerHandle { channel: 2 });
    r.insert(id("p"), false, PeerHandle { channel: 3 });
    assert_eq!(r.len(), 2);
    assert_eq!(r.get(&id("p")), Some((false, PeerHandle { channel: 3 })));
    assert_eq!(r.get(&id("x")), None);
    let mut ids = r.peer_ids();
    ids.sort();
    assert_eq!(ids, list(&["p", "q"]));
    assert_eq!(r.get_all_non_gc_replicas(), list(&["p"]));
    assert_eq!(r.remove(&id("p")), Some(PeerHandle { channel: 3 }));
    assert_eq!(r.remove(&id("p")), None);
    assert!(!r.is_empty());
}

#[test]
fn registry_sends_to_known_peers() {
    let mut r = PeerRegistry::new();
    r.insert(id("p"), false, PeerHandle { channel: 7 });
    let (h, _) = r.send_to_peer(&id("p"), local_handshake("a", "a", false)).ok().unwrap();
    assert_eq!(h.channel, 7);
    let e = r.send_to_peer(&id("q"), local_handshake("a", "a", false)).err().unwrap();
    assert_eq!(e, "peer q not found");
    assert_eq!(r.broadcast(&local_handshake("a", "a", false)).len(), 1);
}

#[test]
fn manager_keeps_addresses() {
    let mut m = PeerManager::new();
    assert!(m.is_empty());
    m.insert(id("h:1"), PeerHandle { channel: 5 });
    assert_eq!(m.get(&id("h:1")), Some(PeerHandle { channel: 5 }));
    assert_eq!(m.peer_addrs(), list(&["h:1"]));
    assert_eq!(m.broadcast(&local_handshake("a", "a", false))[0].0.channel, 5);
    assert_eq!(m.len(), 1);
    assert_eq!(m.remove(&id("h:1")), Some(PeerHandle { channel: 5 }));
    assert_eq!(m.remove(&id("h:1")), None);
}

#[test]
fn connector_connects_once() {
    let mut c = PeerConnector::new(id("b"));
    let mut registry = PeerRegistry::new();
    assert!(c.wants_peer(&TcpNetwork, &id("c")));
    assert!(!c.wants_peer(&TcpNetwork, &id("a")));
    assert!(!c.wants_peer(&TcpNetwork, &id("b")));
    assert!(c.wants_peer(&SimulatedNetwork::new(NodeMap::new()), &id("a")));
    c.add_peer(id("c"), 11);
    assert!(!c.wants_peer(&TcpNetwork, &id("c")));
    registry.insert(id("c"), false, PeerHandle { channel: 1 });
    assert_eq!(c.remove_peer(&mut registry, &id("c")), Some(11));
    assert!(registry.is_empty());
    assert_eq!(c.remove_peer(&mut registry, &id("c")), None);
}

// ── Registrations ───────────────────────────────────────────────────────

#[test]
fn registration_keys() {
    assert_eq!(
        registration_key(&id("n1"), 1_700_000_000_000, true, "host:9000"),
        "nodes/n1__1__host:9000__1700000000000.json"
    );
    assert_eq!(registration_key(&id("n1"), -5, false, "h:1"), "nodes/n1__0__h:1__-5.json");
    assert_eq!(registration_key_prefix(&id("n1")), "nodes/n1__");
    assert_eq!(DISCOVERY_NODES_PREFIX, "nodes/");
    assert_eq!(FINAL_DOTS_PREFIX, "final_dots/");
}

#[test]
fn registration_key_is_read_back() {
    let key = registration_key(&id("n1"), 1_700_000_000_000, true, "host:9000");
    let reg = parse_registration_key(&key).ok().unwrap();
    assert_eq!(reg.node_id, "n1");
    assert_eq!(reg.node_name, "n1");
    assert_eq!(reg.addr, "host:9000");
    assert!(reg.gc_replica);
    assert_eq!(reg.expires_at, 1_700_000_000_000);
}

#[test]
fn prefix_finds_own_keys() {
    let key = registration_key(&id("n1"), 5, true, "h:1");
    assert!(key.starts_with(&registration_key_prefix(&id("n1"))));
    assert!(!key.starts_with(&registration_key_prefix(&id("n"))));
    assert!(!key.starts_with(&registration_key_prefix(&id("n11"))));
}

#[test]
fn bad_registration_keys() {
    let err = |k: &str| parse_registration_key(k).err().unwrap();
    assert!(matches!(err("node/a.json"), RegistrationKeyError::Prefix));
    assert!(matches!(err("nodes/a"), RegistrationKeyError::Suffix));
    assert!(matches!(err("nodes/__1__h__5.json"), RegistrationKeyError::MissingNodeId));
    assert!(matches!(err("nodes/.json"), RegistrationKeyError::MissingNodeId));
    assert!(matches!(err("nodes/a.json"), RegistrationKeyError::MissingGcReplica));
    assert!(matches!(
        err("nodes/a__2.json"),
        RegistrationKeyError::InvalidGcReplica(m) if m == "2"
    ));
    assert!(matches!(err("nodes/a__1.json"), RegistrationKeyError::MissingAddress));
    assert!(matches!(err("nodes/a__1__h.json"), RegistrationKeyError::MissingExpiry));
    assert!(matches!(err("nodes/a__1__h__x.json"), RegistrationKeyError::ExpiryNotANumber));
    assert!(matches!(err("nodes/a__1__h__5__6.json"), RegistrationKeyError::ExpiryNotANumber));
    assert!(matches!(
        err("nodes/a__1__h__9223372036854775807.json"),
        RegistrationKeyError::InvalidExpiry
    ));
}

#[test]
fn dates_end_somewhere() {
    let ok = |m: i64| parse_registration_key(&registration_key(&id("a"), m, true, "h")).is_ok();
    assert!(ok(8_210_266_876_799_999));
    assert!(!ok(8_210_266_876_800_000));
    assert!(ok(-8_334_601_228_800_000));
    assert!(!ok(-8_334_601_228_800_001));
}

#[test]
fn expiry_is_now_and_a_span() {
    let ttl = Interval::from_secs(30);
    assert_eq!(expires_at(1_500_000, &ttl), Some(30_001));
    assert_eq!(expires_at(-1, &Interval::from_secs(0)), Some(-1));
    assert_eq!(expires_at(0, &Interval::from_secs(u64::MAX)), None);
    assert_eq!(expires_at(0, &Interval::from_secs(8_210_266_876_799)), Some(8_210_266_876_799_000));
    assert_eq!(expires_at(0, &Interval::from_secs(8_210_266_876_800)), None);
}

#[test]
fn latest_live_registration_wins() {
    let keys = list(&[
        "nodes/b__0__h:1__100.json",
        "nodes/a__1__h:2__200.json",
        "nodes/a__1__h:3__300.json",
        "nodes/a__1__h:4__300.json",
        "nodes/c__0__h:5__50.json",
        "nodes/broken",
    ]);
    let mut live = list_live_registrations(&keys, 99);
    live.sort_by(|x, y| x.node_id.cmp(&y.node_id));
    assert_eq!(live.len(), 2);
    assert_eq!(live[0].node_id, "a");
    assert_eq!(live[0].addr, "h:3");
    assert_eq!(live[1].node_id, "b");
    assert_eq!(list_live_node_ids(&keys, 99), list(&["a", "b"]));
    // A registration ends with its last millisecond.
    assert_eq!(list_live_node_ids(&keys, 100), list(&["a"]));
}

fn service(own: &str, connect: Option<Vec<String>>) -> Discovery {
    let config = DiscoveryConfig {
        registration_ttl: Interval::from_secs(30),
        gc_replica: true,
        connect_node_ids: connect,
        ..DiscoveryConfig::default()
    };
    Discovery::new(config, id(own), id("name"), id("host"), id("9000"))
}

#[test]
fn registering_replaces_earlier_keys() {
    let d = service("n1", None);
    let u = d.register(2_000_000, list(&["nodes/n1__1__host:9000__7.json"])).unwrap();
    assert_eq!(u.delete, list(&["nodes/n1__1__host:9000__7.json"]));
    assert_eq!(u.key, "nodes/n1__1__host:9000__30002.json");
    assert_eq!(u.body, b"\"\"".to_vec());
    let mut endless = service("n1", None);
    endless.config.registration_ttl = Interval::from_secs(u64::MAX);
    assert!(endless.register(0, vec![]).is_none());
}

#[test]
fn leaving_records_the_last_event() {
    let d = service("n1", None);
    let u = d.deregister("gc", 42, list(&["k"]));
    assert_eq!(u.key, "gc/final_dots/n1_42.json");
    assert_eq!(u.delete, list(&["k"]));
}

#[test]
fn only_chosen_peers_are_candidates() {
    let keys = list(&[
        "nodes/a__0__h:1__100.json",
        "nodes/b__0__h:2__100.json",
        "nodes/c__0__h:3__100.json",
    ]);
    let mut ids: Vec<String> = service("a", None)
        .list_live_peers(&keys, 0)
        .into_iter()
        .map(|r| r.node_id)
        .collect();
    ids.sort();
    assert_eq!(ids, list(&["b", "c"]));
    let only = service("a", Some(list(&["c", "z"]))).list_live_peers(&keys, 0);
    assert_eq!(only.len(), 1);
    assert_eq!(only[0].node_id, "c");
}

#[test]
fn round_connects_and_disconnects() {
    let keys = list(&[
        "nodes/a__0__h:1__100.json",
        "nodes/b__0__h:2__100.json",
        "nodes/c__0__h:3__100.json",
        "nodes/d__0__h:4__100.json",
    ]);
    let r = service("b", None).discovery_round(&keys, 0, &list(&["c", "gone", "gone"]));
    assert_eq!(r.connect, pairs(&[("d", "h:4")]));
    assert_eq!(r.disconnect, list(&["gone"]));
}

#[test]
fn one_side_of_two_connects() {
    let left = reconcile(&id("a"), &pairs(&[("b", "h:2")]), &vec![]);
    let right = reconcile(&id("b"), &pairs(&[("a", "h:1")]), &vec![]);
    assert_eq!(left.connect, pairs(&[("b", "h:2")]));
    assert!(right.connect.is_empty());
    assert!(reconcile(&id("a"), &pairs(&[("a", "h:1")]), &vec![]).connect.is_empty());
}

#[test]
fn settled_peers_need_nothing() {
    let r = reconcile(&id("a"), &pairs(&[("b", "h:2")]), &list(&["b"]));
    assert!(r.connect.is_empty());
    assert!(r.disconnect.is_empty());
}

#[test]
fn discovery_defaults() {
    let c = DiscoveryConfig::default();
    assert_eq!(c.endpoint, "");
    assert!(!c.gc_replica);
    assert!(c.connect_node_ids.is_none());
    assert_eq!(c.poll_interval.nanos, 0);
    assert_eq!(heartbeat::DiscoveryConfig::default().bucket, "");
}

// ── Heartbeats ──────────────────────────────────────────────────────────

fn beating(ttl: Interval) -> heartbeat::Discovery {
    let config = heartbeat::DiscoveryConfig {
        registration_ttl: ttl,
        ..heartbeat::DiscoveryConfig::default()
    };
    heartbeat::Discovery::new(config, id("b"), id("B"), id("1.2.3.4:9"))
}

fn record(node: &str, addr: &str, at: i128) -> heartbeat::NodeRegistration {
    heartbeat::NodeRegistration {
        node_id: id(node),
        node_name: id(node),
        addr: id(addr),
        heartbeat: at,
    }
}

#[test]
fn stale_records_are_left_out() {
    let d = beating(Interval { nanos: 10 });
    assert_eq!(d.self_key(), "nodes/b.json");
    let own = d.register(77);
    assert_eq!(own.addr, "1.2.3.4:9");
    assert_eq!(own.heartbeat, 77);
    let found = vec![
        (id("nodes/b.json"), Some(own)),
        (id("nodes/a.json"), Some(record("a", "h:1", 90))),
        (id("nodes/c.json"), Some(record("c", "h:3", 89))),
        (id("nodes/d.json"), None),
        (id("nodes/e.json"), Some(record("e", "h:5", 101))),
    ];
    let live = d.list_live_peers(100, found).unwrap();
    assert_eq!(live.len(), 2);
    assert_eq!(live[0].node_id, "a");
    assert_eq!(live[1].node_id, "e");
    let r = d.discovery_round(&live, &list(&["c"]));
    assert_eq!(r.connect, pairs(&[("e", "h:5")]));
    assert_eq!(r.disconnect, list(&["c"]));
}

#[test]
fn spans_that_cannot_be_measured() {
    let most = Interval { nanos: 9_223_372_036_854_775_807_000_000 };
    assert!(beating(most).list_live_peers(0, vec![]).is_some());
    let more = Interval { nanos: 9_223_372_036_854_775_807_000_001 };
    assert!(beating(more).list_live_peers(0, vec![]).is_none());
}
