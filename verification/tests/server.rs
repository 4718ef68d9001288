//! The server, its clients, and experiments.

use experimental_crdt::client::{
    bench_command, bench_goes_on, draw_key, one_request, parse_line, server_address,
};
use experimental_crdt::crdt::or_set::OrSetOp;
use experimental_crdt::experiment::{
    compute_connect_node_ids, connect_node_ids, replica_name, replica_number, replicas,
};
use experimental_crdt::gc::{GcConfig, GcStorageConfig};
use experimental_crdt::logical_clocks::matrix_clock::MatrixClock;
use experimental_crdt::logical_clocks::version_vector::VersionVector;
use experimental_crdt::network::dissemination::{
    make_crdt_op_envelope, make_pull_request_envelope, DisseminationStrategy,
};
use experimental_crdt::network::tcp_connection::local_handshake;
use experimental_crdt::peers::peer_registry::PeerRegistry;
use experimental_crdt::proto::envelope::Payload;
use experimental_crdt::proto::proto_client_command::Command;
use experimental_crdt::proto::{CrdtPullRequest, Envelope};
use experimental_crdt::server::client_requests_handler::{
    failure, frame_response, handle_command, remove_named, send_engine_request,
    send_engine_request_and_wait_response, ClientStep,
};
use experimental_crdt::server::peer_message_handler::{handle_received_envelope, PeerRequest};
use experimental_crdt::server::settings::{
    parse_connect_node_ids, settings, ConfigCliInfo, ReplicaInfo,
};
use experimental_crdt::server::standalone;
use experimental_crdt::server::{Server, ServerAction, ServerConfig, ServerEvent};
use experimental_crdt::storage::{
    decode_failure, get_object_optional, put_object_if_absent, StoreFailure,
};
use experimental_crdt::time::Interval;

fn id(s: &str) -> String {
    s.to_string()
}

fn list(v: &[&str]) -> Vec<String> {
    v.iter().map(|s| s.to_string()).collect()
}

fn clock(entries: &[(&str, u64)]) -> VersionVector {
    let mut v = VersionVector::new();
    for (node, counter) in entries {
        v.insert(node.to_string(), *counter);
    }
    v
}

// ── Servers ─────────────────────────────────────────────────────────────

fn server(experiment: bool) -> Server {
    Server::new(ServerConfig {
        listen_host: id("h"),
        listen_port: id("9000"),
        node_name: id("n1"),
        gc_replica: false,
        experiment,
        client_port: None,
    })
}

#[test]
fn server_goes_by_its_name() {
    let s = server(false);
    assert_eq!(s.node_id, "n1");
    assert_eq!(s.node_name, "n1");
    assert!(s.first_operation().is_none());
    match server(true).first_operation() {
        Some(OrSetOp::Add(v)) => assert_eq!(v, "test-n1"),
        _ => panic!("an addition"),
    }
    let e = s.engine(GcConfig {
        gc_replica: false,
        observe_interval: Interval::from_secs(1),
        storage_config: GcStorageConfig { bucket: id("b"), prefix: id("p") },
        gc_replica_config: None,
    });
    assert_eq!(e.crdt_id, "default-orset");
    assert_eq!(e.dissemination.pull_interval(), Some(Interval::from_secs(1)));
}

fn standalone_server() -> standalone::Server {
    let i = Interval::from_secs(1);
    standalone::Server::new(id("l"), id("a"), "name", None, id("gc"), i, i, i)
}

#[test]
fn standalone_server_has_a_random_id() {
    let a = standalone_server();
    let b = standalone_server();
    assert_ne!(a.node_id, b.node_id);
    assert_eq!(a.node_id.len(), 36);
    assert_eq!(a.node_id.as_bytes()[14], b'4');
    assert_eq!(a.node_id.matches('-').count(), 4);
    assert!("89ab".contains(a.node_id.as_bytes()[19] as char));
    assert_eq!(a.node_name, "name");
}

#[test]
fn standalone_server_serves_clients() {
    let mut e = standalone_server().engine();
    assert_eq!(e.crdt_id, "default-orset");
    let r = PeerRegistry::new();
    let told = |reply| match reply {
        standalone::ClientReply::Tell(text, sent) => {
            assert!(sent.is_empty());
            text
        }
        standalone::ClientReply::TellInternals => id("internals"),
    };
    let mut ask = |c: Option<Command>| told(standalone::serve_client(&mut e, &r, c));
    assert_eq!(ask(Some(Command::Add(id("x")))), "ok");
    assert_eq!(ask(Some(Command::Add(id("y")))), "ok");
    assert_eq!(ask(Some(Command::PrintState(true))), "\"x\", \"y\"");
    assert_eq!(ask(Some(Command::Remove(id("x")))), "ok");
    assert_eq!(ask(Some(Command::PrintState(true))), "\"y\"");
    assert_eq!(ask(Some(Command::PrintInternals(true))), "internals");
    assert_eq!(ask(None), "error: empty command");
    assert_eq!(ask(Some(Command::PrintMatrix(true))), "error: empty command");
    assert_eq!(e.dvv.dot.counter, 3);
}

#[test]
fn standalone_servers_converge() {
    let r = PeerRegistry::new();
    let mut a = standalone_server().engine();
    let mut b = standalone_server().engine();
    standalone::serve_client(&mut a, &r, Some(Command::Add(id("x"))));
    let work = standalone::PeerWork::Answer(id("b"), id("default-orset"), VersionVector::new());
    let delta = match standalone::serve_peer(&mut a, &r, work) {
        standalone::PeerReply::Respond(to, response) => {
            assert_eq!(to, "b");
            assert!(response.our_knowledge_request.is_none());
            response.delta_payload
        }
        _ => panic!("the peer is answered"),
    };
    let merge = standalone::PeerWork::Merge(id("default-orset"), delta);
    match standalone::serve_peer(&mut b, &r, merge) {
        standalone::PeerReply::Send(sent) => assert!(sent.is_empty()),
        _ => panic!("nothing is answered"),
    }
    assert_eq!(b.print_state(), "\"x\"");
    let other = standalone::PeerWork::Answer(id("b"), id("other"), VersionVector::new());
    let reply = standalone::serve_peer(&mut a, &r, other);
    assert!(matches!(reply, standalone::PeerReply::Ignore));
}

// ── Messages of peers ───────────────────────────────────────────────────

#[test]
fn delta_with_question_asks_two_things() {
    let mut m = MatrixClock::new();
    m.set_row(id("x"), clock(&[("a", 1)]));
    let e = make_crdt_op_envelope("set", &id("p"), vec![1], Some(m), Some(clock(&[("a", 2)])));
    let r = handle_received_envelope(e);
    assert_eq!(r.len(), 2);
    match (&r[0], &r[1]) {
        (PeerRequest::Delta(n, c, bytes, matrix), PeerRequest::Pull(n2, c2, k)) => {
            assert_eq!((n.as_str(), c.as_str()), ("p", "set"));
            assert_eq!(bytes, &vec![1]);
            assert!(matrix.as_ref().unwrap().row(&id("x")).is_some());
            assert_eq!((n2.as_str(), c2.as_str()), ("p", "set"));
            assert_eq!(k.counter(&id("a")), 2);
        }
        _ => panic!("a delta and a question"),
    }
}

#[test]
fn question_without_knowledge_is_answered() {
    let e = make_crdt_op_envelope("s", &id("A"), vec![1], None, Some(clock(&[])));
    match &handle_received_envelope(e)[..] {
        [PeerRequest::Delta(n, c, b, None), PeerRequest::Pull(n2, c2, k)] => {
            assert_eq!((n.as_str(), c.as_str(), b), ("A", "s", &vec![1]));
            assert_eq!((n2.as_str(), c2.as_str()), ("A", "s"));
            assert!(k.is_empty());
        }
        _ => panic!("a delta and a question"),
    }
    let e = make_crdt_op_envelope("set", &id("p"), vec![1], None, None);
    assert_eq!(handle_received_envelope(e).len(), 1);
}

#[test]
fn pull_request_asks_one_thing() {
    let e = make_pull_request_envelope("set", &id("p"), false, &clock(&[("a", 2)]));
    let r = handle_received_envelope(e);
    assert!(matches!(&r[..], [PeerRequest::Pull(n, _, k)] if n == "p" && k.counter(&id("a")) == 2));
    let e = Envelope {
        payload: Some(Payload::CrdtPullRequest(CrdtPullRequest {
            crdt_id: id("set"),
            origin_node_id: id("p"),
            knowledge: None,
            gc_replica: false,
        })),
    };
    let r = handle_received_envelope(e);
    assert!(matches!(&r[..], [PeerRequest::Pull(_, _, k)] if k.is_empty()));
}

#[test]
fn other_messages_ask_nothing() {
    assert!(handle_received_envelope(local_handshake("a", "a", false)).is_empty());
    assert!(handle_received_envelope(Envelope { payload: None }).is_empty());
}

// ── Clients ─────────────────────────────────────────────────────────────

#[test]
fn commands_lead_to_steps() {
    assert!(matches!(
        handle_command(Some(Command::Add(id("x")))),
        ClientStep::Operate(OrSetOp::Add(v)) if v == "x"
    ));
    assert!(matches!(
        handle_command(Some(Command::Remove(id("x")))),
        ClientStep::Operate(OrSetOp::Remove(v)) if v == "x"
    ));
    assert!(matches!(handle_command(Some(Command::RemoveRandom(true))), ClientStep::AskElement));
    assert!(matches!(handle_command(Some(Command::PrintState(true))), ClientStep::PrintState));
    assert!(matches!(
        handle_command(Some(Command::PrintInternals(false))),
        ClientStep::PrintInternals
    ));
    assert!(matches!(handle_command(Some(Command::PrintMatrix(true))), ClientStep::PrintMatrix));
    assert!(matches!(
        handle_command(None),
        ClientStep::Answer(t) if t == "error: empty command"
    ));
}

#[test]
fn named_element_is_removed_unless_there_is_none() {
    assert!(matches!(
        remove_named(id("x")),
        ClientStep::Operate(OrSetOp::Remove(v)) if v == "x"
    ));
    assert!(matches!(
        remove_named(id("error: empty crdt")),
        ClientStep::Answer(t) if t == "error: empty crdt"
    ));
}

#[test]
fn random_removal_removes() {
    let r = PeerRegistry::new();
    let mut e = standalone_server().engine();
    standalone::serve_client(&mut e, &r, Some(Command::Add(id("x"))));
    match remove_named(e.get_random_element().unwrap()) {
        ClientStep::Operate(op) => e.client_operation(&r, op),
        _ => panic!("an operation"),
    };
    assert!(e.get_random_element().is_none());
}

#[test]
fn clients_are_told() {
    assert_eq!(send_engine_request(Ok(())), "ok");
    assert_eq!(send_engine_request(Err(id("closed"))), "error: closed");
    assert_eq!(send_engine_request_and_wait_response(Ok(id("s"))), "s");
    assert_eq!(send_engine_request_and_wait_response(Err(id("closed"))), "error: closed");
    assert_eq!(failure("bad"), "error: bad");
    assert_eq!(frame_response(&id("ok")), Some(vec![0, 0, 0, 2, b'o', b'k']));
    assert_eq!(frame_response(&id("\u{e9}")), Some(vec![0, 0, 0, 2, 0xc3, 0xa9]));
}

#[test]
fn lines_are_commands() {
    let cmd = |l: &str| parse_line(l).ok().unwrap().unwrap();
    assert!(matches!(cmd("add x y "), Command::Add(v) if v == "x y"));
    assert!(matches!(cmd("  remove x"), Command::Remove(v) if v == "x"));
    assert!(matches!(cmd("remove-random"), Command::RemoveRandom(true)));
    assert!(matches!(cmd("print-state"), Command::PrintState(true)));
    assert!(matches!(cmd("print-internals"), Command::PrintInternals(true)));
    assert!(matches!(cmd("print-matrix\n"), Command::PrintMatrix(true)));
    assert!(parse_line("quit").ok().unwrap().is_none());
    assert!(parse_line("exit").ok().unwrap().is_none());
    assert!(matches!(cmd("add  x"), Command::Add(v) if v == " x"));
}

#[test]
fn lines_that_are_no_commands() {
    assert_eq!(parse_line("   ").err().unwrap(), "");
    assert_eq!(
        parse_line(" hop \"x\"").err().unwrap(),
        "Unknown command: \"hop \\\"x\\\"\". Try: add <v>, remove <v>, print-state, print-internals, print-matrix, quit"
    );
    assert!(parse_line("add").is_err());
    assert!(parse_line("quit now").is_err());
    assert!(parse_line("remove-random 3").is_err());
}

#[test]
fn benchmarks_send_requests() {
    let (name, c) = bench_command(0, true, 5);
    assert_eq!(name, "key-5");
    assert!(matches!(c, Command::Add(v) if v == "key-5"));
    let (name, c) = bench_command(1, true, 5);
    assert_eq!(name, "remove-random");
    assert!(matches!(c, Command::RemoveRandom(true)));
    assert!(matches!(bench_command(1, false, 7).1, Command::Add(v) if v == "key-7"));
    assert_eq!(draw_key(1), 0);
    for _ in 0..50 {
        assert!(draw_key(3) < 3);
    }
    assert!((0..500).any(|_| draw_key(2) == 1));
    assert!(bench_goes_on(9, None));
    assert!(bench_goes_on(9, Some(10)));
    assert!(!bench_goes_on(10, Some(10)));
    assert_eq!(server_address(true, 3), "gc-server-3:9100");
    assert_eq!(server_address(false, 12), "normal-server-12:9100");
    assert!(matches!(one_request(true, 4), Command::Add(v) if v == "gc-key-4"));
    assert!(matches!(one_request(false, 4), Command::Add(v) if v == "normal-key-4"));
}

// ── Settings ────────────────────────────────────────────────────────────

#[test]
fn list_of_replicas_is_read() {
    assert_eq!(parse_connect_node_ids(" a, b ,,a"), Some(list(&["a", "b"])));
    assert_eq!(parse_connect_node_ids(" , "), None);
    assert_eq!(parse_connect_node_ids(""), None);
}

fn info() -> ConfigCliInfo {
    ConfigCliInfo {
        endpoint: id("http://e"),
        bucket: id("b"),
        region: id("r"),
        access_key: id("k"),
        secret_key: id("s"),
        discovery_interval_secs: 30,
        registration_ttl_secs: 40,
        gc_prefix: id("gc"),
        listen_host: id("h"),
        gc_observe_interval_secs: 120,
        gc_initiate_interval_secs: 300,
    }
}

#[test]
fn settings_of_a_replica() {
    let s = settings(
        info(),
        ReplicaInfo {
            name: None,
            listen_port: id("9000"),
            client_port: Some(id("9100")),
            gc_replica: true,
            experiment: false,
            connect_node_ids: Some(list(&["x"])),
        },
    );
    assert_eq!(s.server.node_name, "h");
    assert_eq!(s.server.client_port, Some(id("9100")));
    assert_eq!(s.discovery.registration_ttl, Interval::from_secs(40));
    assert_eq!(s.discovery.connect_node_ids, Some(list(&["x"])));
    assert_eq!(s.gc.storage_config.bucket, "b");
    assert_eq!(
        s.gc.gc_replica_config.unwrap().initiate_interval,
        Interval::from_secs(300)
    );
    let s = settings(
        info(),
        ReplicaInfo {
            name: Some(id("n")),
            listen_port: id("1"),
            client_port: None,
            gc_replica: false,
            experiment: true,
            connect_node_ids: None,
        },
    );
    assert_eq!(s.server.node_name, "n");
    assert!(s.server.experiment);
    assert!(s.gc.gc_replica_config.is_none());
}

#[test]
fn running_server_reacts() {
    let s = server(false);
    let e = make_pull_request_envelope("set", &id("p"), false, &clock(&[]));
    match s.react(ServerEvent::Received(e)) {
        ServerAction::Ask(r) => assert_eq!(r.len(), 1),
        _ => panic!("a question"),
    }
    assert!(matches!(s.react(ServerEvent::MetricsTick), ServerAction::LogMetrics));
    assert!(matches!(s.react(ServerEvent::Cancelled), ServerAction::ShutDown));
}

// ── Experiments ─────────────────────────────────────────────────────────

#[test]
fn plain_replicas_are_dealt_out() {
    assert_eq!(
        compute_connect_node_ids("gc-server-1", true, 2, 5),
        list(&["gc-server-2", "normal-server-1", "normal-server-3", "normal-server-5"])
    );
    assert_eq!(
        compute_connect_node_ids("gc-server-2", true, 2, 5),
        list(&["gc-server-1", "normal-server-2", "normal-server-4"])
    );
    assert_eq!(compute_connect_node_ids("normal-server-4", false, 2, 5), list(&["gc-server-2"]));
    assert_eq!(compute_connect_node_ids("normal-server-5", false, 2, 5), list(&["gc-server-1"]));
    assert_eq!(compute_connect_node_ids("gc-server-1", true, 1, 0), list(&[]));
    assert_eq!(connect_node_ids("gc-server-1", true, 3, 0), None);
    assert_eq!(
        connect_node_ids("normal-server-1", false, 3, 1),
        Some(list(&["gc-server-1"]))
    );
}

#[test]
fn neighbours_name_each_other() {
    for g in 1..4u64 {
        for n in 1..8u64 {
            let of_g = compute_connect_node_ids(&replica_name(true, g), true, 3, 7);
            let of_n = compute_connect_node_ids(&replica_name(false, n), false, 3, 7);
            assert_eq!(
                of_g.contains(&replica_name(false, n)),
                of_n.contains(&replica_name(true, g))
            );
        }
    }
}

#[test]
fn names_hold_numbers() {
    assert_eq!(replica_number(true, "gc-server-12"), Some(12));
    assert_eq!(replica_number(false, "gc-server-12"), None);
    assert_eq!(replica_number(true, "gc-server-"), None);
    assert_eq!(replica_name(false, 3), "normal-server-3");
}

#[test]
fn replicas_have_ports() {
    let r = replicas("localhost", 2, 1);
    assert_eq!(r.len(), 3);
    assert_eq!(r[1].node_name, "gc-server-2");
    assert_eq!(r[1].addr, "localhost:8002");
    assert_eq!(r[1].port, 8002);
    assert!(r[1].gc_replica);
    assert_eq!(r[2].node_name, "normal-server-1");
    assert_eq!(r[2].addr, "localhost:6001");
    assert!(!r[2].gc_replica);
}

// ── The object service ──────────────────────────────────────────────────

#[test]
fn conditional_writes() {
    assert_eq!(put_object_if_absent("k", Ok(())), Ok(true));
    let refused = |c: &str| Err(StoreFailure::Service(id(c)));
    assert_eq!(put_object_if_absent("k", refused("PreconditionFailed")), Ok(false));
    assert_eq!(
        put_object_if_absent("k", refused("AccessDenied")),
        Err(id("put_object_if_absent failed for key k: AccessDenied"))
    );
    assert_eq!(
        put_object_if_absent("k", Err(StoreFailure::Other(id("PreconditionFailed")))),
        Err(id("put_object_if_absent failed for key k: PreconditionFailed"))
    );
}

#[test]
fn optional_reads() {
    assert_eq!(get_object_optional("k", Ok(3u8)), Ok(Some(3)));
    let refused = |c: &str| Err(StoreFailure::Service(id(c)));
    assert_eq!(get_object_optional::<u8>("k", refused("NoSuchKey")), Ok(None));
    assert_eq!(
        get_object_optional::<u8>("k", refused("")),
        Err(id("get_object_optional failed for key k: "))
    );
    assert_eq!(
        get_object_optional::<u8>("k", Err(StoreFailure::Other(id("timeout")))),
        Err(id("get_object_optional failed for key k: timeout"))
    );
    assert_eq!(decode_failure("k", "eof"), "failed to decode json for key k: eof");
}
