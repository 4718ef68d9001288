//! The server: one replica of a set of texts, its peers and its clients.

pub mod client_requests_handler;
pub mod peer_message_handler;
pub mod settings;
pub mod standalone;
pub mod types;

use vstd::prelude::*;
use vstd::string::StringExecFns;

use crate::common::NodeId;
use crate::crdt::or_set::{OpModel, OrSet, OrSetOp};
use crate::engine::crdt_engine::CrdtEngine;
use crate::gc::coordinator::CoordinatorModel;
use crate::gc::GcConfig;
use crate::logical_clocks::dot_version_vector::{DotModel, DvvModel};
use crate::network::dissemination::{DisseminationStrategy, PullPeriodic};
use crate::proto::Envelope;
use crate::server::peer_message_handler as handler;
use crate::server::peer_message_handler::{handle_received_envelope, PeerRequest};
use crate::server::types::EngineType;
use crate::time::Interval;

verus! {

/// The configuration of a server.
pub struct ServerConfig {
    pub listen_host: String,
    pub listen_port: String,
    pub node_name: String,
    pub gc_replica: bool,
    /// Does the server take part in an experiment?
    pub experiment: bool,
    /// Where clients connect, if they may.
    pub client_port: Option<String>,
}

/// A server. It goes by its name, so that a topology can be laid down by
/// names.
pub struct Server {
    pub node_id: NodeId,
    pub node_name: String,
    pub gc_replica: bool,
    pub experiment: bool,
    pub listen_port: String,
    pub client_port: Option<String>,
}

impl Server {
    pub fn new(config: ServerConfig) -> (r: Self)
        ensures
            r.node_id@ == config.node_name@,
            r.node_name@ == config.node_name@,
            r.gc_replica == config.gc_replica,
            r.experiment == config.experiment,
            r.listen_port == config.listen_port,
            r.client_port == config.client_port,
    {
        Server {
            node_id: config.node_name.clone(),
            node_name: config.node_name,
            gc_replica: config.gc_replica,
            experiment: config.experiment,
            listen_port: config.listen_port,
            client_port: config.client_port,
        }
    }

    /// The engine of the server: an empty set of texts whose peers ask each
    /// other every second.
    pub fn engine(&self, gc_config: GcConfig) -> (r: EngineType)
        ensures
            r.node_id@ == self.node_id@,
            r.crdt_id@ == "default-orset"@,
            r.dissemination.pull_every() == Some(Interval { nanos: 1_000_000_000 }),
            r.inner.crdt@ == crate::crdt::or_set::empty_set::<Seq<char>>(),
            r.inner.gc.settings() == gc_config,
            r.inner.gc@ == (CoordinatorModel {
                epoch: 0,
                matrix: if gc_config.gc_replica {
                    Some(Map::empty())
                } else {
                    None
                },
            }),
            r.inner.dvv@ == (DvvModel {
                dot: DotModel { node_id: self.node_id@, counter: 0 },
                context: Map::empty(),
            }),
            r.dissemination.rounds() == 0,
    {
        CrdtEngine::new(
            self.node_id.clone(),
            "default-orset".to_owned(),
            OrSet::new(),
            PullPeriodic::new(Interval::from_secs(1)),
            gc_config,
        )
    }

    /// What the server does first: in an experiment it adds a value of its
    /// own.
    pub fn first_operation(&self) -> (r: Option<OrSetOp<String>>)
        ensures
            match r {
                Some(op) => self.experiment && op@ == OpModel::Add("test-"@ + self.node_id@),
                None => !self.experiment,
            },
    {
        if self.experiment {
            let mut value = "test-".to_owned();
            value.append(self.node_id.as_str());
            Some(OrSetOp::Add(value))
        } else {
            None
        }
    }
}

/// What a running server meets.
pub enum ServerEvent {
    /// A message of a peer.
    Received(Envelope),
    /// It is time to record the metrics.
    MetricsTick,
    /// The process is to end.
    Cancelled,
}

/// What a running server does about it.
pub enum ServerAction {
    /// Ask this of the engine, in this order.
    Ask(Vec<PeerRequest>),
    /// Have the engine record its metrics.
    LogMetrics,
    /// Get the last word of the engine, leave, and stop all tasks.
    ShutDown,
}

impl Server {
    /// What a running server does about an event.
    pub fn react(&self, event: ServerEvent) -> (r: ServerAction)
        ensures
            match event {
                ServerEvent::Received(envelope) => {
                    r matches ServerAction::Ask(requests) && handler::request_values(requests@)
                        == handler::requests_in(envelope@)
                },
                ServerEvent::MetricsTick => r is LogMetrics,
                ServerEvent::Cancelled => r is ShutDown,
            },
    {
        match event {
            ServerEvent::Received(envelope) => ServerAction::Ask(
                handle_received_envelope(envelope),
            ),
            ServerEvent::MetricsTick => ServerAction::LogMetrics,
            ServerEvent::Cancelled => ServerAction::ShutDown,
        }
    }
}

} // verus!
