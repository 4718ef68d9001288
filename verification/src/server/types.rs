//! The types that the server is made of.

use vstd::prelude::*;

use crate::crdt::or_set::OrSet;
use crate::engine::crdt_engine::CrdtEngine;
use crate::network::dissemination::PullPeriodic;
use crate::node_map::NodeMap;

verus! {

/// The numbers of the tasks that keep connections open, by peer.
pub type OutboundTasks = NodeMap<u64>;

/// What the server replicates.
pub type CrdtType = OrSet<String>;

/// The engine of the server.
pub type EngineType = CrdtEngine<CrdtType, PullPeriodic>;

} // verus!
