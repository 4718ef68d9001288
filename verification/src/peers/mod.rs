//! Peers: who is there, who is connected, and who should be.

pub mod discovery;
pub mod heartbeat;
pub mod peer_connector;
pub mod peer_manager;
pub mod peer_registry;
pub mod reconciliation;
pub mod shared_map;
