//! Replicated observed-remove sets: causality tracking, delta exchange and
//! garbage collection of tombstones.

pub mod client;
pub mod common;
pub mod crdt;
pub mod crdt_engine;
pub mod dissemination;
pub mod engine;
pub mod epoch_gc;
pub mod experiment;
pub mod gc;
pub mod gc_protocol;
pub mod logical_clocks;
pub mod network;
pub mod node_map;
pub mod numbers;
pub mod object_store;
pub mod peers;
pub mod proto;
pub mod random;
pub mod seqs;
pub mod server;
pub mod storage;
pub mod text;
pub mod time;
