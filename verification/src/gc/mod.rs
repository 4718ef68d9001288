//! Garbage collection of tombstones in epochs.
//!
//! A collecting replica computes a stable timestamp: a clock that every live
//! replica has reached. What happened before it is known to all, so that
//! tombstones before it can go.

pub mod coordinator;
pub mod laws;
pub mod stable;
pub mod storage;

use vstd::prelude::*;

use crate::time::Interval;

verus! {

/// What only a collecting replica needs to know.
#[derive(Clone, Copy, Debug)]
pub struct GcReplicaConfig {
    /// How often to try a collection.
    pub initiate_interval: Interval,
}

impl GcReplicaConfig {
    pub fn new(initiate_interval: Interval) -> (r: Self)
        ensures
            r == (GcReplicaConfig { initiate_interval }),
    {
        GcReplicaConfig { initiate_interval }
    }
}

/// Where the records of collections are kept.
pub struct GcStorageConfig {
    pub bucket: String,
    pub prefix: String,
}

/// The configuration of garbage collection at one replica.
pub struct GcConfig {
    /// Does this replica initiate collections?
    pub gc_replica: bool,
    /// How often to look for a new epoch.
    pub observe_interval: Interval,
    pub storage_config: GcStorageConfig,
    pub gc_replica_config: Option<GcReplicaConfig>,
}

} // verus!
