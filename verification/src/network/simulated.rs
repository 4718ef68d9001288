//! A network inside one process: every replica can reach every other.

use vstd::prelude::*;

use crate::common::NodeId;
use crate::network::Network;
use crate::node_map::NodeMap;
use crate::peers::peer_registry::{PeerHandle, PeerRegistry};

verus! {

/// A replica that can be reached: who it is, and whether it initiates garbage
/// collections.
pub struct SimulatedPeer {
    pub node_id: NodeId,
    pub gc_replica: bool,
}

/// The replicas by address.
pub struct SimulatedNetwork {
    pub peer_channels: NodeMap<SimulatedPeer>,
}

impl Network for SimulatedNetwork {
    open spec fn bidirectional(&self) -> bool {
        true
    }

    fn allow_bidirectional(&self) -> (r: bool) {
        true
    }
}

impl SimulatedNetwork {
    pub fn new(channels: NodeMap<SimulatedPeer>) -> (r: Self)
        ensures
            r.peer_channels == channels,
    {
        SimulatedNetwork { peer_channels: channels }
    }

    /// Connect to the replica at an address, through the channel `handle`: it
    /// is registered, and its identifier returned. Without a replica there,
    /// nothing is registered, and the caller's own identifier is returned.
    pub fn connect(
        &self,
        addr: &String,
        local_node_id: &NodeId,
        registry: &mut PeerRegistry,
        handle: PeerHandle,
    ) -> (r: NodeId)
        ensures
            if self.peer_channels@.contains_key(addr@) {
                let peer = self.peer_channels@[addr@];
                r@ == peer.node_id@ && final(registry)@ == old(registry)@.insert(
                    peer.node_id@,
                    (peer.gc_replica, handle.channel),
                )
            } else {
                r@ == local_node_id@ && final(registry)@ == old(registry)@
            },
    {
        match self.peer_channels.get(addr) {
            Some(peer) => {
                registry.insert(peer.node_id.clone(), peer.gc_replica, handle);
                peer.node_id.clone()
            },
            None => local_node_id.clone(),
        }
    }
}

} // verus!
