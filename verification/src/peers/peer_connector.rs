//! Which peers to connect to.

use vstd::prelude::*;

use crate::common::NodeId;
use crate::network::Network;
use crate::node_map::NodeMap;
use crate::peers::peer_registry::PeerRegistry;
use crate::text as texts;
use crate::text::text_precedes;

verus! {

/// The connections that this replica has opened: peer to the number of the
/// task that keeps the connection up.
pub struct PeerConnector {
    pub node_id: NodeId,
    pub outbound_tasks: NodeMap<u64>,
}

/// Is this replica to connect to the peer? Not when only the other of the two
/// connects, and not when it has.
pub open spec fn is_to_connect(
    own: Seq<char>,
    bidirectional: bool,
    peer: Seq<char>,
    tasks: Map<Seq<char>, u64>,
) -> bool {
    (bidirectional || !texts::precedes(peer, own)) && !tasks.contains_key(peer)
}

impl PeerConnector {
    pub fn new(node_id: NodeId) -> (r: Self)
        ensures
            r.node_id == node_id,
            r.outbound_tasks@ == Map::<Seq<char>, u64>::empty(),
    {
        PeerConnector { node_id, outbound_tasks: NodeMap::new() }
    }

    /// Is this replica to connect to the peer?
    pub fn wants_peer<N: Network>(&self, network: &N, node_id: &NodeId) -> (r: bool)
        ensures
            r == is_to_connect(
                self.node_id@,
                network.bidirectional(),
                node_id@,
                self.outbound_tasks@,
            ),
    {
        if !network.allow_bidirectional() && text_precedes(node_id.as_str(), self.node_id.as_str()) {
            return false;
        }
        !self.outbound_tasks.contains_node(node_id)
    }

    /// A task was started for the peer.
    pub fn add_peer(&mut self, node_id: NodeId, task: u64)
        ensures
            final(self).node_id@ == old(self).node_id@,
            final(self).outbound_tasks@ == old(self).outbound_tasks@.insert(node_id@, task),
    {
        self.outbound_tasks.insert(node_id, task);
    }

    /// The peer is gone: the task to be stopped, if there is one.
    pub fn remove_peer(&mut self, registry: &mut PeerRegistry, node_id: &NodeId) -> (r: Option<u64>)
        ensures
            final(self).node_id@ == old(self).node_id@,
            final(self).outbound_tasks@ == old(self).outbound_tasks@.remove(node_id@),
            final(registry)@ == old(registry)@.remove(node_id@),
            r == old(self).outbound_tasks@.get(node_id@),
    {
        let task = match self.outbound_tasks.get(node_id) {
            Some(t) => Some(*t),
            None => None,
        };
        self.outbound_tasks.remove(node_id);
        registry.remove(node_id);
        task
    }
}

/// A replica connects to a peer just when it has no connection to it yet, and
/// either both of them may connect or its own identifier comes first.
pub proof fn law_connects_where_it_should(
    own: Seq<char>,
    bidirectional: bool,
    peer: Seq<char>,
    tasks: Map<Seq<char>, u64>,
)
    requires
        own != peer,
    ensures
        is_to_connect(own, bidirectional, peer, tasks) <==> !tasks.contains_key(peer) && (
        bidirectional || texts::precedes(own, peer)),
        !bidirectional && !tasks.contains_key(peer) && !tasks.contains_key(own) ==> is_to_connect(
            own,
            bidirectional,
            peer,
            tasks,
        ) != is_to_connect(peer, bidirectional, own, tasks),
{
    texts::lemma_precedes_total(own, peer);
    texts::lemma_precedes_total(peer, own);
}

} // verus!
