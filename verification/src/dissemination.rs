//! Dissemination that keeps no count: pushing, pulling, or both.
//!
//! The strategies tell the same peers as those of
//! [`crate::network::dissemination`]. They count no rounds and carry no
//! matrix.

use vstd::prelude::*;

use crate::common::NodeId;
use crate::logical_clocks::version_vector::VersionVector;
use crate::network::dissemination as sending;
use crate::network::dissemination::{answer, make_pull_request_envelope};
use crate::peers::peer_registry as peers;
use crate::peers::peer_registry::{PeerHandle, PeerRegistry};
use crate::proto::Envelope;
use crate::time::Interval;

verus! {

/// Something that can be told to pull, whatever its type.
pub trait PullRoundEngine {
    /// Does `sent` ask every connected peer for what is missed here, if this
    /// engine pulls at all?
    spec fn pull_round_sends(
        &self,
        registry: PeerRegistry,
        sent: Seq<(PeerHandle, Envelope)>,
    ) -> bool;

    /// One round of pulling.
    fn do_pull_round(&self, registry: &PeerRegistry) -> (r: Vec<(PeerHandle, Envelope)>)
        ensures
            self.pull_round_sends(*registry, r@),
    ;
}

/// Does the request for what a clock misses go to every connected peer?
pub open spec fn asks_everyone(
    registry: PeerRegistry,
    sent: Seq<(PeerHandle, Envelope)>,
    crdt_id: Seq<char>,
    origin: Seq<char>,
    knowledge: Map<Seq<char>, u64>,
) -> bool {
    peers::reaches_all(
        registry@,
        sent,
        Some(sending::pull_message(crdt_id, origin, false, knowledge)),
    )
}

/// How a replica spreads what it knows.
///
/// A strategy is told by three things: whether it pushes its clock after each
/// change, whether it pulls in rounds, and whether it asks back for what it
/// misses when it answers a peer.
pub trait DisseminationStrategy: Sized {
    spec fn pushes() -> bool;

    spec fn pulls() -> bool;

    spec fn asks_back() -> bool;

    /// How often to pull.
    spec fn pull_every(&self) -> Option<Interval>;

    /// After a local change: advertise the new clock.
    fn push_version_vector(
        &self,
        registry: &PeerRegistry,
        origin_node_id: &NodeId,
        crdt_id: &str,
        knowledge: &VersionVector,
    ) -> (r: Vec<(PeerHandle, Envelope)>)
        ensures
            Self::pushes() ==> asks_everyone(
                *registry,
                r@,
                crdt_id@,
                origin_node_id@,
                knowledge@,
            ),
            !Self::pushes() ==> r@.len() == 0,
    ;

    /// After a merge, which is a change too: advertise the new clock.
    fn on_post_merge(
        &self,
        registry: &PeerRegistry,
        origin_node_id: &NodeId,
        crdt_id: &str,
        knowledge: &VersionVector,
    ) -> (r: Vec<(PeerHandle, Envelope)>)
        ensures
            Self::pushes() ==> asks_everyone(
                *registry,
                r@,
                crdt_id@,
                origin_node_id@,
                knowledge@,
            ),
            !Self::pushes() ==> r@.len() == 0,
    ;

    /// Answer a peer that sent its clock. `delta_payload` is what the peer
    /// misses, `our_knowledge` this replica's clock when it misses something.
    fn respond_to_pull_request(
        &self,
        registry: &PeerRegistry,
        from_node: &NodeId,
        crdt_id: &str,
        origin_node_id: &NodeId,
        delta_payload: Option<Vec<u8>>,
        our_knowledge: Option<VersionVector>,
    ) -> (r: Option<(PeerHandle, Envelope)>)
        ensures
            sending::sent_to(
                registry@,
                from_node@,
                r,
                sending::answer_to_pull(
                    Self::asks_back(),
                    crdt_id@,
                    origin_node_id@,
                    sending::bytes_value(delta_payload),
                    false,
                    None,
                    sending::clock_value(our_knowledge),
                ),
            ),
    ;

    /// One round of pulling: ask for what this replica misses.
    fn do_pull_round(
        &self,
        registry: &PeerRegistry,
        node_id: &NodeId,
        crdt_id: &str,
        knowledge: &VersionVector,
    ) -> (r: Vec<(PeerHandle, Envelope)>)
        ensures
            Self::pulls() ==> asks_everyone(*registry, r@, crdt_id@, node_id@, knowledge@),
            !Self::pulls() ==> r@.len() == 0,
    ;

    /// How often to pull; never, at a strategy that does not.
    fn pull_interval(&self) -> (r: Option<Interval>)
        ensures
            r == self.pull_every(),
            Self::pulls() <==> r is Some,
    ;
}

/// Ask every peer for what a clock misses.
fn ask_everyone(
    registry: &PeerRegistry,
    origin_node_id: &NodeId,
    crdt_id: &str,
    knowledge: &VersionVector,
) -> (r: Vec<(PeerHandle, Envelope)>)
    ensures
        asks_everyone(*registry, r@, crdt_id@, origin_node_id@, knowledge@),
{
    let envelope = make_pull_request_envelope(crdt_id, origin_node_id, false, knowledge);
    registry.broadcast(&envelope)
}

/// Pushes its clock to all peers after each change and never pulls.
pub struct PushBroadcast {}

impl PushBroadcast {
    pub fn new() -> (r: Self)
        ensures
            r.pull_every() is None,
    {
        PushBroadcast {  }
    }
}

impl DisseminationStrategy for PushBroadcast {
    open spec fn pushes() -> bool {
        true
    }

    open spec fn pulls() -> bool {
        false
    }

    open spec fn asks_back() -> bool {
        true
    }

    open spec fn pull_every(&self) -> Option<Interval> {
        None
    }

    fn push_version_vector(
        &self,
        registry: &PeerRegistry,
        origin_node_id: &NodeId,
        crdt_id: &str,
        knowledge: &VersionVector,
    ) -> (r: Vec<(PeerHandle, Envelope)>) {
        ask_everyone(registry, origin_node_id, crdt_id, knowledge)
    }

    fn on_post_merge(
        &self,
        registry: &PeerRegistry,
        origin_node_id: &NodeId,
        crdt_id: &str,
        knowledge: &VersionVector,
    ) -> (r: Vec<(PeerHandle, Envelope)>) {
        self.push_version_vector(registry, origin_node_id, crdt_id, knowledge)
    }

    fn respond_to_pull_request(
        &self,
        registry: &PeerRegistry,
        from_node: &NodeId,
        crdt_id: &str,
        origin_node_id: &NodeId,
        delta_payload: Option<Vec<u8>>,
        our_knowledge: Option<VersionVector>,
    ) -> (r: Option<(PeerHandle, Envelope)>) {
        answer(
            true,
            registry,
            from_node,
            crdt_id,
            origin_node_id,
            delta_payload,
            false,
            None,
            our_knowledge,
        )
    }

    fn do_pull_round(
        &self,
        _registry: &PeerRegistry,
        _node_id: &NodeId,
        _crdt_id: &str,
        _knowledge: &VersionVector,
    ) -> (r: Vec<(PeerHandle, Envelope)>) {
        Vec::new()
    }

    fn pull_interval(&self) -> (r: Option<Interval>) {
        None
    }
}

/// Never pushes; pulls from all peers in rounds.
pub struct PullPeriodic {
    pub interval: Interval,
}

impl PullPeriodic {
    pub fn new(interval: Interval) -> (r: Self)
        ensures
            r.interval == interval,
    {
        PullPeriodic { interval }
    }
}

impl DisseminationStrategy for PullPeriodic {
    open spec fn pushes() -> bool {
        false
    }

    open spec fn pulls() -> bool {
        true
    }

    open spec fn asks_back() -> bool {
        false
    }

    open spec fn pull_every(&self) -> Option<Interval> {
        Some(self.interval)
    }

    fn push_version_vector(
        &self,
        _registry: &PeerRegistry,
        _origin_node_id: &NodeId,
        _crdt_id: &str,
        _knowledge: &VersionVector,
    ) -> (r: Vec<(PeerHandle, Envelope)>) {
        Vec::new()
    }

    fn on_post_merge(
        &self,
        _registry: &PeerRegistry,
        _origin_node_id: &NodeId,
        _crdt_id: &str,
        _knowledge: &VersionVector,
    ) -> (r: Vec<(PeerHandle, Envelope)>) {
        Vec::new()
    }

    fn respond_to_pull_request(
        &self,
        registry: &PeerRegistry,
        from_node: &NodeId,
        crdt_id: &str,
        origin_node_id: &NodeId,
        delta_payload: Option<Vec<u8>>,
        our_knowledge: Option<VersionVector>,
    ) -> (r: Option<(PeerHandle, Envelope)>) {
        answer(
            false,
            registry,
            from_node,
            crdt_id,
            origin_node_id,
            delta_payload,
            false,
            None,
            our_knowledge,
        )
    }

    fn do_pull_round(
        &self,
        registry: &PeerRegistry,
        node_id: &NodeId,
        crdt_id: &str,
        knowledge: &VersionVector,
    ) -> (r: Vec<(PeerHandle, Envelope)>) {
        ask_everyone(registry, node_id, crdt_id, knowledge)
    }

    fn pull_interval(&self) -> (r: Option<Interval>) {
        Some(self.interval)
    }
}

/// Pushes its clock to all peers after each change and pulls in rounds.
pub struct PushPull {
    pub interval: Interval,
}

impl PushPull {
    pub fn new(interval: Interval) -> (r: Self)
        ensures
            r.interval == interval,
    {
        PushPull { interval }
    }
}

impl DisseminationStrategy for PushPull {
    open spec fn pushes() -> bool {
        true
    }

    open spec fn pulls() -> bool {
        true
    }

    open spec fn asks_back() -> bool {
        true
    }

    open spec fn pull_every(&self) -> Option<Interval> {
        Some(self.interval)
    }

    fn push_version_vector(
        &self,
        registry: &PeerRegistry,
        origin_node_id: &NodeId,
        crdt_id: &str,
        knowledge: &VersionVector,
    ) -> (r: Vec<(PeerHandle, Envelope)>) {
        ask_everyone(registry, origin_node_id, crdt_id, knowledge)
    }

    fn on_post_merge(
        &self,
        registry: &PeerRegistry,
        origin_node_id: &NodeId,
        crdt_id: &str,
        knowledge: &VersionVector,
    ) -> (r: Vec<(PeerHandle, Envelope)>) {
        self.push_version_vector(registry, origin_node_id, crdt_id, knowledge)
    }

    fn respond_to_pull_request(
        &self,
        registry: &PeerRegistry,
        from_node: &NodeId,
        crdt_id: &str,
        origin_node_id: &NodeId,
        delta_payload: Option<Vec<u8>>,
        our_knowledge: Option<VersionVector>,
    ) -> (r: Option<(PeerHandle, Envelope)>) {
        answer(
            true,
            registry,
            from_node,
            crdt_id,
            origin_node_id,
            delta_payload,
            false,
            None,
            our_knowledge,
        )
    }

    fn do_pull_round(
        &self,
        registry: &PeerRegistry,
        node_id: &NodeId,
        crdt_id: &str,
        knowledge: &VersionVector,
    ) -> (r: Vec<(PeerHandle, Envelope)>) {
        ask_everyone(registry, node_id, crdt_id, knowledge)
    }

    fn pull_interval(&self) -> (r: Option<Interval>) {
        Some(self.interval)
    }
}

/// Each message that asks for what a clock misses is a request that names the
/// instance and the sender and carries the clock; one goes to every connected
/// peer.
pub proof fn law_request_reaches_everyone(
    registry: PeerRegistry,
    sent: Seq<(PeerHandle, Envelope)>,
    crdt_id: Seq<char>,
    origin: Seq<char>,
    knowledge: Map<Seq<char>, u64>,
)
    requires
        asks_everyone(registry, sent, crdt_id, origin, knowledge),
    ensures
        sent.len() == registry@.dom().len(),
        forall|n: Seq<char>| #[trigger]
            registry@.contains_key(n) ==> exists|i: int|
                0 <= i < sent.len() && (#[trigger] sent[i]).0.channel == registry@[n].1,
        forall|i: int|
            0 <= i < sent.len() ==> (#[trigger] sent[i]).1@ is Some && sent[i].1@->0
                is CrdtPullRequest && sent[i].1@->0->CrdtPullRequest_0.crdt_id == crdt_id
                && sent[i].1@->0->CrdtPullRequest_0.origin_node_id == origin
                && sent[i].1@->0->CrdtPullRequest_0.knowledge == Some(knowledge),
{
    peers::law_broadcast_reaches_every_peer(
        registry@,
        sent,
        Some(sending::pull_message(crdt_id, origin, false, knowledge)),
    );
}

/// A strategy that pushes asks back and one that only pulls does not; each
/// strategy pushes or pulls, and just the combined one does both.
pub proof fn law_strategies_spread_changes()
    ensures
        PushBroadcast::pushes() && !PushBroadcast::pulls() && PushBroadcast::asks_back(),
        !PullPeriodic::pushes() && PullPeriodic::pulls() && !PullPeriodic::asks_back(),
        PushPull::pushes() && PushPull::pulls() && PushPull::asks_back(),
{
}

} // verus!
