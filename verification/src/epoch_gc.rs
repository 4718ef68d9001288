//! Epoch-fenced garbage collection of tombstones.
//!
//! Each replica counts epochs, marks a tombstone with the epoch in which it
//! was made, and keeps for each peer the latest epoch that the peer has
//! acknowledged. A tombstone may go once every peer has acknowledged its
//! epoch and the replica is a margin of epochs further. No agreement is needed
//! to advance an epoch.

use dashmap::DashMap;
use vstd::prelude::*;

use crate::common::NodeId;
use crate::logical_clocks::dot_version_vector::Dot;
use crate::node_map;
use crate::node_map::NodeMap;
use crate::peers::shared_map;
use crate::peers::shared_map::{
    map_entries, map_get, map_insert, map_is_empty, map_new, map_remove,
};
use crate::time::Interval;

verus! {

/// A counter of epochs, which only grows.
pub type Epoch = u64;

/// How many epochs a replica has to be ahead of its peers before it collects.
pub const EPOCH_SAFETY_MARGIN: u64 = 2;

/// The configuration of the collection.
#[derive(Clone, Copy, Debug, PartialEq, Eq, Structural)]
pub struct GcConfig {
    /// How often to advance the epoch.
    pub epoch_interval: Interval,
    /// How often to attempt a collection.
    pub gc_interval: Interval,
}

impl Default for GcConfig {
    fn default() -> (r: Self)
        ensures
            r.epoch_interval.nanos == 30_000_000_000,
            r.gc_interval.nanos == 60_000_000_000,
    {
        GcConfig { epoch_interval: Interval::from_secs(30), gc_interval: Interval::from_secs(60) }
    }
}

/// What is known of a peer.
#[derive(Clone, Copy, Debug, PartialEq, Eq, Structural)]
pub struct PeerGcInfo {
    /// The latest epoch that the peer has acknowledged.
    pub last_ack_epoch: Epoch,
    /// The reading of the clock when it did.
    pub last_seen: u64,
}

impl PeerGcInfo {
    pub fn new(epoch: Epoch, now: u64) -> (r: Self)
        ensures
            r.last_ack_epoch == epoch,
            r.last_seen == now,
    {
        PeerGcInfo { last_ack_epoch: epoch, last_seen: now }
    }
}

/// What is known of the peers.
pub type PeerEpochs = Map<Seq<char>, PeerGcInfo>;

/// A number that a peer has acknowledged, and that no peer is below.
pub open spec fn is_lowest(peers: PeerEpochs, e: Epoch) -> bool {
    &&& exists|n: Seq<char>| #[trigger] peers.contains_key(n) && peers[n].last_ack_epoch == e
    &&& forall|n: Seq<char>| #[trigger]
        peers.contains_key(n) ==> e <= peers[n].last_ack_epoch
}

/// Is `r` the epoch up to which tombstones may be collected?
pub open spec fn is_safe_epoch(current: Epoch, peers: PeerEpochs, r: Option<Epoch>) -> bool {
    if current < EPOCH_SAFETY_MARGIN {
        r is None
    } else if peers.is_empty() {
        r matches Some(e) && e == current - EPOCH_SAFETY_MARGIN
    } else {
        match r {
            Some(e) => is_lowest(peers, e) && e + EPOCH_SAFETY_MARGIN <= current,
            None => exists|e: Epoch| #[trigger]
                is_lowest(peers, e) && e + EPOCH_SAFETY_MARGIN > current,
        }
    }
}

/// What is known of the peers once one has acknowledged an epoch.
pub open spec fn acknowledged(peers: PeerEpochs, node: Seq<char>, epoch: Epoch, now: u64) -> PeerEpochs {
    if peers.contains_key(node) && epoch <= peers[node].last_ack_epoch {
        peers
    } else {
        peers.insert(node, PeerGcInfo { last_ack_epoch: epoch, last_seen: now })
    }
}

/// The acknowledged epochs alone.
pub open spec fn epochs_of(peers: PeerEpochs) -> Map<Seq<char>, Epoch> {
    peers.map_values(|info: PeerGcInfo| info.last_ack_epoch)
}

/// The epoch of a replica, and what it knows of its peers.
pub struct GcCoordinator {
    pub node_id: NodeId,
    current_epoch: Epoch,
    peer_epochs: DashMap<String, (u64, u64)>,
}

impl GcCoordinator {
    /// This replica.
    pub closed spec fn node(&self) -> Seq<char> {
        self.node_id@
    }

    /// The epoch of this replica.
    pub closed spec fn epoch(&self) -> Epoch {
        self.current_epoch
    }

    /// What is known of the peers.
    pub closed spec fn peers(&self) -> PeerEpochs {
        shared_map::pairs_in(self.peer_epochs).map_values(
            |p: (u64, u64)| PeerGcInfo { last_ack_epoch: p.0, last_seen: p.1 },
        )
    }

    pub fn new(node_id: NodeId) -> (r: Self)
        ensures
            r.node() == node_id@,
            r.epoch() == 0,
            r.peers() == PeerEpochs::empty(),
    {
        let r = GcCoordinator { node_id, current_epoch: 0, peer_epochs: map_new() };
        assert(r.peers() =~= PeerEpochs::empty());
        r
    }

    /// The epoch of this replica.
    pub fn current_epoch(&self) -> (r: Epoch)
        ensures
            r == self.epoch(),
    {
        self.current_epoch
    }

    /// Go to the next epoch.
    pub fn advance_epoch(&mut self) -> (r: Epoch)
        requires
            old(self).epoch() < u64::MAX,
        ensures
            r == old(self).epoch() + 1,
            final(self).epoch() == r,
            final(self).peers() == old(self).peers(),
            final(self).node() == old(self).node(),
    {
        self.current_epoch = self.current_epoch + 1;
        self.current_epoch
    }

    /// A peer has acknowledged an epoch; `now` is the reading of the clock.
    pub fn record_peer_epoch(&mut self, peer_id: &NodeId, epoch: Epoch, now: u64)
        ensures
            final(self).peers() == acknowledged(old(self).peers(), peer_id@, epoch, now),
            final(self).epoch() == old(self).epoch(),
            final(self).node() == old(self).node(),
    {
        let ghost before = self.peers();
        let info = match map_get(&self.peer_epochs, peer_id) {
            Some(pair) => {
                if epoch <= pair.0 {
                    return ;
                }
                PeerGcInfo::new(epoch, now)
            },
            None => PeerGcInfo::new(epoch, now),
        };
        map_insert(&mut self.peer_epochs, peer_id.clone(), (info.last_ack_epoch, info.last_seen));
        assert(self.peers() =~= acknowledged(before, peer_id@, epoch, now));
    }

    /// Forget a peer.
    pub fn remove_peer(&mut self, peer_id: &NodeId)
        ensures
            final(self).peers() == old(self).peers().remove(peer_id@),
            final(self).epoch() == old(self).epoch(),
            final(self).node() == old(self).node(),
    {
        let ghost before = self.peers();
        map_remove(&mut self.peer_epochs, peer_id);
        assert(self.peers() =~= before.remove(peer_id@));
    }

    /// The epoch that every known peer has acknowledged; none without peers.
    pub fn min_peer_epoch(&self) -> (r: Option<Epoch>)
        ensures
            match r {
                Some(e) => is_lowest(self.peers(), e),
                None => self.peers().is_empty(),
            },
    {
        let ghost peers = self.peers();
        let ghost pairs = shared_map::pairs_in(self.peer_epochs);
        if map_is_empty(&self.peer_epochs) {
            assert(peers.dom() =~= pairs.dom());
            return None;
        }
        let entries = map_entries(&self.peer_epochs);
        if entries.len() == 0 {
            proof {
                assert(pairs.dom() =~= Set::empty());
                assert(pairs =~= Map::empty());
            }
            return None;
        }
        let mut lowest: u64 = entries[0].1.0;
        let mut i: usize = 1;
        proof {
            assert(pairs.contains_key(entries@[0].0@));
            assert(peers.contains_key(entries@[0].0@));
        }
        while i < entries.len()
            invariant
                1 <= i <= entries.len(),
                pairs == shared_map::pairs_in(self.peer_epochs),
                peers == self.peers(),
                node_map::lists_map(entries@, pairs),
                exists|n: Seq<char>| #[trigger]
                    peers.contains_key(n) && peers[n].last_ack_epoch == lowest,
                forall|j: int| 0 <= j < i ==> lowest <= (#[trigger] entries@[j]).1.0,
            decreases entries.len() - i,
        {
            if entries[i].1.0 < lowest {
                lowest = entries[i].1.0;
                assert(pairs.contains_key(entries@[i as int].0@));
                assert(peers.contains_key(entries@[i as int].0@));
            }
            i += 1;
        }
        proof {
            assert forall|n: Seq<char>| #[trigger] peers.contains_key(n) implies lowest
                <= peers[n].last_ack_epoch by {
                assert(pairs.contains_key(n));
                let j = choose|j: int| 0 <= j < entries@.len() && (#[trigger] entries@[j]).0@ == n;
                assert(pairs[entries@[j].0@] == entries@[j].1);
            }
        }
        Some(lowest)
    }

    /// The epoch up to which tombstones may be collected; none while no
    /// collection is safe.
    pub fn safe_collection_epoch(&self) -> (r: Option<Epoch>)
        ensures
            is_safe_epoch(self.epoch(), self.peers(), r),
    {
        if self.current_epoch < EPOCH_SAFETY_MARGIN {
            return None;
        }
        match self.min_peer_epoch() {
            None => Some(self.current_epoch - EPOCH_SAFETY_MARGIN),
            Some(lowest) => {
                if lowest <= self.current_epoch - EPOCH_SAFETY_MARGIN {
                    Some(lowest)
                } else {
                    None
                }
            },
        }
    }

    /// The epochs that the peers have acknowledged.
    pub fn peer_epoch_snapshot(&self) -> (r: NodeMap<Epoch>)
        ensures
            r@ == epochs_of(self.peers()),
    {
        let ghost pairs = shared_map::pairs_in(self.peer_epochs);
        let entries = map_entries(&self.peer_epochs);
        let mut r: NodeMap<Epoch> = NodeMap::new();
        let mut i: usize = 0;
        assert(r@ =~= node_map::map_of(entries@.take(0)).map_values(|p: (u64, u64)| p.0));
        while i < entries.len()
            invariant
                i <= entries.len(),
                node_map::distinct_keys(entries@),
                r@ == node_map::map_of(entries@.take(i as int)).map_values(|p: (u64, u64)| p.0),
            decreases entries.len() - i,
        {
            proof {
                node_map::lemma_next_entry(entries@, i as int);
            }
            r.insert(entries[i].0.clone(), entries[i].1.0);
            assert(r@ =~= node_map::map_of(entries@.take(i + 1)).map_values(|p: (u64, u64)| p.0));
            i += 1;
        }
        proof {
            assert(entries@.take(i as int) =~= entries@);
            node_map::lemma_spelled_out(entries@, pairs);
            assert(r@ =~= epochs_of(self.peers()));
        }
        r
    }
}

/// What a replica tells its peers when it has gone to another epoch.
pub struct EpochAnnounce {
    pub epoch: Epoch,
    pub node_id: NodeId,
}

impl GcCoordinator {
    /// Go to the next epoch; what to tell every connected peer.
    pub fn announce_next_epoch(&mut self) -> (r: EpochAnnounce)
        requires
            old(self).epoch() < u64::MAX,
        ensures
            r.epoch == old(self).epoch() + 1,
            r.node_id@ == old(self).node(),
            final(self).epoch() == r.epoch,
            final(self).peers() == old(self).peers(),
            final(self).node() == old(self).node(),
    {
        let epoch = self.advance_epoch();
        EpochAnnounce { epoch, node_id: self.node_id.clone() }
    }

    /// A peer has gone to another epoch; `now` is the reading of the clock.
    pub fn handle_announcement(&mut self, announcement: &EpochAnnounce, now: u64)
        ensures
            final(self).peers() == acknowledged(
                old(self).peers(),
                announcement.node_id@,
                announcement.epoch,
                now,
            ),
            final(self).epoch() == old(self).epoch(),
            final(self).node() == old(self).node(),
    {
        self.record_peer_epoch(&announcement.node_id, announcement.epoch, now);
    }
}

/// What a tombstone is marked with.
pub struct TombstoneMetadata {
    /// The epoch in which the tombstone was made.
    pub creation_epoch: Epoch,
    /// The event that added the element.
    pub add_dot: Dot,
    /// The event that removed it.
    pub remove_dot: Dot,
}

/// May a tombstone of an epoch be collected?
pub open spec fn collectable(creation_epoch: Epoch, safe_epoch: Option<Epoch>) -> bool {
    safe_epoch matches Some(safe) && creation_epoch <= safe
}

impl TombstoneMetadata {
    pub fn new(creation_epoch: Epoch, add_dot: Dot, remove_dot: Dot) -> (r: Self)
        ensures
            r.creation_epoch == creation_epoch,
            r.add_dot == add_dot,
            r.remove_dot == remove_dot,
    {
        TombstoneMetadata { creation_epoch, add_dot, remove_dot }
    }

    /// May the tombstone go, when collections are safe up to an epoch?
    pub fn can_collect(&self, safe_epoch: Option<Epoch>) -> (r: bool)
        ensures
            r == collectable(self.creation_epoch, safe_epoch),
    {
        match safe_epoch {
            Some(safe) => self.creation_epoch <= safe,
            None => false,
        }
    }
}

// ── Safety ──────────────────────────────────────────────────────────────

/// A tombstone that is collected was made a margin of epochs ago, and every
/// known peer has acknowledged its epoch.
pub proof fn law_collected_only_when_acknowledged(
    current: Epoch,
    peers: PeerEpochs,
    safe_epoch: Option<Epoch>,
    creation_epoch: Epoch,
)
    requires
        is_safe_epoch(current, peers, safe_epoch),
        collectable(creation_epoch, safe_epoch),
    ensures
        creation_epoch + EPOCH_SAFETY_MARGIN <= current,
        forall|n: Seq<char>| #[trigger]
            peers.contains_key(n) ==> creation_epoch <= peers[n].last_ack_epoch,
{
}

/// The epoch up to which collections are safe is unique.
pub proof fn law_safe_epoch_unique(
    current: Epoch,
    peers: PeerEpochs,
    a: Option<Epoch>,
    b: Option<Epoch>,
)
    requires
        is_safe_epoch(current, peers, a),
        is_safe_epoch(current, peers, b),
    ensures
        a == b,
{
    if current >= EPOCH_SAFETY_MARGIN && !peers.is_empty() {
        let x = if a is Some {
            a->0
        } else {
            choose|e: Epoch| #[trigger]
                is_lowest(peers, e) && e + EPOCH_SAFETY_MARGIN > current
        };
        let y = if b is Some {
            b->0
        } else {
            choose|e: Epoch| #[trigger]
                is_lowest(peers, e) && e + EPOCH_SAFETY_MARGIN > current
        };
        assert(is_lowest(peers, x) && is_lowest(peers, y));
        let n = choose|n: Seq<char>| #[trigger]
            peers.contains_key(n) && peers[n].last_ack_epoch == x;
        let m = choose|m: Seq<char>| #[trigger]
            peers.contains_key(m) && peers[m].last_ack_epoch == y;
        assert(y <= peers[n].last_ack_epoch && x <= peers[m].last_ack_epoch);
    }
}

/// An acknowledgement never takes an earlier one back.
pub proof fn law_acknowledgements_only_grow(
    peers: PeerEpochs,
    node: Seq<char>,
    epoch: Epoch,
    now: u64,
)
    ensures
        acknowledged(peers, node, epoch, now).contains_key(node),
        acknowledged(peers, node, epoch, now)[node].last_ack_epoch >= epoch,
        forall|n: Seq<char>| #[trigger]
            peers.contains_key(n) ==> acknowledged(peers, node, epoch, now).contains_key(n)
                && acknowledged(peers, node, epoch, now)[n].last_ack_epoch
                >= peers[n].last_ack_epoch,
{
}

/// What may be collected in an epoch may be collected in every later one,
/// while nothing new is heard from the peers.
pub proof fn law_safety_outlasts_epochs(
    current: Epoch,
    later: Epoch,
    peers: PeerEpochs,
    safe_epoch: Option<Epoch>,
    later_safe_epoch: Option<Epoch>,
    creation_epoch: Epoch,
)
    requires
        current <= later,
        is_safe_epoch(current, peers, safe_epoch),
        is_safe_epoch(later, peers, later_safe_epoch),
        collectable(creation_epoch, safe_epoch),
    ensures
        collectable(creation_epoch, later_safe_epoch),
{
    if !peers.is_empty() {
        assert(is_safe_epoch(later, peers, safe_epoch));
        law_safe_epoch_unique(later, peers, safe_epoch, later_safe_epoch);
    }
}

/// Collections are safe up to the least epoch that any peer has acknowledged,
/// once this replica is a margin beyond it; without peers, up to a margin
/// before its own epoch; and up to no epoch otherwise.
pub proof fn law_safe_up_to_the_slowest_peer(
    current: Epoch,
    peers: PeerEpochs,
    safe_epoch: Option<Epoch>,
    n: Seq<char>,
)
    requires
        is_safe_epoch(current, peers, safe_epoch),
        peers.contains_key(n),
        forall|m: Seq<char>| #[trigger]
            peers.contains_key(m) ==> peers[n].last_ack_epoch <= peers[m].last_ack_epoch,
    ensures
        safe_epoch == if peers[n].last_ack_epoch + EPOCH_SAFETY_MARGIN <= current {
            Some(peers[n].last_ack_epoch)
        } else {
            None
        },
{
    let lowest = peers[n].last_ack_epoch;
    assert(!peers.is_empty()) by {
        assert(peers.dom().contains(n));
    }
    assert(is_lowest(peers, lowest));
    let expected: Option<Epoch> = if lowest + EPOCH_SAFETY_MARGIN <= current {
        Some(lowest)
    } else {
        None
    };
    assert(is_safe_epoch(current, peers, expected));
    law_safe_epoch_unique(current, peers, safe_epoch, expected);
}

/// A replica without peers may collect up to a margin before its own epoch,
/// once it has come that far.
pub proof fn law_safe_without_peers(
    current: Epoch,
    peers: PeerEpochs,
    safe_epoch: Option<Epoch>,
)
    requires
        is_safe_epoch(current, peers, safe_epoch),
        forall|n: Seq<char>| !peers.contains_key(n),
    ensures
        safe_epoch is Some <==> current >= EPOCH_SAFETY_MARGIN,
        safe_epoch is Some ==> safe_epoch->0 + EPOCH_SAFETY_MARGIN == current,
{
    assert(peers.dom() =~= Set::empty());
}

/// A tombstone may go just when collections are safe up to its epoch or a
/// later one.
pub proof fn law_collectable_up_to_the_safe_epoch(creation_epoch: Epoch, safe: Epoch)
    ensures
        collectable(creation_epoch, Some(safe)) <==> creation_epoch <= safe,
        !collectable(creation_epoch, None),
{
}

/// An acknowledgement is noted with its time just when it is of a later epoch
/// than the peer had acknowledged; nothing is noted of other peers.
pub proof fn law_acknowledgement_is_noted(
    peers: PeerEpochs,
    node: Seq<char>,
    epoch: Epoch,
    now: u64,
    other: Seq<char>,
)
    ensures
        !peers.contains_key(node) || epoch > peers[node].last_ack_epoch ==> acknowledged(
            peers,
            node,
            epoch,
            now,
        )[node].last_ack_epoch == epoch && acknowledged(peers, node, epoch, now)[node].last_seen
            == now,
        peers.contains_key(node) && epoch <= peers[node].last_ack_epoch ==> acknowledged(
            peers,
            node,
            epoch,
            now,
        ) == peers,
        other != node ==> acknowledged(peers, node, epoch, now).contains_key(other)
            == peers.contains_key(other),
        other != node && peers.contains_key(other) ==> acknowledged(
            peers,
            node,
            epoch,
            now,
        )[other] == peers[other],
{
}

/// The snapshot names each peer with the epoch that it has acknowledged.
pub proof fn law_snapshot_names_each_peer(peers: PeerEpochs, n: Seq<char>)
    ensures
        epochs_of(peers).contains_key(n) == peers.contains_key(n),
        peers.contains_key(n) ==> epochs_of(peers)[n] == peers[n].last_ack_epoch,
{
}

} // verus!
