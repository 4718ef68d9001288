//! The peers with an open connection.

use dashmap::DashMap;
use vstd::prelude::*;
use vstd::string::StringExecFns;

use crate::common::NodeId;
use crate::node_map;
use crate::peers::shared_map;
use crate::peers::shared_map::{
    map_entries, map_get, map_insert, map_is_empty, map_len, map_new, map_remove,
};
use crate::proto::envelope::PayloadModel;
use crate::proto::Envelope;
use crate::text as texts;

verus! {

/// The way into a peer's writer: the number of its channel.
#[derive(Clone, Copy, Debug, PartialEq, Eq, Structural)]
pub struct PeerHandle {
    pub channel: u64,
}

/// A connected peer: does it initiate garbage collections, and the channel of
/// its writer.
pub open spec fn peer_entry(pair: (u64, u64)) -> (bool, u64) {
    (pair.0 != 0, pair.1)
}

/// The peers with an open connection.
pub struct PeerRegistry {
    peers: DashMap<String, (u64, u64)>,
}

impl View for PeerRegistry {
    type V = Map<Seq<char>, (bool, u64)>;

    closed spec fn view(&self) -> Map<Seq<char>, (bool, u64)> {
        shared_map::pairs_in(self.peers).map_values(|p: (u64, u64)| peer_entry(p))
    }
}

/// The peers that do not initiate garbage collections.
pub open spec fn plain_peers(peers: Map<Seq<char>, (bool, u64)>) -> Set<Seq<char>> {
    peers.dom().filter(|n: Seq<char>| !peers[n].0)
}

/// The messages that a broadcast puts into the peers' channels: one for each
/// peer, in no particular order.
pub open spec fn reaches_all(
    peers: Map<Seq<char>, (bool, u64)>,
    sent: Seq<(PeerHandle, Envelope)>,
    message: Option<PayloadModel>,
) -> bool {
    exists|ids: Seq<Seq<char>>|
        {
            &&& #[trigger] ids.no_duplicates()
            &&& ids.to_set() == peers.dom()
            &&& sent.len() == ids.len()
            &&& forall|i: int|
                0 <= i < sent.len() ==> (#[trigger] sent[i]).0.channel == peers[ids[i]].1
                    && sent[i].1@ == message
        }
}

impl PeerRegistry {
    pub fn new() -> (r: Self)
        ensures
            r@ == Map::<Seq<char>, (bool, u64)>::empty(),
    {
        let r = PeerRegistry { peers: map_new() };
        assert(r@ =~= Map::<Seq<char>, (bool, u64)>::empty());
        r
    }

    /// Register a peer, in place of its earlier connection if it had one.
    pub fn insert(&mut self, node_id: NodeId, gc_replica: bool, handle: PeerHandle)
        ensures
            final(self)@ == old(self)@.insert(node_id@, (gc_replica, handle.channel)),
    {
        let ghost before = self@;
        let flag: u64 = if gc_replica {
            1
        } else {
            0
        };
        map_insert(&mut self.peers, node_id, (flag, handle.channel));
        assert(self@ =~= before.insert(node_id@, (gc_replica, handle.channel)));
    }

    /// Forget a peer; its channel, if it was there.
    pub fn remove(&mut self, node_id: &NodeId) -> (r: Option<PeerHandle>)
        ensures
            final(self)@ == old(self)@.remove(node_id@),
            match r {
                Some(h) => old(self)@.contains_key(node_id@) && old(self)@[node_id@].1 == h.channel,
                None => !old(self)@.contains_key(node_id@),
            },
    {
        let ghost before = self@;
        let removed = map_remove(&mut self.peers, node_id);
        assert(self@ =~= before.remove(node_id@));
        match removed {
            Some(pair) => Some(PeerHandle { channel: pair.1 }),
            None => None,
        }
    }

    /// Does the peer initiate garbage collections, and its channel.
    pub fn get(&self, node_id: &NodeId) -> (r: Option<(bool, PeerHandle)>)
        ensures
            match r {
                Some((g, h)) => self@.contains_key(node_id@) && self@[node_id@] == (g, h.channel),
                None => !self@.contains_key(node_id@),
            },
    {
        match map_get(&self.peers, node_id) {
            Some(pair) => Some((pair.0 != 0, PeerHandle { channel: pair.1 })),
            None => None,
        }
    }

    /// The connected peers, each once, in no particular order.
    pub fn peer_ids(&self) -> (r: Vec<NodeId>)
        ensures
            texts::texts_of(r@).no_duplicates(),
            texts::texts_of(r@).to_set() == self@.dom(),
    {
        let entries = map_entries(&self.peers);
        let mut r: Vec<NodeId> = Vec::new();
        let mut i: usize = 0;
        while i < entries.len()
            invariant
                i <= entries.len(),
                r.len() == i,
                forall|j: int| 0 <= j < i ==> (#[trigger] r@[j])@ == entries@[j].0@,
            decreases entries.len() - i,
        {
            r.push(entries[i].0.clone());
            i += 1;
        }
        proof {
            lemma_listed_ids(entries@, shared_map::pairs_in(self.peers), texts::texts_of(r@));
            assert(self@.dom() =~= shared_map::pairs_in(self.peers).dom());
        }
        r
    }

    /// The connected peers that do not initiate garbage collections, each
    /// once, in no particular order.
    pub fn get_all_non_gc_replicas(&self) -> (r: Vec<NodeId>)
        ensures
            texts::texts_of(r@).no_duplicates(),
            texts::texts_of(r@).to_set() == plain_peers(self@),
    {
        let entries = map_entries(&self.peers);
        let ghost pairs = shared_map::pairs_in(self.peers);
        let mut r: Vec<NodeId> = Vec::new();
        let mut i: usize = 0;
        assert(texts::texts_of(r@).to_set() =~= Set::<Seq<char>>::empty());
        while i < entries.len()
            invariant
                i <= entries.len(),
                node_map::lists_map(entries@, pairs),
                texts::texts_of(r@).no_duplicates(),
                forall|n: Seq<char>| #[trigger]
                    texts::texts_of(r@).contains(n) <==> exists|j: int|
                        0 <= j < i && (#[trigger] entries@[j]).0@ == n && entries@[j].1.0 == 0,
            decreases entries.len() - i,
        {
            let ghost had = texts::texts_of(r@);
            if entries[i].1.0 == 0 {
                let id = entries[i].0.clone();
                proof {
                    assert(texts::texts_of(r@.push(id)) =~= had.push(id@));
                    if had.contains(id@) {
                        let j = choose|j: int|
                            0 <= j < i && (#[trigger] entries@[j]).0@ == id@ && entries@[j].1.0
                                == 0;
                        assert(entries@[j].0@ != entries@[i as int].0@);
                    }
                    crate::seqs::lemma_push_no_duplicates(had, id@);
                }
                r.push(id);
                proof {
                    let now = texts::texts_of(r@);
                    assert forall|n: Seq<char>| #[trigger]
                        now.contains(n) <==> exists|j: int|
                            0 <= j < i + 1 && (#[trigger] entries@[j]).0@ == n && entries@[j].1.0
                                == 0 by {
                        if now.contains(n) {
                            let k = choose|k: int| 0 <= k < now.len() && now[k] == n;
                            if k < had.len() {
                                assert(had[k] == n);
                                assert(had.contains(n));
                            } else {
                                assert(entries@[i as int].0@ == n);
                            }
                        }
                        if exists|j: int|
                            0 <= j < i + 1 && (#[trigger] entries@[j]).0@ == n && entries@[j].1.0
                                == 0 {
                            let j = choose|j: int|
                                0 <= j < i + 1 && (#[trigger] entries@[j]).0@ == n
                                    && entries@[j].1.0 == 0;
                            if j < i {
                                assert(had.contains(n));
                                let k = choose|k: int| 0 <= k < had.len() && had[k] == n;
                                assert(now[k] == n);
                            } else {
                                assert(now[had.len() as int] == n);
                            }
                        }
                    }
                }
            }
            i += 1;
        }
        proof {
            let ids = texts::texts_of(r@);
            assert forall|n: Seq<char>| ids.to_set().contains(n) == plain_peers(self@).contains(n) by {
                if ids.contains(n) {
                    let j = choose|j: int|
                        0 <= j < entries@.len() && (#[trigger] entries@[j]).0@ == n
                            && entries@[j].1.0 == 0;
                    assert(pairs.contains_key(entries@[j].0@));
                    assert(self@.dom().contains(n));
                }
                if plain_peers(self@).contains(n) {
                    assert(pairs.contains_key(n));
                    let j = choose|j: int|
                        0 <= j < entries@.len() && (#[trigger] entries@[j]).0@ == n;
                    assert(pairs[entries@[j].0@] == entries@[j].1);
                    assert(ids.contains(n));
                }
            }
            assert(ids.to_set() =~= plain_peers(self@));
        }
        r
    }

    /// Where a message to a peer goes: into the peer's channel, or nowhere
    /// when the peer is not connected.
    pub fn send_to_peer(&self, node_id: &NodeId, envelope: Envelope) -> (r: Result<
        (PeerHandle, Envelope),
        String,
    >)
        ensures
            match r {
                Ok((h, e)) => self@.contains_key(node_id@) && self@[node_id@].1 == h.channel && e
                    == envelope,
                Err(m) => !self@.contains_key(node_id@) && m@ == "peer "@ + node_id@
                    + " not found"@,
            },
    {
        match self.get(node_id) {
            Some((_, handle)) => Ok((handle, envelope)),
            None => {
                let mut message = "peer ".to_owned();
                message.append(node_id.as_str());
                message.append(" not found");
                Err(message)
            },
        }
    }

    /// Where a message to every peer goes.
    pub fn broadcast(&self, envelope: &Envelope) -> (r: Vec<(PeerHandle, Envelope)>)
        ensures
            reaches_all(self@, r@, envelope@),
    {
        let entries = map_entries(&self.peers);
        let mut r: Vec<(PeerHandle, Envelope)> = Vec::new();
        let mut i: usize = 0;
        while i < entries.len()
            invariant
                i <= entries.len(),
                r.len() == i,
                forall|j: int|
                    0 <= j < i ==> (#[trigger] r@[j]).0.channel == entries@[j].1.1 && r@[j].1@
                        == envelope@,
            decreases entries.len() - i,
        {
            r.push((PeerHandle { channel: entries[i].1.1 }, envelope.clone()));
            i += 1;
        }
        proof {
            let ids = entries@.map_values(|e: (String, (u64, u64))| e.0@);
            lemma_listed_ids(entries@, shared_map::pairs_in(self.peers), ids);
            assert(self@.dom() =~= shared_map::pairs_in(self.peers).dom());
            assert forall|j: int| 0 <= j < r@.len() implies (#[trigger] r@[j]).0.channel
                == self@[ids[j]].1 && r@[j].1@ == envelope@ by {
                assert(ids[j] == entries@[j].0@);
                assert(shared_map::pairs_in(self.peers)[entries@[j].0@] == entries@[j].1);
            }
        }
        r
    }

    pub fn len(&self) -> (r: usize)
        ensures
            r == self@.len(),
    {
        let r = map_len(&self.peers);
        assert(self@.dom() =~= shared_map::pairs_in(self.peers).dom());
        r
    }

    pub fn is_empty(&self) -> (r: bool)
        ensures
            r == self@.is_empty(),
    {
        let r = map_is_empty(&self.peers);
        proof {
            assert(self@.dom() =~= shared_map::pairs_in(self.peers).dom());
        }
        r
    }
}

/// The keys of a listed map, each once.
pub proof fn lemma_listed_ids(
    entries: Seq<(String, (u64, u64))>,
    pairs: Map<Seq<char>, (u64, u64)>,
    ids: Seq<Seq<char>>,
)
    requires
        node_map::lists_map(entries, pairs),
        ids.len() == entries.len(),
        forall|j: int| 0 <= j < ids.len() ==> (#[trigger] ids[j]) == entries[j].0@,
    ensures
        ids.no_duplicates(),
        ids.to_set() == pairs.dom(),
{
    assert forall|j: int, k: int| 0 <= j < ids.len() && 0 <= k < ids.len() && j != k implies ids[j]
        != ids[k] by {
        assert(entries[j].0@ != entries[k].0@);
    }
    assert forall|n: Seq<char>| ids.to_set().contains(n) == pairs.dom().contains(n) by {
        if ids.contains(n) {
            let j = choose|j: int| 0 <= j < ids.len() && ids[j] == n;
            assert(pairs.contains_key(entries[j].0@));
        }
        if pairs.contains_key(n) {
            let j = choose|j: int| 0 <= j < entries.len() && (#[trigger] entries[j]).0@ == n;
            assert(ids[j] == n);
        }
    }
    assert(ids.to_set() =~= pairs.dom());
}

/// Does the channel lead to a connected peer?
pub open spec fn is_connected(peers: Map<Seq<char>, (bool, u64)>, channel: u64) -> bool {
    exists|n: Seq<char>| #[trigger] peers.contains_key(n) && peers[n].1 == channel
}

/// A broadcast puts the message into the channel of every peer, and as many
/// messages as there are peers; none goes anywhere else.
pub proof fn law_broadcast_reaches_every_peer(
    peers: Map<Seq<char>, (bool, u64)>,
    sent: Seq<(PeerHandle, Envelope)>,
    message: Option<PayloadModel>,
)
    requires
        reaches_all(peers, sent, message),
    ensures
        sent.len() == peers.dom().len(),
        forall|i: int| 0 <= i < sent.len() ==> (#[trigger] sent[i]).1@ == message,
        forall|n: Seq<char>| #[trigger]
            peers.contains_key(n) ==> exists|i: int|
                0 <= i < sent.len() && (#[trigger] sent[i]).0.channel == peers[n].1,
        forall|i: int|
            0 <= i < sent.len() ==> is_connected(peers, (#[trigger] sent[i]).0.channel),
{
    let ids = choose|ids: Seq<Seq<char>>|
        {
            &&& #[trigger] ids.no_duplicates()
            &&& ids.to_set() == peers.dom()
            &&& sent.len() == ids.len()
            &&& forall|i: int|
                0 <= i < sent.len() ==> (#[trigger] sent[i]).0.channel == peers[ids[i]].1
                    && sent[i].1@ == message
        };
    ids.unique_seq_to_set();
    assert forall|n: Seq<char>| #[trigger] peers.contains_key(n) implies exists|i: int|
        0 <= i < sent.len() && (#[trigger] sent[i]).0.channel == peers[n].1 by {
        assert(ids.to_set().contains(n));
        let i = choose|i: int| 0 <= i < ids.len() && ids[i] == n;
        assert(sent[i].0.channel == peers[n].1);
    }
    assert forall|i: int| 0 <= i < sent.len() implies is_connected(
        peers,
        (#[trigger] sent[i]).0.channel,
    ) by {
        assert(ids.contains(ids[i]));
        assert(ids.to_set().contains(ids[i]));
        assert(peers.contains_key(ids[i]) && peers[ids[i]].1 == sent[i].0.channel);
    }
}

/// A peer is a plain one just when it is connected and does not collect.
pub proof fn law_plain_peers_do_not_collect(peers: Map<Seq<char>, (bool, u64)>, n: Seq<char>)
    ensures
        plain_peers(peers).contains(n) <==> peers.contains_key(n) && !peers[n].0,
{
}

} // verus!
