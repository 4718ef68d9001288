//! The peers with an open connection, by address.

use dashmap::DashMap;
use vstd::prelude::*;

use crate::peers::peer_registry;
use crate::peers::peer_registry::PeerHandle;
use crate::peers::shared_map;
use crate::peers::shared_map::{
    map_entries, map_get, map_insert, map_is_empty, map_len, map_new, map_remove,
};
use crate::proto::envelope::PayloadModel;
use crate::proto::Envelope;
use crate::text as texts;

verus! {

/// The messages that a broadcast puts into the channels: one for each
/// address, in no particular order.
pub open spec fn reaches_all(
    peers: Map<Seq<char>, u64>,
    sent: Seq<(PeerHandle, Envelope)>,
    message: Option<PayloadModel>,
) -> bool {
    exists|addrs: Seq<Seq<char>>|
        {
            &&& #[trigger] addrs.no_duplicates()
            &&& addrs.to_set() == peers.dom()
            &&& sent.len() == addrs.len()
            &&& forall|i: int|
                0 <= i < sent.len() ==> (#[trigger] sent[i]).0.channel == peers[addrs[i]]
                    && sent[i].1@ == message
        }
}

/// The peers with an open connection: address to channel.
pub struct PeerManager {
    peers: DashMap<String, (u64, u64)>,
}

impl View for PeerManager {
    type V = Map<Seq<char>, u64>;

    closed spec fn view(&self) -> Map<Seq<char>, u64> {
        shared_map::pairs_in(self.peers).map_values(|p: (u64, u64)| p.0)
    }
}

impl PeerManager {
    pub fn new() -> (r: Self)
        ensures
            r@ == Map::<Seq<char>, u64>::empty(),
    {
        let r = PeerManager { peers: map_new() };
        assert(r@ =~= Map::<Seq<char>, u64>::empty());
        r
    }

    /// Register a peer, in place of its earlier connection if it had one.
    pub fn insert(&mut self, addr: String, handle: PeerHandle)
        ensures
            final(self)@ == old(self)@.insert(addr@, handle.channel),
    {
        let ghost before = self@;
        map_insert(&mut self.peers, addr, (handle.channel, 0));
        assert(self@ =~= before.insert(addr@, handle.channel));
    }

    /// Forget a peer; its channel, if it was there.
    pub fn remove(&mut self, addr: &String) -> (r: Option<PeerHandle>)
        ensures
            final(self)@ == old(self)@.remove(addr@),
            match r {
                Some(h) => old(self)@.contains_key(addr@) && old(self)@[addr@] == h.channel,
                None => !old(self)@.contains_key(addr@),
            },
    {
        let ghost before = self@;
        let removed = map_remove(&mut self.peers, addr);
        assert(self@ =~= before.remove(addr@));
        match removed {
            Some(pair) => Some(PeerHandle { channel: pair.0 }),
            None => None,
        }
    }

    /// The channel of a peer, if it is connected.
    pub fn get(&self, addr: &String) -> (r: Option<PeerHandle>)
        ensures
            match r {
                Some(h) => self@.contains_key(addr@) && self@[addr@] == h.channel,
                None => !self@.contains_key(addr@),
            },
    {
        match map_get(&self.peers, addr) {
            Some(pair) => Some(PeerHandle { channel: pair.0 }),
            None => None,
        }
    }

    /// The addresses of the connected peers, each once, in no particular order.
    pub fn peer_addrs(&self) -> (r: Vec<String>)
        ensures
            texts::texts_of(r@).no_duplicates(),
            texts::texts_of(r@).to_set() == self@.dom(),
    {
        let entries = map_entries(&self.peers);
        let mut r: Vec<String> = Vec::new();
        let mut i: usize = 0;
        while i < entries.len()
            invariant
                i <= entries.len(),
                r.len() == i,
                forall|j: int| 0 <= j < i ==> (#[trigger] r@[j])@ == entries@[j].0@,
            decreases entries.len() - i,
        {
            r.push(entries[i].0.clone());
            i += 1;
        }
        proof {
            peer_registry::lemma_listed_ids(
                entries@,
                shared_map::pairs_in(self.peers),
                texts::texts_of(r@),
            );
            assert(self@.dom() =~= shared_map::pairs_in(self.peers).dom());
        }
        r
    }

    /// Where a message to every peer goes.
    pub fn broadcast(&self, envelope: &Envelope) -> (r: Vec<(PeerHandle, Envelope)>)
        ensures
            reaches_all(self@, r@, envelope@),
    {
        let entries = map_entries(&self.peers);
        let mut r: Vec<(PeerHandle, Envelope)> = Vec::new();
        let mut i: usize = 0;
        while i < entries.len()
            invariant
                i <= entries.len(),
                r.len() == i,
                forall|j: int|
                    0 <= j < i ==> (#[trigger] r@[j]).0.channel == entries@[j].1.0 && r@[j].1@
                        == envelope@,
            decreases entries.len() - i,
        {
            r.push((PeerHandle { channel: entries[i].1.0 }, envelope.clone()));
            i += 1;
        }
        proof {
            let addrs = entries@.map_values(|e: (String, (u64, u64))| e.0@);
            peer_registry::lemma_listed_ids(entries@, shared_map::pairs_in(self.peers), addrs);
            assert(self@.dom() =~= shared_map::pairs_in(self.peers).dom());
            assert forall|j: int| 0 <= j < r@.len() implies (#[trigger] r@[j]).0.channel
                == self@[addrs[j]] && r@[j].1@ == envelope@ by {
                assert(addrs[j] == entries@[j].0@);
                assert(shared_map::pairs_in(self.peers)[entries@[j].0@] == entries@[j].1);
            }
        }
        r
    }

    pub fn len(&self) -> (r: usize)
        ensures
            r == self@.len(),
    {
        let r = map_len(&self.peers);
        assert(self@.dom() =~= shared_map::pairs_in(self.peers).dom());
        r
    }

    pub fn is_empty(&self) -> (r: bool)
        ensures
            r == self@.is_empty(),
    {
        let r = map_is_empty(&self.peers);
        assert(self@.dom() =~= shared_map::pairs_in(self.peers).dom());
        r
    }
}

/// Does the channel lead to a connected peer?
pub open spec fn is_connected(peers: Map<Seq<char>, u64>, channel: u64) -> bool {
    exists|a: Seq<char>| #[trigger] peers.contains_key(a) && peers[a] == channel
}

/// A broadcast puts the message into the channel of every address, and as many
/// messages as there are addresses; none goes anywhere else.
pub proof fn law_broadcast_reaches_every_address(
    peers: Map<Seq<char>, u64>,
    sent: Seq<(PeerHandle, Envelope)>,
    message: Option<PayloadModel>,
)
    requires
        reaches_all(peers, sent, message),
    ensures
        sent.len() == peers.dom().len(),
        forall|i: int| 0 <= i < sent.len() ==> (#[trigger] sent[i]).1@ == message,
        forall|a: Seq<char>| #[trigger]
            peers.contains_key(a) ==> exists|i: int|
                0 <= i < sent.len() && (#[trigger] sent[i]).0.channel == peers[a],
        forall|i: int|
            0 <= i < sent.len() ==> is_connected(peers, (#[trigger] sent[i]).0.channel),
{
    let addrs = choose|addrs: Seq<Seq<char>>|
        {
            &&& #[trigger] addrs.no_duplicates()
            &&& addrs.to_set() == peers.dom()
            &&& sent.len() == addrs.len()
            &&& forall|i: int|
                0 <= i < sent.len() ==> (#[trigger] sent[i]).0.channel == peers[addrs[i]]
                    && sent[i].1@ == message
        };
    addrs.unique_seq_to_set();
    assert forall|a: Seq<char>| #[trigger] peers.contains_key(a) implies exists|i: int|
        0 <= i < sent.len() && (#[trigger] sent[i]).0.channel == peers[a] by {
        assert(addrs.to_set().contains(a));
        let i = choose|i: int| 0 <= i < addrs.len() && addrs[i] == a;
        assert(sent[i].0.channel == peers[a]);
    }
    assert forall|i: int| 0 <= i < sent.len() implies is_connected(
        peers,
        (#[trigger] sent[i]).0.channel,
    ) by {
        assert(addrs.contains(addrs[i]));
        assert(addrs.to_set().contains(addrs[i]));
        assert(peers.contains_key(addrs[i]) && peers[addrs[i]] == sent[i].0.channel);
    }
}

} // verus!
