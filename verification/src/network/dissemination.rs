//! Dissemination: pushing, pulling, or both.
//!
//! A replica advertises its clock: in a pull round to every connected peer,
//! after a change to every peer or to one picked at random. A peer that is
//! ahead or concurrent answers with a delta. A round is one such
//! advertisement, or a request that goes along with an answer.

use vstd::prelude::*;

use crate::common::{ClockModel, MatrixModel, NodeId};
use crate::logical_clocks::matrix_clock::MatrixClock;
use crate::logical_clocks::version_vector::VersionVector;
use crate::peers::peer_registry as peers;
use crate::peers::peer_registry::{PeerHandle, PeerRegistry};
use crate::proto::crdt_op::KnowledgeMatrix;
use crate::proto::envelope::{Payload, PayloadModel};
use crate::proto::{
    CrdtOp, CrdtOpModel, CrdtPullRequest, Envelope, PullRequestModel, VectorClock,
};
use crate::random::choose_text;
use crate::text as texts;
use crate::time::Interval;

verus! {

// ── Messages ────────────────────────────────────────────────────────────

/// A message that carries a delta, and perhaps asks for one in return.
pub open spec fn delta_message(
    crdt_id: Seq<char>,
    origin: Seq<char>,
    payload: Seq<u8>,
    knowledge_matrix: Option<MatrixModel>,
    requester_knowledge: Option<ClockModel>,
) -> PayloadModel {
    PayloadModel::CrdtOp(
        CrdtOpModel {
            crdt_id,
            payload,
            origin_node_id: origin,
            requester_knowledge,
            knowledge_matrix,
        },
    )
}

/// A message that asks for a delta.
pub open spec fn pull_message(
    crdt_id: Seq<char>,
    origin: Seq<char>,
    gc_replica: bool,
    knowledge: ClockModel,
) -> PayloadModel {
    PayloadModel::CrdtPullRequest(
        PullRequestModel {
            crdt_id,
            origin_node_id: origin,
            knowledge: Some(knowledge),
            gc_replica,
        },
    )
}

/// The value of an optional clock.
pub open spec fn clock_value(c: Option<VersionVector>) -> Option<ClockModel> {
    match c {
        Some(v) => Some(v@),
        None => None,
    }
}

/// The value of an optional matrix.
pub open spec fn matrix_value(m: Option<MatrixClock>) -> Option<MatrixModel> {
    match m {
        Some(v) => Some(v@),
        None => None,
    }
}

/// The value of optional bytes.
pub open spec fn bytes_value(b: Option<Vec<u8>>) -> Option<Seq<u8>> {
    match b {
        Some(v) => Some(v@),
        None => None,
    }
}

/// Build a message that carries a delta, and perhaps asks for one in return.
pub fn make_crdt_op_envelope(
    crdt_id: &str,
    origin_node_id: &NodeId,
    payload: Vec<u8>,
    knowledge_matrix: Option<MatrixClock>,
    requester_knowledge: Option<VersionVector>,
) -> (r: Envelope)
    ensures
        r@ == Some(
            delta_message(
                crdt_id@,
                origin_node_id@,
                payload@,
                matrix_value(knowledge_matrix),
                clock_value(requester_knowledge),
            ),
        ),
{
    Envelope {
        payload: Some(
            Payload::CrdtOp(
                CrdtOp {
                    crdt_id: crdt_id.to_owned(),
                    payload,
                    origin_node_id: origin_node_id.clone(),
                    requester_knowledge: match requester_knowledge {
                        Some(entries) => Some(VectorClock { entries }),
                        None => None,
                    },
                    knowledge_matrix: match knowledge_matrix {
                        Some(entries) => Some(KnowledgeMatrix { entries }),
                        None => None,
                    },
                },
            ),
        ),
    }
}

/// Build a message that asks for a delta.
pub fn make_pull_request_envelope(
    crdt_id: &str,
    origin_node_id: &NodeId,
    gc_replica: bool,
    knowledge: &VersionVector,
) -> (r: Envelope)
    ensures
        r@ == Some(pull_message(crdt_id@, origin_node_id@, gc_replica, knowledge@)),
{
    Envelope {
        payload: Some(
            Payload::CrdtPullRequest(
                CrdtPullRequest {
                    crdt_id: crdt_id.to_owned(),
                    origin_node_id: origin_node_id.clone(),
                    knowledge: Some(VectorClock { entries: knowledge.clone() }),
                    gc_replica,
                },
            ),
        ),
    }
}

// ── Strategies ──────────────────────────────────────────────────────────

/// The number of the next round; it starts over when it runs out.
pub open spec fn next_round(round: usize) -> usize {
    if round == usize::MAX {
        0
    } else {
        (round + 1) as usize
    }
}

/// The number of rounds after an advertisement; without a peer there is no
/// round.
pub open spec fn round_after(registry: PeerRegistry, round: usize) -> usize {
    if registry@.is_empty() {
        round
    } else {
        next_round(round)
    }
}

/// Does the request for what a clock misses go to every connected peer, and to
/// each once?
pub open spec fn asks_everyone(
    registry: PeerRegistry,
    sent: Seq<(PeerHandle, Envelope)>,
    crdt_id: Seq<char>,
    origin: Seq<char>,
    gc_replica: bool,
    knowledge: ClockModel,
) -> bool {
    peers::reaches_all(
        registry@,
        sent,
        Some(pull_message(crdt_id, origin, gc_replica, knowledge)),
    )
}

/// Does the request for what a clock misses go to one connected peer? Nothing
/// goes out when there is no peer.
pub open spec fn asks_someone(
    registry: PeerRegistry,
    sent: Seq<(PeerHandle, Envelope)>,
    crdt_id: Seq<char>,
    origin: Seq<char>,
    gc_replica: bool,
    knowledge: ClockModel,
) -> bool {
    if registry@.is_empty() {
        sent.len() == 0
    } else {
        &&& sent.len() == 1
        &&& sent[0].1@ == Some(pull_message(crdt_id, origin, gc_replica, knowledge))
        &&& exists|n: Seq<char>| #[trigger]
            registry@.contains_key(n) && registry@[n].1 == sent[0].0.channel
    }
}

/// Does the request for what a clock misses go to every connected peer, or to
/// one of them?
pub open spec fn asks(
    everyone: bool,
    registry: PeerRegistry,
    sent: Seq<(PeerHandle, Envelope)>,
    crdt_id: Seq<char>,
    origin: Seq<char>,
    gc_replica: bool,
    knowledge: ClockModel,
) -> bool {
    if everyone {
        asks_everyone(registry, sent, crdt_id, origin, gc_replica, knowledge)
    } else {
        asks_someone(registry, sent, crdt_id, origin, gc_replica, knowledge)
    }
}

/// Does `sent` go to the peer `to` and hold `message`? Nothing goes out when
/// there is nothing to say or the peer is not connected.
pub open spec fn sent_to(
    peers: Map<Seq<char>, (bool, u64)>,
    to: Seq<char>,
    sent: Option<(PeerHandle, Envelope)>,
    message: Option<PayloadModel>,
) -> bool {
    match sent {
        Some((h, e)) => message is Some && e@ == message && peers.contains_key(to) && peers[to].1
            == h.channel,
        None => message is None || !peers.contains_key(to),
    }
}

/// What a strategy says to a peer that sent its clock: the delta that the
/// peer misses, and, when the strategy asks back, what this replica misses.
pub open spec fn answer_to_pull(
    asks_back: bool,
    crdt_id: Seq<char>,
    origin: Seq<char>,
    delta: Option<Seq<u8>>,
    gc_replica: bool,
    knowledge_matrix: Option<MatrixModel>,
    our_knowledge: Option<ClockModel>,
) -> Option<PayloadModel> {
    match (delta, our_knowledge) {
        (Some(payload), Some(k)) => Some(
            delta_message(
                crdt_id,
                origin,
                payload,
                knowledge_matrix,
                if asks_back {
                    Some(k)
                } else {
                    None
                },
            ),
        ),
        (Some(payload), None) => Some(
            delta_message(crdt_id, origin, payload, knowledge_matrix, None),
        ),
        (None, Some(k)) => if asks_back {
            Some(pull_message(crdt_id, origin, gc_replica, k))
        } else {
            None
        },
        (None, None) => None,
    }
}

/// Advertise a clock to every peer, and count the round.
fn advertise(
    round: &mut usize,
    registry: &PeerRegistry,
    origin_node_id: &NodeId,
    crdt_id: &str,
    gc_replica: bool,
    knowledge: &VersionVector,
) -> (r: Vec<(PeerHandle, Envelope)>)
    ensures
        *final(round) == round_after(*registry, *old(round)),
        asks_everyone(*registry, r@, crdt_id@, origin_node_id@, gc_replica, knowledge@),
{
    if !registry.is_empty() {
        *round = round.wrapping_add(1);
    }
    let envelope = make_pull_request_envelope(crdt_id, origin_node_id, gc_replica, knowledge);
    registry.broadcast(&envelope)
}

/// Advertise a clock to a peer picked at random, and count the round.
fn advertise_to_one(
    round: &mut usize,
    registry: &PeerRegistry,
    origin_node_id: &NodeId,
    crdt_id: &str,
    gc_replica: bool,
    knowledge: &VersionVector,
) -> (r: Vec<(PeerHandle, Envelope)>)
    ensures
        *final(round) == round_after(*registry, *old(round)),
        asks_someone(*registry, r@, crdt_id@, origin_node_id@, gc_replica, knowledge@),
{
    let ids = registry.peer_ids();
    let ghost names = texts::texts_of(ids@);
    let mut r: Vec<(PeerHandle, Envelope)> = Vec::new();
    match choose_text(&ids) {
        Some(peer) => {
            proof {
                assert(names.to_set().contains(peer@));
                assert(registry@.contains_key(peer@));
                assert(registry@.dom().contains(peer@));
            }
            *round = round.wrapping_add(1);
            let envelope = make_pull_request_envelope(
                crdt_id,
                origin_node_id,
                gc_replica,
                knowledge,
            );
            if let Ok(sent) = registry.send_to_peer(&peer, envelope) {
                r.push(sent);
            }
        },
        None => {
            proof {
                assert forall|n: Seq<char>| !registry@.dom().contains(n) by {
                    assert(!names.contains(n));
                    assert(!names.to_set().contains(n));
                }
                assert(registry@.dom() =~= Set::empty());
            }
        },
    }
    r
}

/// Answer a peer that sent its clock.
pub(crate) fn answer(
    asks_back: bool,
    registry: &PeerRegistry,
    from_node: &NodeId,
    crdt_id: &str,
    origin_node_id: &NodeId,
    delta_payload: Option<Vec<u8>>,
    gc_replica: bool,
    knowledge_matrix: Option<MatrixClock>,
    our_knowledge: Option<VersionVector>,
) -> (r: Option<(PeerHandle, Envelope)>)
    ensures
        sent_to(
            registry@,
            from_node@,
            r,
            answer_to_pull(
                asks_back,
                crdt_id@,
                origin_node_id@,
                bytes_value(delta_payload),
                gc_replica,
                matrix_value(knowledge_matrix),
                clock_value(our_knowledge),
            ),
        ),
{
    let envelope = match (delta_payload, our_knowledge) {
        (Some(payload), Some(knowledge)) => make_crdt_op_envelope(
            crdt_id,
            origin_node_id,
            payload,
            knowledge_matrix,
            if asks_back {
                Some(knowledge)
            } else {
                None
            },
        ),
        (Some(payload), None) => make_crdt_op_envelope(
            crdt_id,
            origin_node_id,
            payload,
            knowledge_matrix,
            None,
        ),
        (None, Some(knowledge)) => {
            if !asks_back {
                return None;
            }
            make_pull_request_envelope(crdt_id, origin_node_id, gc_replica, &knowledge)
        },
        (None, None) => {
            return None;
        },
    };
    match registry.send_to_peer(from_node, envelope) {
        Ok(sent) => Some(sent),
        Err(_) => None,
    }
}

/// How a replica spreads what it knows.
///
/// A strategy is told by four things: whether it pushes its clock after each
/// change, and to whom, whether it pulls in rounds, and whether it asks back
/// for what it misses when it answers a peer.
pub trait DisseminationStrategy: Sized {
    spec fn pushes() -> bool;

    /// When it pushes: to every peer, or to one of them?
    spec fn pushes_to_all() -> bool;

    spec fn pulls() -> bool;

    spec fn asks_back() -> bool;

    /// The number of rounds.
    spec fn rounds(&self) -> usize;

    /// How often to pull.
    spec fn pull_every(&self) -> Option<Interval>;

    /// After a local change: advertise the new clock.
    fn push_version_vector(
        &mut self,
        registry: &PeerRegistry,
        origin_node_id: &NodeId,
        crdt_id: &str,
        gc_replica: bool,
        knowledge: &VersionVector,
    ) -> (r: Vec<(PeerHandle, Envelope)>)
        ensures
            final(self).pull_every() == old(self).pull_every(),
            !Self::pushes() ==> r@.len() == 0 && final(self).rounds() == old(self).rounds(),
            Self::pushes() ==> asks(
                Self::pushes_to_all(),
                *registry,
                r@,
                crdt_id@,
                origin_node_id@,
                gc_replica,
                knowledge@,
            ) && final(self).rounds() == round_after(*registry, old(self).rounds()),
    ;

    /// After a merge, which is a change too: advertise the new clock.
    fn on_post_merge(
        &mut self,
        registry: &PeerRegistry,
        origin_node_id: &NodeId,
        crdt_id: &str,
        gc_replica: bool,
        knowledge: &VersionVector,
    ) -> (r: Vec<(PeerHandle, Envelope)>)
        ensures
            final(self).pull_every() == old(self).pull_every(),
            !Self::pushes() ==> r@.len() == 0 && final(self).rounds() == old(self).rounds(),
            Self::pushes() ==> asks(
                Self::pushes_to_all(),
                *registry,
                r@,
                crdt_id@,
                origin_node_id@,
                gc_replica,
                knowledge@,
            ) && final(self).rounds() == round_after(*registry, old(self).rounds()),
    ;

    /// Answer a peer that sent its clock. `delta_payload` is what the peer
    /// misses, `our_knowledge` this replica's clock when it misses something.
    fn respond_to_pull_request(
        &mut self,
        registry: &PeerRegistry,
        from_node: &NodeId,
        crdt_id: &str,
        origin_node_id: &NodeId,
        delta_payload: Option<Vec<u8>>,
        gc_replica: bool,
        knowledge_matrix: Option<MatrixClock>,
        our_knowledge: Option<VersionVector>,
    ) -> (r: Option<(PeerHandle, Envelope)>)
        ensures
            final(self).pull_every() == old(self).pull_every(),
            sent_to(
                registry@,
                from_node@,
                r,
                answer_to_pull(
                    Self::asks_back(),
                    crdt_id@,
                    origin_node_id@,
                    bytes_value(delta_payload),
                    gc_replica,
                    matrix_value(knowledge_matrix),
                    clock_value(our_knowledge),
                ),
            ),
            final(self).rounds() == if Self::asks_back() && our_knowledge is Some {
                next_round(old(self).rounds())
            } else {
                old(self).rounds()
            },
    ;

    /// One round of pulling: ask every peer for what this replica misses.
    fn do_pull_round(
        &mut self,
        registry: &PeerRegistry,
        node_id: &NodeId,
        crdt_id: &str,
        gc_replica: bool,
        knowledge: &VersionVector,
    ) -> (r: Vec<(PeerHandle, Envelope)>)
        ensures
            final(self).pull_every() == old(self).pull_every(),
            !Self::pulls() ==> r@.len() == 0 && final(self).rounds() == old(self).rounds(),
            Self::pulls() ==> asks_everyone(
                *registry,
                r@,
                crdt_id@,
                node_id@,
                gc_replica,
                knowledge@,
            ) && final(self).rounds() == round_after(*registry, old(self).rounds()),
    ;

    /// How often to pull; never, at a strategy that does not.
    fn pull_interval(&self) -> (r: Option<Interval>)
        ensures
            r == self.pull_every(),
            Self::pulls() <==> r is Some,
    ;

    /// The number of rounds.
    fn get_dissemination_round(&self) -> (r: usize)
        ensures
            r == self.rounds(),
    ;
}

/// Pushes its clock to all peers after each change and never pulls.
pub struct PushDissemination {
    dissemination_round: usize,
}

impl PushDissemination {
    pub fn new() -> (r: Self)
        ensures
            r.rounds() == 0,
    {
        PushDissemination { dissemination_round: 0 }
    }
}

impl DisseminationStrategy for PushDissemination {
    open spec fn pushes() -> bool {
        true
    }

    open spec fn pushes_to_all() -> bool {
        true
    }

    open spec fn pulls() -> bool {
        false
    }

    open spec fn asks_back() -> bool {
        true
    }

    closed spec fn rounds(&self) -> usize {
        self.dissemination_round
    }

    closed spec fn pull_every(&self) -> Option<Interval> {
        None
    }

    fn push_version_vector(
        &mut self,
        registry: &PeerRegistry,
        origin_node_id: &NodeId,
        crdt_id: &str,
        gc_replica: bool,
        knowledge: &VersionVector,
    ) -> (r: Vec<(PeerHandle, Envelope)>) {
        advertise(
            &mut self.dissemination_round,
            registry,
            origin_node_id,
            crdt_id,
            gc_replica,
            knowledge,
        )
    }

    fn on_post_merge(
        &mut self,
        registry: &PeerRegistry,
        origin_node_id: &NodeId,
        crdt_id: &str,
        gc_replica: bool,
        knowledge: &VersionVector,
    ) -> (r: Vec<(PeerHandle, Envelope)>) {
        self.push_version_vector(registry, origin_node_id, crdt_id, gc_replica, knowledge)
    }

    fn respond_to_pull_request(
        &mut self,
        registry: &PeerRegistry,
        from_node: &NodeId,
        crdt_id: &str,
        origin_node_id: &NodeId,
        delta_payload: Option<Vec<u8>>,
        gc_replica: bool,
        knowledge_matrix: Option<MatrixClock>,
        our_knowledge: Option<VersionVector>,
    ) -> (r: Option<(PeerHandle, Envelope)>) {
        if our_knowledge.is_some() {
            self.dissemination_round = self.dissemination_round.wrapping_add(1);
        }
        answer(
            true,
            registry,
            from_node,
            crdt_id,
            origin_node_id,
            delta_payload,
            gc_replica,
            knowledge_matrix,
            our_knowledge,
        )
    }

    fn do_pull_round(
        &mut self,
        _registry: &PeerRegistry,
        _node_id: &NodeId,
        _crdt_id: &str,
        _gc_replica: bool,
        _knowledge: &VersionVector,
    ) -> (r: Vec<(PeerHandle, Envelope)>) {
        Vec::new()
    }

    fn pull_interval(&self) -> (r: Option<Interval>) {
        None
    }

    fn get_dissemination_round(&self) -> (r: usize) {
        self.dissemination_round
    }
}

/// Never pushes; pulls from all peers in rounds.
pub struct PullPeriodic {
    dissemination_round: usize,
    interval: Interval,
}

impl PullPeriodic {
    pub fn new(interval: Interval) -> (r: Self)
        ensures
            r.rounds() == 0,
            r.pull_every() == Some(interval),
    {
        PullPeriodic { dissemination_round: 0, interval }
    }
}

impl DisseminationStrategy for PullPeriodic {
    open spec fn pushes() -> bool {
        false
    }

    open spec fn pushes_to_all() -> bool {
        false
    }

    open spec fn pulls() -> bool {
        true
    }

    open spec fn asks_back() -> bool {
        false
    }

    closed spec fn rounds(&self) -> usize {
        self.dissemination_round
    }

    closed spec fn pull_every(&self) -> Option<Interval> {
        Some(self.interval)
    }

    fn push_version_vector(
        &mut self,
        _registry: &PeerRegistry,
        _origin_node_id: &NodeId,
        _crdt_id: &str,
        _gc_replica: bool,
        _knowledge: &VersionVector,
    ) -> (r: Vec<(PeerHandle, Envelope)>) {
        Vec::new()
    }

    fn on_post_merge(
        &mut self,
        _registry: &PeerRegistry,
        _origin_node_id: &NodeId,
        _crdt_id: &str,
        _gc_replica: bool,
        _knowledge: &VersionVector,
    ) -> (r: Vec<(PeerHandle, Envelope)>) {
        Vec::new()
    }

    fn respond_to_pull_request(
        &mut self,
        registry: &PeerRegistry,
        from_node: &NodeId,
        crdt_id: &str,
        origin_node_id: &NodeId,
        delta_payload: Option<Vec<u8>>,
        gc_replica: bool,
        knowledge_matrix: Option<MatrixClock>,
        our_knowledge: Option<VersionVector>,
    ) -> (r: Option<(PeerHandle, Envelope)>) {
        answer(
            false,
            registry,
            from_node,
            crdt_id,
            origin_node_id,
            delta_payload,
            gc_replica,
            knowledge_matrix,
            our_knowledge,
        )
    }

    fn do_pull_round(
        &mut self,
        registry: &PeerRegistry,
        node_id: &NodeId,
        crdt_id: &str,
        gc_replica: bool,
        knowledge: &VersionVector,
    ) -> (r: Vec<(PeerHandle, Envelope)>) {
        advertise(
            &mut self.dissemination_round,
            registry,
            node_id,
            crdt_id,
            gc_replica,
            knowledge,
        )
    }

    fn pull_interval(&self) -> (r: Option<Interval>) {
        Some(self.interval)
    }

    fn get_dissemination_round(&self) -> (r: usize) {
        self.dissemination_round
    }
}

/// Pushes its clock to one peer after each change and pulls from all peers in
/// rounds: pushing is fast, pulling makes up for lost messages.
pub struct PushPull {
    dissemination_round: usize,
    interval: Interval,
}

impl PushPull {
    pub fn new(interval: Interval) -> (r: Self)
        ensures
            r.rounds() == 0,
            r.pull_every() == Some(interval),
    {
        PushPull { dissemination_round: 0, interval }
    }
}

impl DisseminationStrategy for PushPull {
    open spec fn pushes() -> bool {
        true
    }

    open spec fn pushes_to_all() -> bool {
        false
    }

    open spec fn pulls() -> bool {
        true
    }

    open spec fn asks_back() -> bool {
        true
    }

    closed spec fn rounds(&self) -> usize {
        self.dissemination_round
    }

    closed spec fn pull_every(&self) -> Option<Interval> {
        Some(self.interval)
    }

    fn push_version_vector(
        &mut self,
        registry: &PeerRegistry,
        origin_node_id: &NodeId,
        crdt_id: &str,
        gc_replica: bool,
        knowledge: &VersionVector,
    ) -> (r: Vec<(PeerHandle, Envelope)>) {
        advertise_to_one(
            &mut self.dissemination_round,
            registry,
            origin_node_id,
            crdt_id,
            gc_replica,
            knowledge,
        )
    }

    fn on_post_merge(
        &mut self,
        registry: &PeerRegistry,
        origin_node_id: &NodeId,
        crdt_id: &str,
        gc_replica: bool,
        knowledge: &VersionVector,
    ) -> (r: Vec<(PeerHandle, Envelope)>) {
        self.push_version_vector(registry, origin_node_id, crdt_id, gc_replica, knowledge)
    }

    fn respond_to_pull_request(
        &mut self,
        registry: &PeerRegistry,
        from_node: &NodeId,
        crdt_id: &str,
        origin_node_id: &NodeId,
        delta_payload: Option<Vec<u8>>,
        gc_replica: bool,
        knowledge_matrix: Option<MatrixClock>,
        our_knowledge: Option<VersionVector>,
    ) -> (r: Option<(PeerHandle, Envelope)>) {
        if our_knowledge.is_some() {
            self.dissemination_round = self.dissemination_round.wrapping_add(1);
        }
        answer(
            true,
            registry,
            from_node,
            crdt_id,
            origin_node_id,
            delta_payload,
            gc_replica,
            knowledge_matrix,
            our_knowledge,
        )
    }

    fn do_pull_round(
        &mut self,
        registry: &PeerRegistry,
        node_id: &NodeId,
        crdt_id: &str,
        gc_replica: bool,
        knowledge: &VersionVector,
    ) -> (r: Vec<(PeerHandle, Envelope)>) {
        advertise(
            &mut self.dissemination_round,
            registry,
            node_id,
            crdt_id,
            gc_replica,
            knowledge,
        )
    }

    fn pull_interval(&self) -> (r: Option<Interval>) {
        Some(self.interval)
    }

    fn get_dissemination_round(&self) -> (r: usize) {
        self.dissemination_round
    }
}

// ── Laws ────────────────────────────────────────────────────────────────

/// Each message that asks for what a clock misses is a request that names the
/// instance and the sender, says whether the sender collects, and carries the
/// clock.
pub proof fn law_request_carries_the_clock(
    everyone: bool,
    registry: PeerRegistry,
    sent: Seq<(PeerHandle, Envelope)>,
    crdt_id: Seq<char>,
    origin: Seq<char>,
    gc_replica: bool,
    knowledge: ClockModel,
    i: int,
)
    requires
        asks(everyone, registry, sent, crdt_id, origin, gc_replica, knowledge),
        0 <= i < sent.len(),
    ensures
        sent[i].1@ is Some,
        sent[i].1@->0 is CrdtPullRequest,
        sent[i].1@->0->CrdtPullRequest_0.crdt_id == crdt_id,
        sent[i].1@->0->CrdtPullRequest_0.origin_node_id == origin,
        sent[i].1@->0->CrdtPullRequest_0.knowledge == Some(knowledge),
        sent[i].1@->0->CrdtPullRequest_0.gc_replica == gc_replica,
{
    if everyone {
        peers::law_broadcast_reaches_every_peer(
            registry@,
            sent,
            Some(pull_message(crdt_id, origin, gc_replica, knowledge)),
        );
    }
}

/// A clock is advertised to every connected peer, or to one of them; it is
/// advertised to nobody only when nobody is connected, and only to peers that
/// are.
pub proof fn law_clock_reaches_peers(
    everyone: bool,
    registry: PeerRegistry,
    sent: Seq<(PeerHandle, Envelope)>,
    crdt_id: Seq<char>,
    origin: Seq<char>,
    gc_replica: bool,
    knowledge: ClockModel,
)
    requires
        asks(everyone, registry, sent, crdt_id, origin, gc_replica, knowledge),
    ensures
        everyone ==> sent.len() == registry@.dom().len(),
        everyone ==> forall|n: Seq<char>| #[trigger]
            registry@.contains_key(n) ==> exists|i: int|
                0 <= i < sent.len() && (#[trigger] sent[i]).0.channel == registry@[n].1,
        !everyone && (exists|n: Seq<char>| registry@.contains_key(n)) ==> sent.len() == 1,
        !everyone && (forall|n: Seq<char>| !registry@.contains_key(n)) ==> sent.len() == 0,
        forall|i: int|
            0 <= i < sent.len() ==> peers::is_connected(
                registry@,
                (#[trigger] sent[i]).0.channel,
            ),
{
    if everyone {
        peers::law_broadcast_reaches_every_peer(
            registry@,
            sent,
            Some(pull_message(crdt_id, origin, gc_replica, knowledge)),
        );
    } else if forall|n: Seq<char>| !registry@.contains_key(n) {
        assert(registry@.dom() =~= Set::empty());
    }
}

/// An answer to a peer holds the delta whenever there is one, with the matrix
/// beside it; it asks for what is missed just when something is and the
/// strategy asks back; and there is no answer only when there is neither.
pub proof fn law_answer_says_all(
    asks_back: bool,
    crdt_id: Seq<char>,
    origin: Seq<char>,
    delta: Option<Seq<u8>>,
    gc_replica: bool,
    knowledge_matrix: Option<MatrixModel>,
    our_knowledge: Option<ClockModel>,
    message: Option<PayloadModel>,
)
    requires
        message == answer_to_pull(
            asks_back,
            crdt_id,
            origin,
            delta,
            gc_replica,
            knowledge_matrix,
            our_knowledge,
        ),
    ensures
        message is None <==> delta is None && (our_knowledge is None || !asks_back),
        delta is Some ==> message->0 is CrdtOp && message->0->CrdtOp_0.payload == delta->0
            && message->0->CrdtOp_0.crdt_id == crdt_id && message->0->CrdtOp_0.origin_node_id
            == origin && message->0->CrdtOp_0.knowledge_matrix == knowledge_matrix,
        delta is Some && asks_back ==> message->0->CrdtOp_0.requester_knowledge == our_knowledge,
        delta is Some && !asks_back ==> message->0->CrdtOp_0.requester_knowledge is None,
        delta is None && our_knowledge is Some && asks_back ==> message->0 is CrdtPullRequest
            && message->0->CrdtPullRequest_0.knowledge == our_knowledge
            && message->0->CrdtPullRequest_0.crdt_id == crdt_id
            && message->0->CrdtPullRequest_0.origin_node_id == origin
            && message->0->CrdtPullRequest_0.gc_replica == gc_replica,
{
}

/// What is to be said to a connected peer goes into its channel, and nothing
/// goes out that is not to be said.
pub proof fn law_message_goes_to_its_peer(
    connected: Map<Seq<char>, (bool, u64)>,
    to: Seq<char>,
    sent: Option<(PeerHandle, Envelope)>,
    message: Option<PayloadModel>,
)
    requires
        sent_to(connected, to, sent, message),
    ensures
        sent is Some <==> message is Some && connected.contains_key(to),
        sent is Some ==> (sent->0).1@ == message && (sent->0).0.channel == connected[to].1,
{
}

/// Rounds are counted one by one, and only when there is someone to tell.
pub proof fn law_rounds_are_counted(registry: PeerRegistry, round: usize)
    requires
        round < usize::MAX,
    ensures
        next_round(round) == round + 1,
        (exists|n: Seq<char>| registry@.contains_key(n)) ==> round_after(registry, round) == round
            + 1,
        (forall|n: Seq<char>| !registry@.contains_key(n)) ==> round_after(registry, round) == round,
{
    if forall|n: Seq<char>| !registry@.contains_key(n) {
        assert(registry@.dom() =~= Set::empty());
    }
}

/// A strategy that pushes asks back and one that only pulls does not; each
/// strategy pushes or pulls, and just the combined one does both.
pub proof fn law_strategies_spread_changes()
    ensures
        PushDissemination::pushes() && PushDissemination::pushes_to_all()
            && !PushDissemination::pulls() && PushDissemination::asks_back(),
        !PullPeriodic::pushes() && PullPeriodic::pulls() && !PullPeriodic::asks_back(),
        PushPull::pushes() && !PushPull::pushes_to_all() && PushPull::pulls()
            && PushPull::asks_back(),
{
}

} // verus!
