//! Discovery by heartbeats: each replica keeps one record, under a key of its
//! own, and refreshes it. A replica whose record is too old is gone.

use vstd::prelude::*;
use vstd::string::StringExecFns;

use crate::common::NodeId;
use crate::peers::reconciliation as matching;
use crate::peers::reconciliation::{reconcile, Reconciliation};
use crate::text as texts;
use crate::text::same_text;
use crate::time::Interval;

verus! {

/// The configuration of discovery.
pub struct DiscoveryConfig {
    pub endpoint: String,
    pub bucket: String,
    pub region: String,
    pub access_key: String,
    pub secret_key: String,
    pub poll_interval: Interval,
    pub registration_ttl: Interval,
}

impl Default for DiscoveryConfig {
    fn default() -> (r: Self)
        ensures
            r.endpoint@ == Seq::<char>::empty(),
            r.bucket@ == Seq::<char>::empty(),
            r.region@ == Seq::<char>::empty(),
            r.access_key@ == Seq::<char>::empty(),
            r.secret_key@ == Seq::<char>::empty(),
            r.poll_interval.nanos == 0,
            r.registration_ttl.nanos == 0,
    {
        DiscoveryConfig {
            endpoint: String::new(),
            bucket: String::new(),
            region: String::new(),
            access_key: String::new(),
            secret_key: String::new(),
            poll_interval: Interval { nanos: 0 },
            registration_ttl: Interval { nanos: 0 },
        }
    }
}

/// The mathematical value of a [`NodeRegistration`].
pub struct HeartbeatModel {
    pub node_id: Seq<char>,
    pub node_name: Seq<char>,
    pub addr: Seq<char>,
    pub heartbeat: i128,
}

/// The record of a replica.
pub struct NodeRegistration {
    pub node_id: NodeId,
    pub node_name: String,
    pub addr: String,
    /// When it was written, in nanoseconds since the start of the year 1970.
    pub heartbeat: i128,
}

impl View for NodeRegistration {
    type V = HeartbeatModel;

    open spec fn view(&self) -> HeartbeatModel {
        HeartbeatModel {
            node_id: self.node_id@,
            node_name: self.node_name@,
            addr: self.addr@,
            heartbeat: self.heartbeat,
        }
    }
}

/// The longest span that a record may be asked to hold: as many milliseconds
/// as a signed number of 64 bits counts.
pub const MAX_TTL_NANOS: u128 = 9_223_372_036_854_775_807_000_000;

/// Is a record with this heartbeat still good?
pub open spec fn is_fresh(now: i128, heartbeat: i128, ttl: Interval) -> bool {
    now - heartbeat <= ttl.nanos
}

/// The good records among those read, in their order, without the one under
/// the key `own`. A record that could not be read is left out.
pub open spec fn fresh_among(
    found: Seq<(String, Option<NodeRegistration>)>,
    own: Seq<char>,
    now: i128,
    ttl: Interval,
) -> Seq<HeartbeatModel>
    decreases found.len(),
{
    if found.len() == 0 {
        Seq::empty()
    } else {
        let rest = fresh_among(found.drop_last(), own, now, ttl);
        match found.last().1 {
            Some(reg) => if found.last().0@ != own && is_fresh(now, reg.heartbeat, ttl) {
                rest.push(reg@)
            } else {
                rest
            },
            None => rest,
        }
    }
}

/// The values of a list of records.
pub open spec fn records(list: Seq<NodeRegistration>) -> Seq<HeartbeatModel> {
    list.map_values(|r: NodeRegistration| r@)
}

/// The part of discovery that speaks for one replica.
pub struct Discovery {
    pub config: DiscoveryConfig,
    pub node_id: NodeId,
    pub node_name: String,
    pub advertise_addr: String,
}

impl Discovery {
    pub fn new(
        config: DiscoveryConfig,
        node_id: NodeId,
        node_name: String,
        advertise_addr: String,
    ) -> (r: Self)
        ensures
            r.config == config,
            r.node_id == node_id,
            r.node_name == node_name,
            r.advertise_addr == advertise_addr,
    {
        Discovery { config, node_id, node_name, advertise_addr }
    }

    /// The key of this replica's record.
    pub open spec fn own_key(self) -> Seq<char> {
        "nodes/"@ + self.node_id@ + ".json"@
    }

    /// The key of this replica's record.
    pub fn self_key(&self) -> (r: String)
        ensures
            r@ == self.own_key(),
    {
        let mut r = "nodes/".to_owned();
        r.append(self.node_id.as_str());
        r.append(".json");
        r
    }

    /// The record to write now.
    pub fn register(&self, now: i128) -> (r: NodeRegistration)
        ensures
            r@ == (HeartbeatModel {
                node_id: self.node_id@,
                node_name: self.node_name@,
                addr: self.advertise_addr@,
                heartbeat: now,
            }),
    {
        NodeRegistration {
            node_id: self.node_id.clone(),
            node_name: self.node_name.clone(),
            addr: self.advertise_addr.clone(),
            heartbeat: now,
        }
    }

    /// The good records of other replicas, among those that were read. None
    /// when the span for which a record is good is too long to measure.
    pub fn list_live_peers(
        &self,
        now: i128,
        found: Vec<(String, Option<NodeRegistration>)>,
    ) -> (r: Option<Vec<NodeRegistration>>)
        requires
            forall|i: int|
                0 <= i < found@.len() ==> ((#[trigger] found@[i]).1 matches Some(reg) ==> i128::MIN
                    <= now - reg.heartbeat <= i128::MAX),
        ensures
            match r {
                Some(live) => self.config.registration_ttl.nanos <= MAX_TTL_NANOS && records(live@)
                    == fresh_among(
                    found@,
                    self.own_key(),
                    now,
                    self.config.registration_ttl,
                ),
                None => self.config.registration_ttl.nanos > MAX_TTL_NANOS,
            },
    {
        let ttl = self.config.registration_ttl;
        if ttl.nanos > MAX_TTL_NANOS {
            return None;
        }
        let limit: i128 = ttl.nanos as i128;
        let own = self.self_key();
        let ghost all = found@;
        let mut found = found;
        let mut reversed: Vec<NodeRegistration> = Vec::new();
        let ghost whole = fresh_among(all, own@, now, ttl);
        assert(whole =~= fresh_among(found@, own@, now, ttl) + records(reversed@).reverse());
        while found.len() > 0
            invariant
                limit == ttl.nanos,
                found@.len() <= all.len(),
                found@ == all.take(found@.len() as int),
                forall|i: int|
                    0 <= i < all.len() ==> ((#[trigger] all[i]).1 matches Some(reg) ==> i128::MIN
                        <= now - reg.heartbeat <= i128::MAX),
                whole == fresh_among(found@, own@, now, ttl) + records(reversed@).reverse(),
            decreases found.len(),
        {
            let ghost before = found@;
            let ghost had = records(reversed@);
            match found.pop() {
                Some((key, Some(reg))) => {
                    assert(before.last() == all[before.len() - 1]);
                    assert(found@ =~= before.drop_last());
                    if !same_text(key.as_str(), own.as_str()) && now - reg.heartbeat <= limit {
                        proof {
                            assert(records(reversed@.push(reg)) =~= had.push(reg@));
                            assert(had.push(reg@).reverse() =~= seq![reg@] + had.reverse());
                            let rest = fresh_among(found@, own@, now, ttl);
                            assert(rest.push(reg@) + had.reverse() =~= rest + (seq![reg@]
                                + had.reverse()));
                        }
                        reversed.push(reg);
                    }
                },
                _ => {
                    assert(found@ =~= before.drop_last());
                },
            }
        }
        let mut live: Vec<NodeRegistration> = Vec::new();
        assert(whole =~= records(live@) + records(reversed@).reverse());
        while reversed.len() > 0
            invariant
                whole == records(live@) + records(reversed@).reverse(),
            decreases reversed.len(),
        {
            let ghost before = reversed@;
            let ghost had = records(live@);
            if let Some(reg) = reversed.pop() {
                proof {
                    assert(before =~= reversed@.push(reg));
                    assert(records(before) =~= records(reversed@).push(reg@));
                    assert(records(before).reverse() =~= seq![reg@] + records(reversed@).reverse());
                    assert(records(live@.push(reg)) =~= had.push(reg@));
                    assert(had + (seq![reg@] + records(reversed@).reverse()) =~= had.push(reg@)
                        + records(reversed@).reverse());
                }
                live.push(reg);
            }
        }
        assert(records(live@) =~= whole);
        Some(live)
    }

    /// One round of discovery: compare the peers that are connected with
    /// those whose records are good.
    pub fn discovery_round(&self, live: &Vec<NodeRegistration>, current: &Vec<NodeId>) -> (r:
        Reconciliation)
        ensures
            r.settles(self.node_id@, addresses_in(records(live@)), texts::texts_of(current@)),
    {
        let ghost all = records(live@);
        let mut peers: Vec<(NodeId, String)> = Vec::new();
        let mut i: usize = 0;
        assert(matching::addresses(peers@) =~= addresses_in(all.take(0)));
        while i < live.len()
            invariant
                i <= live.len(),
                all == records(live@),
                matching::addresses(peers@) == addresses_in(all.take(i as int)),
            decreases live.len() - i,
        {
            let ghost had = peers@;
            peers.push((live[i].node_id.clone(), live[i].addr.clone()));
            assert(peers@.drop_last() =~= had);
            assert(all.take(i + 1).drop_last() =~= all.take(i as int));
            i += 1;
        }
        assert(all.take(i as int) =~= all);
        reconcile(&self.node_id, &peers, current)
    }
}

/// Where the replicas with these records are, the later records winning.
pub open spec fn addresses_in(list: Seq<HeartbeatModel>) -> Map<Seq<char>, Seq<char>>
    decreases list.len(),
{
    if list.len() == 0 {
        Map::empty()
    } else {
        addresses_in(list.drop_last()).insert(list.last().node_id, list.last().addr)
    }
}

/// A record is good for as long as its span lasts, and never again after.
pub proof fn law_record_expires(now: i128, later: i128, heartbeat: i128, ttl: Interval)
    requires
        now <= later,
        is_fresh(later, heartbeat, ttl),
    ensures
        is_fresh(now, heartbeat, ttl),
{
}

/// A record is good just while no more time has gone by since its heartbeat
/// than it is good for.
pub proof fn law_fresh_while_the_span_lasts(now: i128, heartbeat: i128, ttl: Interval)
    ensures
        is_fresh(now, heartbeat, ttl) <==> now <= heartbeat + ttl.nanos,
{
}

/// The peers that are there are those whose record could be read, is not the
/// replica's own, and is still good; each comes as its record says.
pub proof fn law_live_peers_are_the_fresh(
    found: Seq<(String, Option<NodeRegistration>)>,
    own: Seq<char>,
    now: i128,
    ttl: Interval,
    record: HeartbeatModel,
)
    ensures
        fresh_among(found, own, now, ttl).contains(record) <==> exists|i: int|
            0 <= i < found.len() && (#[trigger] found[i]).1 is Some && found[i].0@ != own
                && found[i].1->0@ == record && now - record.heartbeat <= ttl.nanos,
    decreases found.len(),
{
    if found.len() > 0 {
        let rest = found.drop_last();
        let last = found.len() - 1;
        law_live_peers_are_the_fresh(rest, own, now, ttl, record);
        let before = fresh_among(rest, own, now, ttl);
        let all = fresh_among(found, own, now, ttl);
        if all.contains(record) {
            let k = choose|k: int| 0 <= k < all.len() && all[k] == record;
            if k < before.len() {
                assert(before[k] == record);
                let i = choose|i: int|
                    0 <= i < rest.len() && (#[trigger] rest[i]).1 is Some && rest[i].0@ != own
                        && rest[i].1->0@ == record && now - record.heartbeat <= ttl.nanos;
                assert(found[i] == rest[i]);
            } else {
                assert(found[last].1->0@ == record);
            }
        }
        if exists|i: int|
            0 <= i < found.len() && (#[trigger] found[i]).1 is Some && found[i].0@ != own
                && found[i].1->0@ == record && now - record.heartbeat <= ttl.nanos {
            let i = choose|i: int|
                0 <= i < found.len() && (#[trigger] found[i]).1 is Some && found[i].0@ != own
                    && found[i].1->0@ == record && now - record.heartbeat <= ttl.nanos;
            if i < last {
                assert(rest[i] == found[i]);
                let k = choose|k: int| 0 <= k < before.len() && before[k] == record;
                assert(all[k] == record);
            } else {
                assert(all[all.len() - 1] == record);
            }
        }
    }
}

/// Of the records of a replica, the last one tells where it is; a replica
/// without a record is nowhere.
pub proof fn law_last_record_holds(list: Seq<HeartbeatModel>, i: int, n: Seq<char>)
    ensures
        0 <= i < list.len() && (forall|j: int|
            i < j < list.len() ==> (#[trigger] list[j]).node_id != list[i].node_id)
            ==> addresses_in(list).contains_key(list[i].node_id) && addresses_in(
            list,
        )[list[i].node_id] == list[i].addr,
        addresses_in(list).contains_key(n) ==> exists|k: int|
            0 <= k < list.len() && (#[trigger] list[k]).node_id == n,
    decreases list.len(),
{
    if list.len() > 0 {
        let rest = list.drop_last();
        let last = list.len() - 1;
        law_last_record_holds(rest, i, n);
        if 0 <= i < last && (forall|j: int|
            i < j < list.len() ==> (#[trigger] list[j]).node_id != list[i].node_id) {
            assert(rest[i] == list[i]);
            assert(list[last].node_id != list[i].node_id);
            assert forall|j: int| i < j < rest.len() implies (#[trigger] rest[j]).node_id
                != rest[i].node_id by {
                assert(rest[j] == list[j]);
            }
        }
        if addresses_in(list).contains_key(n) {
            if n == list[last].node_id {
                assert(list[last].node_id == n);
            } else {
                assert(addresses_in(rest).contains_key(n));
                let k = choose|k: int| 0 <= k < rest.len() && (#[trigger] rest[k]).node_id == n;
                assert(list[k].node_id == n);
            }
        }
    }
}

} // verus!
