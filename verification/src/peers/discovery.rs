//! Discovery: which replicas are there.
//!
//! A replica registers by leaving an object whose key says all: who it is,
//! where it is, and until when the registration holds.

use chrono::{DateTime, Utc};
use vstd::prelude::*;
use vstd::string::StringExecFns;

use crate::common::{same_id, Counter, NodeId};
use crate::gc::storage as records;
use crate::node_map::NodeMap;
use crate::numbers;
use crate::numbers::{decimal, decimal_signed, parse_i64};
use crate::peers::reconciliation as matching;
use crate::peers::reconciliation::{reconcile, Reconciliation};
use crate::text as texts;
use crate::text::{
    has_text, same_text, sorted_unique, split_text, strip_prefix, strip_suffix,
};
use crate::time::Interval;

verus! {

/// The configuration of discovery.
pub struct DiscoveryConfig {
    pub endpoint: String,
    pub bucket: String,
    pub region: String,
    pub access_key: String,
    pub secret_key: String,
    pub poll_interval: Interval,
    pub registration_ttl: Interval,
    pub gc_replica: bool,
    /// The only replicas to connect to, if there is a choice.
    pub connect_node_ids: Option<Vec<NodeId>>,
}

impl Default for DiscoveryConfig {
    fn default() -> (r: Self)
        ensures
            r.endpoint@ == Seq::<char>::empty(),
            r.bucket@ == Seq::<char>::empty(),
            r.region@ == Seq::<char>::empty(),
            r.access_key@ == Seq::<char>::empty(),
            r.secret_key@ == Seq::<char>::empty(),
            r.poll_interval.nanos == 0,
            r.registration_ttl.nanos == 0,
            !r.gc_replica,
            r.connect_node_ids is None,
    {
        DiscoveryConfig {
            endpoint: String::new(),
            bucket: String::new(),
            region: String::new(),
            access_key: String::new(),
            secret_key: String::new(),
            poll_interval: Interval { nanos: 0 },
            registration_ttl: Interval { nanos: 0 },
            gc_replica: false,
            connect_node_ids: None,
        }
    }
}

// ── Time ────────────────────────────────────────────────────────────────

/// The first and the last millisecond since the epoch that is a date.
pub open spec fn is_date(millis: int) -> bool {
    -8_334_601_228_800_000 <= millis <= 8_210_266_876_799_999
}

/// `DateTime::<Utc>::from_timestamp_millis`: there is a date for the
/// milliseconds since the epoch from the first day of the year -262143 to the
/// last day of the year 262142, and for no others.
#[verifier::external_body]
fn has_date(millis: i64) -> (r: bool)
    ensures
        r == is_date(millis as int),
{
    DateTime::<Utc>::from_timestamp_millis(millis).is_some()
}

/// The millisecond in which a registration that is made now, for a span of
/// time, expires; none when that is no date.
pub open spec fn expiry(now_nanos: int, ttl: Interval) -> Option<int> {
    let millis = (now_nanos + ttl.nanos) / 1_000_000;
    if is_date(millis) {
        Some(millis)
    } else {
        None
    }
}

/// When a registration that is made now expires.
pub fn expires_at(now_nanos: i64, ttl: &Interval) -> (r: Option<i64>)
    ensures
        match r {
            Some(m) => expiry(now_nanos as int, *ttl) == Some(m as int),
            None => expiry(now_nanos as int, *ttl) is None,
        },
{
    // Beyond this span no date is left, wherever it starts.
    if ttl.nanos > 30_000_000_000_000_000_000_000 {
        return None;
    }
    let total: i128 = now_nanos as i128 + ttl.nanos as i128;
    let millis: i128 = if total >= 0 {
        total / 1_000_000
    } else {
        -1 - (-(total + 1)) / 1_000_000
    };
    assert(millis == (now_nanos + ttl.nanos) / 1_000_000);
    if millis > 9_000_000_000_000_000_000 {
        return None;
    }
    let millis = millis as i64;
    if has_date(millis) {
        Some(millis)
    } else {
        None
    }
}

// ── Registrations ───────────────────────────────────────────────────────

/// The mathematical value of a [`NodeRegistration`].
pub struct RegistrationModel {
    pub node_id: Seq<char>,
    pub node_name: Seq<char>,
    pub addr: Seq<char>,
    pub gc_replica: bool,
    pub expires_at: i64,
}

/// A registration.
pub struct NodeRegistration {
    pub node_id: NodeId,
    pub node_name: String,
    pub addr: String,
    pub gc_replica: bool,
    /// Until when it holds, in milliseconds since the epoch.
    pub expires_at: i64,
}

impl View for NodeRegistration {
    type V = RegistrationModel;

    open spec fn view(&self) -> RegistrationModel {
        RegistrationModel {
            node_id: self.node_id@,
            node_name: self.node_name@,
            addr: self.addr@,
            gc_replica: self.gc_replica,
            expires_at: self.expires_at,
        }
    }
}

impl Clone for NodeRegistration {
    fn clone(&self) -> (r: Self)
        ensures
            r@ == self@,
    {
        NodeRegistration {
            node_id: self.node_id.clone(),
            node_name: self.node_name.clone(),
            addr: self.addr.clone(),
            gc_replica: self.gc_replica,
            expires_at: self.expires_at,
        }
    }
}

/// What the keys of registrations begin with.
pub const DISCOVERY_NODES_PREFIX: &'static str = "nodes/";

/// What the keys begin with under which departed replicas leave their last
/// events, after the place of the garbage collection's records.
pub const FINAL_DOTS_PREFIX: &'static str = "final_dots/";

/// What the keys of a replica's registrations begin with.
pub open spec fn node_prefix(node: Seq<char>) -> Seq<char> {
    "nodes/"@ + node + "__"@
}

/// The key of a registration.
pub open spec fn key_of(
    node: Seq<char>,
    expires_at: i64,
    gc_replica: bool,
    addr: Seq<char>,
) -> Seq<char> {
    node_prefix(node) + (if gc_replica {
        "1"@
    } else {
        "0"@
    }) + "__"@ + addr + "__"@ + numbers::signed_text(expires_at as int) + ".json"@
}

/// The key of a registration.
pub fn registration_key(
    node_id: &NodeId,
    expires_at: i64,
    gc_replica: bool,
    addr: &str,
) -> (r: String)
    ensures
        r@ == key_of(node_id@, expires_at, gc_replica, addr@),
{
    let mut r = registration_key_prefix(node_id);
    r.append(
        if gc_replica {
            "1"
        } else {
            "0"
        },
    );
    r.append("__");
    r.append(addr);
    r.append("__");
    r.append(decimal_signed(expires_at).as_str());
    r.append(".json");
    r
}

/// What the keys of a replica's registrations begin with.
pub fn registration_key_prefix(node_id: &NodeId) -> (r: String)
    ensures
        r@ == node_prefix(node_id@),
{
    let mut r = "nodes/".to_owned();
    r.append(node_id.as_str());
    r.append("__");
    r
}

/// The mathematical value of a [`RegistrationKeyError`].
pub enum KeyErrorModel {
    Prefix,
    Suffix,
    MissingNodeId,
    MissingGcReplica,
    InvalidGcReplica(Seq<char>),
    MissingAddress,
    MissingExpiry,
    ExpiryNotANumber,
    InvalidExpiry,
}

/// What is wrong with a key.
pub enum RegistrationKeyError {
    Prefix,
    Suffix,
    MissingNodeId,
    MissingGcReplica,
    InvalidGcReplica(String),
    MissingAddress,
    MissingExpiry,
    ExpiryNotANumber,
    InvalidExpiry,
}

impl View for RegistrationKeyError {
    type V = KeyErrorModel;

    open spec fn view(&self) -> KeyErrorModel {
        match self {
            RegistrationKeyError::Prefix => KeyErrorModel::Prefix,
            RegistrationKeyError::Suffix => KeyErrorModel::Suffix,
            RegistrationKeyError::MissingNodeId => KeyErrorModel::MissingNodeId,
            RegistrationKeyError::MissingGcReplica => KeyErrorModel::MissingGcReplica,
            RegistrationKeyError::InvalidGcReplica(m) => KeyErrorModel::InvalidGcReplica(m@),
            RegistrationKeyError::MissingAddress => KeyErrorModel::MissingAddress,
            RegistrationKeyError::MissingExpiry => KeyErrorModel::MissingExpiry,
            RegistrationKeyError::ExpiryNotANumber => KeyErrorModel::ExpiryNotANumber,
            RegistrationKeyError::InvalidExpiry => KeyErrorModel::InvalidExpiry,
        }
    }
}

/// The registration that the middle of a key spells out.
pub open spec fn read_parts(parts: Seq<Seq<char>>) -> Result<RegistrationModel, KeyErrorModel> {
    if parts[0].len() == 0 {
        Err(KeyErrorModel::MissingNodeId)
    } else if parts.len() < 2 {
        Err(KeyErrorModel::MissingGcReplica)
    } else if parts[1] != "1"@ && parts[1] != "0"@ {
        Err(KeyErrorModel::InvalidGcReplica(parts[1]))
    } else if parts.len() < 3 {
        Err(KeyErrorModel::MissingAddress)
    } else if parts.len() < 4 {
        Err(KeyErrorModel::MissingExpiry)
    } else {
        match numbers::i64_value(parts[3]) {
            None => Err(KeyErrorModel::ExpiryNotANumber),
            Some(millis) => if !is_date(millis as int) {
                Err(KeyErrorModel::InvalidExpiry)
            } else {
                Ok(
                    RegistrationModel {
                        node_id: parts[0],
                        node_name: parts[0],
                        addr: parts[2],
                        gc_replica: parts[1] == "1"@,
                        expires_at: millis,
                    },
                )
            },
        }
    }
}

/// The registration that a key spells out.
pub open spec fn read_key(key: Seq<char>) -> Result<RegistrationModel, KeyErrorModel> {
    match texts::after_prefix(key, "nodes/"@) {
        None => Err(KeyErrorModel::Prefix),
        Some(rest) => match texts::before_suffix(rest, ".json"@) {
            None => Err(KeyErrorModel::Suffix),
            Some(stem) => read_parts(texts::split_limited(stem, "__"@, 4)),
        },
    }
}

/// The values of what reading a key gives.
pub open spec fn key_value(r: Result<NodeRegistration, RegistrationKeyError>) -> Result<
    RegistrationModel,
    KeyErrorModel,
> {
    match r {
        Ok(reg) => Ok(reg@),
        Err(e) => Err(e@),
    }
}

/// Read a key.
pub fn parse_registration_key(key: &str) -> (r: Result<NodeRegistration, RegistrationKeyError>)
    ensures
        key_value(r) == read_key(key@),
{
    let rest = match strip_prefix(key, "nodes/") {
        Some(rest) => rest,
        None => {
            return Err(RegistrationKeyError::Prefix);
        },
    };
    let stem = match strip_suffix(rest.as_str(), ".json") {
        Some(stem) => stem,
        None => {
            return Err(RegistrationKeyError::Suffix);
        },
    };
    let parts = split_text(stem.as_str(), "__", 4);
    let ghost pieces = texts::texts_of(parts@);
    proof {
        assert(pieces.len() == parts@.len());
        assert forall|i: int| 0 <= i < pieces.len() implies #[trigger] pieces[i] == parts@[i]@ by {}
        reveal_with_fuel(texts::split_limited, 2);
        assert(pieces.len() >= 1);
    }
    if same_text(parts[0].as_str(), "") {
        proof {
            reveal_strlit("");
            assert(pieces[0].len() == 0);
        }
        return Err(RegistrationKeyError::MissingNodeId);
    }
    proof {
        reveal_strlit("");
        if pieces[0].len() == 0 {
            assert(pieces[0] =~= ""@);
        }
    }
    if parts.len() < 2 {
        return Err(RegistrationKeyError::MissingGcReplica);
    }
    let gc_replica: bool = if same_text(parts[1].as_str(), "1") {
        true
    } else if same_text(parts[1].as_str(), "0") {
        proof {
            reveal_strlit("0");
            reveal_strlit("1");
            assert("0"@[0] != "1"@[0]);
        }
        false
    } else {
        return Err(RegistrationKeyError::InvalidGcReplica(parts[1].clone()));
    };
    if parts.len() < 3 {
        return Err(RegistrationKeyError::MissingAddress);
    }
    if parts.len() < 4 {
        return Err(RegistrationKeyError::MissingExpiry);
    }
    let expires_at = match parse_i64(parts[3].as_str()) {
        Some(millis) => millis,
        None => {
            return Err(RegistrationKeyError::ExpiryNotANumber);
        },
    };
    if !has_date(expires_at) {
        return Err(RegistrationKeyError::InvalidExpiry);
    }
    Ok(
        NodeRegistration {
            node_id: parts[0].clone(),
            node_name: parts[0].clone(),
            addr: parts[2].clone(),
            gc_replica,
            expires_at,
        },
    )
}

/// Does the text have no two underscores in a row, and none at its end?
pub open spec fn plain(s: Seq<char>) -> bool {
    &&& forall|i: int| 0 <= i < s.len() - 1 ==> !(#[trigger] s[i] == '_' && s[i + 1] == '_')
    &&& s.len() > 0 ==> s.last() != '_'
}

/// A plain text before two underscores ends where they begin.
proof fn lemma_plain_piece(a: Seq<char>, rest: Seq<char>, limit: nat)
    requires
        plain(a),
        limit > 1,
    ensures
        texts::split_limited(a + "__"@ + rest, "__"@, limit) == seq![a] + texts::split_limited(
            rest,
            "__"@,
            (limit - 1) as nat,
        ),
{
    reveal_strlit("__");
    let sep = "__"@;
    let s = a + sep + rest;
    assert(s.subrange(a.len() as int, a.len() as int + 2) =~= sep);
    assert forall|j: int| 0 <= j < a.len() implies !texts::occurs_at(s, sep, j) by {
        if texts::occurs_at(s, sep, j) {
            assert(s.subrange(j, j + 2)[0] == sep[0]);
            assert(s.subrange(j, j + 2)[1] == sep[1]);
            assert(s[j] == '_' && s[j + 1] == '_');
            if j + 1 < a.len() {
                assert(a[j] == '_' && a[j + 1] == '_');
            } else {
                assert(a.last() == '_');
            }
        }
    }
    texts::lemma_first_found(s, sep, 0, a.len() as int);
    assert(s.take(a.len() as int) =~= a);
    assert(s.skip(a.len() as int + 2) =~= rest);
}

/// The key of a registration reads back, when it expires at a date, and
/// neither the identifier nor the address has two underscores in a row or
/// one at its end, and the identifier is not empty.
pub proof fn law_registration_key_reads_back(
    node: Seq<char>,
    expires_at: i64,
    gc_replica: bool,
    addr: Seq<char>,
)
    requires
        node.len() > 0,
        plain(node),
        plain(addr),
        is_date(expires_at as int),
    ensures
        read_key(key_of(node, expires_at, gc_replica, addr)) == Ok::<
            RegistrationModel,
            KeyErrorModel,
        >(RegistrationModel { node_id: node, node_name: node, addr, gc_replica, expires_at }),
{
    reveal_strlit("nodes/");
    reveal_strlit("__");
    reveal_strlit(".json");
    reveal_strlit("1");
    reveal_strlit("0");
    let mark = if gc_replica {
        "1"@
    } else {
        "0"@
    };
    let millis = numbers::signed_text(expires_at as int);
    let tail = addr + "__"@ + millis;
    let inner = mark + "__"@ + tail;
    let stem = node + "__"@ + inner;
    let key = key_of(node, expires_at, gc_replica, addr);
    assert(key =~= "nodes/"@ + stem + ".json"@);
    let rest = stem + ".json"@;
    assert(key.subrange(0, 6) =~= "nodes/"@);
    assert(key.skip(6) =~= rest);
    assert(texts::after_prefix(key, "nodes/"@) == Some(rest));
    assert(rest.subrange(rest.len() - 5, rest.len() as int) =~= ".json"@);
    assert(rest.take(rest.len() - 5) =~= stem);
    assert(texts::before_suffix(rest, ".json"@) == Some(stem));
    lemma_plain_piece(node, inner, 4);
    assert(plain(mark));
    lemma_plain_piece(mark, tail, 3);
    lemma_plain_piece(addr, millis, 2);
    assert(texts::split_limited(millis, "__"@, 1) == seq![millis]);
    let parts = texts::split_limited(stem, "__"@, 4);
    assert(parts =~= seq![node, mark, addr, millis]);
    numbers::law_signed_reads_back(expires_at as int);
    assert("0"@[0] != "1"@[0]);
}

/// What the keys of a replica's registrations begin with finds its own keys
/// and no other's, when neither identifier has two underscores in a row or
/// one at its end.
pub proof fn law_prefix_finds_own_keys(
    own: Seq<char>,
    node: Seq<char>,
    expires_at: i64,
    gc_replica: bool,
    addr: Seq<char>,
)
    requires
        plain(own),
        plain(node),
    ensures
        texts::occurs_at(key_of(node, expires_at, gc_replica, addr), node_prefix(own), 0)
            <==> own == node,
{
    reveal_strlit("nodes/");
    reveal_strlit("__");
    let key = key_of(node, expires_at, gc_replica, addr);
    let prefix = node_prefix(own);
    let n = node.len() as int;
    let m = own.len() as int;
    assert(key.take(n + 8) =~= node_prefix(node));
    assert forall|i: int| 0 <= i < n + 8 implies key[i] == #[trigger] node_prefix(node)[i] by {
        assert(key.take(n + 8)[i] == key[i]);
    }
    assert(node_prefix(node)[n + 6] == '_' && node_prefix(node)[n + 7] == '_');
    if own == node {
        assert(key.subrange(0, prefix.len() as int) =~= prefix);
    }
    if texts::occurs_at(key, prefix, 0) {
        assert forall|i: int| 0 <= i < m + 8 implies key[i] == #[trigger] prefix[i] by {
            assert(key.subrange(0, m + 8)[i] == key[i]);
        }
        assert(prefix[m + 6] == '_' && prefix[m + 7] == '_');
        if m < n {
            assert(node[m] == node_prefix(node)[m + 6]);
            if m + 1 < n {
                assert(node[m + 1] == node_prefix(node)[m + 7]);
            }
        } else if m > n {
            assert(own[n] == prefix[n + 6]);
            if n + 1 < m {
                assert(own[n + 1] == prefix[n + 7]);
            }
        } else {
            assert forall|i: int| 0 <= i < n implies own[i] == node[i] by {
                assert(own[i] == prefix[i + 6] && node[i] == node_prefix(node)[i + 6]);
            }
            assert(own =~= node);
        }
    }
}

// ── Who is there ────────────────────────────────────────────────────────

/// The registrations in a list of keys that hold now: for each replica the
/// one that expires last, and of those the first.
pub open spec fn live_in(keys: Seq<Seq<char>>, now: i64) -> Map<Seq<char>, RegistrationModel>
    decreases keys.len(),
{
    if keys.len() == 0 {
        Map::empty()
    } else {
        let rest = live_in(keys.drop_last(), now);
        match read_key(keys.last()) {
            Ok(reg) => if reg.expires_at > now && (!rest.contains_key(reg.node_id)
                || reg.expires_at > rest[reg.node_id].expires_at) {
                rest.insert(reg.node_id, reg)
            } else {
                rest
            },
            Err(_) => rest,
        }
    }
}

/// The values in a map of registrations.
pub open spec fn registrations(m: Map<Seq<char>, NodeRegistration>) -> Map<
    Seq<char>,
    RegistrationModel,
> {
    Map::new(|n: Seq<char>| m.contains_key(n), |n: Seq<char>| m[n]@)
}

/// The list holds each registration of the map once, and nothing else.
pub open spec fn lists_registrations(
    list: Seq<NodeRegistration>,
    m: Map<Seq<char>, RegistrationModel>,
) -> bool {
    &&& forall|i: int, j: int|
        0 <= i < j < list.len() ==> (#[trigger] list[i]).node_id@ != (
        #[trigger] list[j]).node_id@
    &&& forall|i: int|
        0 <= i < list.len() ==> m.contains_key((#[trigger] list[i]).node_id@)
            && m[list[i].node_id@] == list[i]@
    &&& forall|n: Seq<char>| #[trigger]
        m.contains_key(n) ==> exists|i: int|
            0 <= i < list.len() && (#[trigger] list[i]).node_id@ == n
}

/// Each registration stands under the replica that it is of.
pub proof fn lemma_live_keyed(keys: Seq<Seq<char>>, now: i64)
    ensures
        forall|n: Seq<char>| #[trigger]
            live_in(keys, now).contains_key(n) ==> live_in(keys, now)[n].node_id == n,
    decreases keys.len(),
{
    if keys.len() > 0 {
        let rest = live_in(keys.drop_last(), now);
        lemma_live_keyed(keys.drop_last(), now);
        assert forall|n: Seq<char>| #[trigger] live_in(keys, now).contains_key(n) implies live_in(
            keys,
            now,
        )[n].node_id == n by {
            if rest.contains_key(n) {
                assert(rest[n].node_id == n);
            }
        }
    }
}

/// The registrations that hold now, by the keys that were listed. `now` is
/// the time in milliseconds since the start of the year 1970.
pub fn list_live_registrations(keys: &Vec<String>, now: i64) -> (r: Vec<NodeRegistration>)
    ensures
        lists_registrations(r@, live_in(texts::texts_of(keys@), now)),
{
    let ghost all = texts::texts_of(keys@);
    let mut by_node: NodeMap<NodeRegistration> = NodeMap::new();
    assert(registrations(by_node@) =~= live_in(all.take(0), now));
    let mut i: usize = 0;
    while i < keys.len()
        invariant
            i <= keys.len(),
            all == texts::texts_of(keys@),
            registrations(by_node@) == live_in(all.take(i as int), now),
        decreases keys.len() - i,
    {
        let ghost before = by_node@;
        proof {
            assert(all.take(i + 1).drop_last() =~= all.take(i as int));
            assert(all.take(i + 1).last() == keys@[i as int]@);
        }
        match parse_registration_key(keys[i].as_str()) {
            Ok(reg) => {
                if reg.expires_at > now {
                    let replace: bool = match by_node.get(&reg.node_id) {
                        Some(existing) => {
                            assert(registrations(before)[reg.node_id@] == existing@);
                            reg.expires_at > existing.expires_at
                        },
                        None => true,
                    };
                    if replace {
                        let ghost value = reg@;
                        let id = reg.node_id.clone();
                        by_node.insert(id, reg);
                        assert(registrations(by_node@) =~= registrations(before).insert(
                            value.node_id,
                            value,
                        ));
                    }
                }
            },
            Err(_) => {},
        }
        i += 1;
    }
    assert(all.take(i as int) =~= all);
    let entries = by_node.entries();
    let ghost m = live_in(all, now);
    let mut r: Vec<NodeRegistration> = Vec::new();
    let mut k: usize = 0;
    while k < entries.len()
        invariant
            k <= entries.len(),
            r.len() == k,
            forall|j: int| 0 <= j < k ==> (#[trigger] r@[j])@ == entries@[j].1@,
        decreases entries.len() - k,
    {
        r.push(entries[k].1.clone());
        k += 1;
    }
    proof {
        lemma_live_keyed(all, now);
        assert forall|j: int| 0 <= j < r@.len() implies (#[trigger] r@[j]).node_id@
            == entries@[j].0@ && m.contains_key(r@[j].node_id@) && m[r@[j].node_id@]
            == r@[j]@ by {
            assert(by_node@.contains_key(entries@[j].0@));
            assert(by_node@[entries@[j].0@] == entries@[j].1);
            assert(registrations(by_node@)[entries@[j].0@] == entries@[j].1@);
            assert(m.contains_key(entries@[j].0@));
            assert(m[entries@[j].0@].node_id == entries@[j].0@);
            assert(r@[j]@.node_id == entries@[j].1@.node_id);
        }
        assert forall|a: int, b: int| 0 <= a < b < r@.len() implies (#[trigger] r@[a]).node_id@
            != (#[trigger] r@[b]).node_id@ by {
            assert(entries@[a].0@ != entries@[b].0@);
        }
        assert forall|n: Seq<char>| #[trigger] m.contains_key(n) implies exists|j: int|
            0 <= j < r@.len() && (#[trigger] r@[j]).node_id@ == n by {
            assert(registrations(by_node@).contains_key(n));
            assert(by_node@.contains_key(n));
            let j = choose|j: int| 0 <= j < entries@.len() && (#[trigger] entries@[j]).0@ == n;
            assert(r@[j].node_id@ == n);
        }
    }
    r
}

/// The identifiers on a list of registrations.
pub open spec fn ids_of(list: Seq<NodeRegistration>) -> Seq<Seq<char>> {
    list.map_values(|r: NodeRegistration| r.node_id@)
}

/// The replicas that are there, in order, each once.
pub fn list_live_node_ids(keys: &Vec<String>, now: i64) -> (r: Vec<NodeId>)
    ensures
        texts::in_order(texts::texts_of(r@)),
        texts::texts_of(r@).no_duplicates(),
        texts::texts_of(r@).to_set() == live_in(texts::texts_of(keys@), now).dom(),
{
    let live = list_live_registrations(keys, now);
    let ghost m = live_in(texts::texts_of(keys@), now);
    let mut ids: Vec<NodeId> = Vec::new();
    let mut i: usize = 0;
    while i < live.len()
        invariant
            i <= live.len(),
            texts::texts_of(ids@) =~= ids_of(live@).take(i as int),
        decreases live.len() - i,
    {
        let id = live[i].node_id.clone();
        assert(texts::texts_of(ids@.push(id)) =~= texts::texts_of(ids@).push(id@));
        ids.push(id);
        i += 1;
    }
    proof {
        let named = ids_of(live@);
        assert(named.take(i as int) =~= named);
        assert forall|n: Seq<char>| named.to_set().contains(n) == m.dom().contains(n) by {
            if named.contains(n) {
                let j = choose|j: int| 0 <= j < named.len() && named[j] == n;
                assert(live@[j].node_id@ == n);
            }
            if m.contains_key(n) {
                let j = choose|j: int| 0 <= j < live@.len() && (#[trigger] live@[j]).node_id@ == n;
                assert(named[j] == n);
            }
        }
        assert(named.to_set() =~= m.dom());
    }
    sorted_unique(&ids)
}

/// Is the replica another one, and one to connect to if there is a choice?
pub open spec fn is_candidate(
    own: Seq<char>,
    allowed: Option<Seq<Seq<char>>>,
    n: Seq<char>,
) -> bool {
    n != own && match allowed {
        Some(ids) => ids.contains(n),
        None => true,
    }
}

/// The registrations of the replicas to connect to.
pub open spec fn candidates(
    live: Map<Seq<char>, RegistrationModel>,
    own: Seq<char>,
    allowed: Option<Seq<Seq<char>>>,
) -> Map<Seq<char>, RegistrationModel> {
    Map::new(
        |n: Seq<char>| live.contains_key(n) && is_candidate(own, allowed, n),
        |n: Seq<char>| live[n],
    )
}

/// The values of an optional list of identifiers.
pub open spec fn allowed_ids(ids: Option<Vec<NodeId>>) -> Option<Seq<Seq<char>>> {
    match ids {
        Some(v) => Some(texts::texts_of(v@)),
        None => None,
    }
}

/// The peers that are there and may be connected to.
fn retain_peers(
    keys: &Vec<String>,
    now: i64,
    own: &NodeId,
    connect_node_ids: &Option<Vec<NodeId>>,
) -> (r: Vec<NodeRegistration>)
    ensures
        lists_registrations(
            r@,
            candidates(
                live_in(texts::texts_of(keys@), now),
                own@,
                allowed_ids(*connect_node_ids),
            ),
        ),
{
    let live = list_live_registrations(keys, now);
    let ghost all = live_in(texts::texts_of(keys@), now);
    let ghost allowed = allowed_ids(*connect_node_ids);
    let mut r: Vec<NodeRegistration> = Vec::new();
    let mut i: usize = 0;
    while i < live.len()
        invariant
            i <= live.len(),
            lists_registrations(live@, all),
            allowed == allowed_ids(*connect_node_ids),
            forall|a: int, b: int|
                0 <= a < b < r@.len() ==> (#[trigger] r@[a]).node_id@ != (
                #[trigger] r@[b]).node_id@,
            forall|k: int|
                0 <= k < r@.len() ==> is_candidate(own@, allowed, (#[trigger] r@[k]).node_id@)
                    && exists|j: int| 0 <= j < i && (#[trigger] live@[j])@ == r@[k]@,
            forall|j: int|
                0 <= j < i && is_candidate(own@, allowed, (#[trigger] live@[j]).node_id@)
                    ==> exists|k: int| 0 <= k < r@.len() && (#[trigger] r@[k])@ == live@[j]@,
        decreases live.len() - i,
    {
        let ghost had = r@;
        let is_allowed: bool = match connect_node_ids {
            Some(ids) => has_text(ids.as_slice(), live[i].node_id.as_str()),
            None => true,
        };
        if !same_id(&live[i].node_id, own) && is_allowed {
            let reg = live[i].clone();
            proof {
                assert(reg@.node_id == live@[i as int]@.node_id);
                assert forall|k: int| 0 <= k < had.len() implies (#[trigger] had[k]).node_id@
                    != reg.node_id@ by {
                    let j = choose|j: int| 0 <= j < i && (#[trigger] live@[j])@ == had[k]@;
                    assert(live@[j].node_id@ != live@[i as int].node_id@);
                    assert(live@[j]@.node_id == had[k]@.node_id);
                }
            }
            r.push(reg);
        }
        proof {
            assert forall|k: int| 0 <= k < r@.len() implies is_candidate(
                own@,
                allowed,
                (#[trigger] r@[k]).node_id@,
            ) && exists|j: int| 0 <= j < i + 1 && (#[trigger] live@[j])@ == r@[k]@ by {
                if k < had.len() {
                    assert(r@[k] == had[k]);
                    let j = choose|j: int| 0 <= j < i && (#[trigger] live@[j])@ == had[k]@;
                    assert(live@[j]@ == r@[k]@);
                } else {
                    assert(live@[i as int]@ == r@[k]@);
                }
            }
            assert forall|j: int|
                0 <= j < i + 1 && is_candidate(own@, allowed, (#[trigger] live@[j]).node_id@)
                implies exists|k: int| 0 <= k < r@.len() && (#[trigger] r@[k])@ == live@[j]@ by {
                if j < i {
                    let k = choose|k: int| 0 <= k < had.len() && (#[trigger] had[k])@ == live@[j]@;
                    assert(r@[k]@ == live@[j]@);
                } else {
                    assert(r@[r@.len() - 1]@ == live@[j]@);
                }
            }
        }
        i += 1;
    }
    proof {
        let m = candidates(all, own@, allowed);
        assert forall|k: int| 0 <= k < r@.len() implies m.contains_key((#[trigger] r@[k]).node_id@)
            && m[r@[k].node_id@] == r@[k]@ by {
            let j = choose|j: int| 0 <= j < live@.len() && (#[trigger] live@[j])@ == r@[k]@;
            assert(live@[j]@.node_id == r@[k]@.node_id);
            assert(all.contains_key(live@[j].node_id@));
        }
        assert forall|n: Seq<char>| #[trigger] m.contains_key(n) implies exists|k: int|
            0 <= k < r@.len() && (#[trigger] r@[k]).node_id@ == n by {
            assert(all.contains_key(n));
            let j = choose|j: int| 0 <= j < live@.len() && (#[trigger] live@[j]).node_id@ == n;
            let k = choose|k: int| 0 <= k < r@.len() && (#[trigger] r@[k])@ == live@[j]@;
            assert(r@[k]@.node_id == live@[j]@.node_id);
            assert(r@[k].node_id@ == n);
        }
    }
    r
}

// ── The service ─────────────────────────────────────────────────────────

/// A text as JSON: quoted, with special characters escaped.
pub uninterp spec fn json_text(text: Seq<char>) -> Seq<u8>;

/// `serde_json::to_vec_pretty` of a text: it does not fail, and its result
/// depends on the text alone. The empty text is two quotation marks; what the
/// escapes of other texts look like is left unsaid.
#[verifier::external_body]
fn text_to_json(text: &str) -> (r: Option<Vec<u8>>)
    ensures
        r is Some,
        r->0@ == json_text(text@),
        text@.len() == 0 ==> r->0@.len() == 2 && r->0@[0] == 34 && r->0@[1] == 34,
{
    serde_json::to_vec_pretty(text).ok()
}

/// What a replica does to register.
pub struct RegistrationUpdate {
    /// The keys of its earlier registrations, which go first.
    pub delete: Vec<String>,
    /// The key of the new registration.
    pub key: String,
    /// What is stored under it.
    pub body: Vec<u8>,
}

/// What a replica does to leave.
pub struct Deregistration {
    /// The key under which its last event and its state are left.
    pub key: String,
    /// The keys of its registrations, which go afterwards.
    pub delete: Vec<String>,
}

/// The part of discovery that speaks for one replica.
pub struct Discovery {
    pub config: DiscoveryConfig,
    pub node_id: NodeId,
    pub node_name: String,
    pub listen_host: String,
    pub listen_port: String,
}

impl Discovery {
    pub fn new(
        config: DiscoveryConfig,
        node_id: NodeId,
        node_name: String,
        listen_host: String,
        listen_port: String,
    ) -> (r: Self)
        ensures
            r.config == config,
            r.node_id == node_id,
            r.node_name == node_name,
            r.listen_host == listen_host,
            r.listen_port == listen_port,
    {
        Discovery { config, node_id, node_name, listen_host, listen_port }
    }

    /// Where the replica listens.
    pub open spec fn listens_at(self) -> Seq<char> {
        self.listen_host@ + ":"@ + self.listen_port@
    }

    /// Register, or refresh the registration. `now_nanos` is the time since
    /// the start of the year 1970, `current_keys` the keys of the replica's
    /// earlier registrations. Without a date at which the registration ends
    /// there is none.
    pub fn register(&self, now_nanos: i64, current_keys: Vec<String>) -> (r: Option<
        RegistrationUpdate,
    >)
        ensures
            match r {
                Some(update) => {
                    &&& update.delete == current_keys
                    &&& update.body@ == seq![34u8, 34u8]
                    &&& exists|end: i64|
                        expiry(now_nanos as int, self.config.registration_ttl) == Some(end as int)
                            && update.key@ == #[trigger] key_of(
                            self.node_id@,
                            end,
                            self.config.gc_replica,
                            self.listens_at(),
                        )
                },
                None => expiry(now_nanos as int, self.config.registration_ttl) is None,
            },
    {
        let end: i64 = match expires_at(now_nanos, &self.config.registration_ttl) {
            Some(end) => end,
            None => {
                return None;
            },
        };
        let mut addr = self.listen_host.clone();
        addr.append(":");
        addr.append(self.listen_port.as_str());
        let key = registration_key(&self.node_id, end, self.config.gc_replica, addr.as_str());
        proof {
            reveal_strlit("");
        }
        match text_to_json("") {
            Some(body) => {
                assert(body@ =~= seq![34u8, 34u8]);
                assert(addr@ =~= self.listens_at());
                Some(RegistrationUpdate { delete: current_keys, key, body })
            },
            None => None,
        }
    }

    /// Leave. `prefix` is where the garbage collection keeps its records.
    pub fn deregister(&self, prefix: &str, final_dot: Counter, current_keys: Vec<String>) -> (r:
        Deregistration)
        ensures
            r.delete == current_keys,
            r.key@ == records::final_dot_key(prefix@, self.node_id@, final_dot),
    {
        let mut key = prefix.to_owned();
        key.append("/final_dots/");
        key.append(self.node_id.as_str());
        key.append("_");
        key.append(decimal(final_dot).as_str());
        key.append(".json");
        Deregistration { key, delete: current_keys }
    }

    /// The peers that are there and may be connected to.
    pub fn list_live_peers(&self, keys: &Vec<String>, now: i64) -> (r: Vec<NodeRegistration>)
        ensures
            lists_registrations(
                r@,
                candidates(
                    live_in(texts::texts_of(keys@), now),
                    self.node_id@,
                    allowed_ids(self.config.connect_node_ids),
                ),
            ),
    {
        retain_peers(keys, now, &self.node_id, &self.config.connect_node_ids)
    }

    /// One round of discovery: compare the peers that are connected with
    /// those in a listing of the registrations.
    pub fn discovery_round(&self, keys: &Vec<String>, now: i64, current: &Vec<NodeId>) -> (r:
        Reconciliation)
        ensures
            r.settles(
                self.node_id@,
                addresses_in(
                    candidates(
                        live_in(texts::texts_of(keys@), now),
                        self.node_id@,
                        allowed_ids(self.config.connect_node_ids),
                    ),
                ),
                texts::texts_of(current@),
            ),
    {
        let live = self.list_live_peers(keys, now);
        let peers = listed_addresses(&live);
        proof {
            lemma_listed_addresses(
                live@,
                peers@,
                candidates(
                    live_in(texts::texts_of(keys@), now),
                    self.node_id@,
                    allowed_ids(self.config.connect_node_ids),
                ),
            );
        }
        reconcile(&self.node_id, &peers, current)
    }
}

/// Where the registered replicas are.
pub open spec fn addresses_in(m: Map<Seq<char>, RegistrationModel>) -> Map<Seq<char>, Seq<char>> {
    Map::new(|n: Seq<char>| m.contains_key(n), |n: Seq<char>| m[n].addr)
}

/// Who is on a list of registrations, and where.
fn listed_addresses(list: &Vec<NodeRegistration>) -> (r: Vec<(NodeId, String)>)
    ensures
        r@.len() == list@.len(),
        forall|i: int|
            0 <= i < r@.len() ==> (#[trigger] r@[i]).0@ == list@[i].node_id@ && r@[i].1@
                == list@[i].addr@,
{
    let mut r: Vec<(NodeId, String)> = Vec::new();
    let mut i: usize = 0;
    while i < list.len()
        invariant
            i <= list.len(),
            r@.len() == i,
            forall|j: int|
                0 <= j < i ==> (#[trigger] r@[j]).0@ == list@[j].node_id@ && r@[j].1@
                    == list@[j].addr@,
        decreases list.len() - i,
    {
        r.push((list[i].node_id.clone(), list[i].addr.clone()));
        i += 1;
    }
    r
}

proof fn lemma_listed_addresses(
    list: Seq<NodeRegistration>,
    pairs: Seq<(NodeId, String)>,
    m: Map<Seq<char>, RegistrationModel>,
)
    requires
        lists_registrations(list, m),
        pairs.len() == list.len(),
        forall|i: int|
            0 <= i < pairs.len() ==> (#[trigger] pairs[i]).0@ == list[i].node_id@ && pairs[i].1@
                == list[i].addr@,
    ensures
        matching::addresses(pairs) == addresses_in(m),
{
    assert forall|i: int, j: int| 0 <= i < j < pairs.len() implies (#[trigger] pairs[i]).0@ != (
    #[trigger] pairs[j]).0@ by {
        assert(list[i].node_id@ != list[j].node_id@);
    }
    matching::lemma_addresses(pairs);
    let found = matching::addresses(pairs);
    assert forall|n: Seq<char>| found.contains_key(n) == m.contains_key(n) by {
        if found.contains_key(n) {
            let i = choose|i: int| 0 <= i < pairs.len() && (#[trigger] pairs[i]).0@ == n;
            assert(m.contains_key(list[i].node_id@));
        }
        if m.contains_key(n) {
            let i = choose|i: int| 0 <= i < list.len() && (#[trigger] list[i]).node_id@ == n;
            assert(found.contains_key(pairs[i].0@));
        }
    }
    assert forall|n: Seq<char>| m.contains_key(n) implies found[n] == m[n].addr by {
        let i = choose|i: int| 0 <= i < list.len() && (#[trigger] list[i]).node_id@ == n;
        assert(m[list[i].node_id@] == list[i]@);
        assert(found[pairs[i].0@] == pairs[i].1@);
    }
    assert(found =~= addresses_in(m));
}

// ── Laws ────────────────────────────────────────────────────────────────

/// A replica is there just when some key spells out a registration of it that
/// has not expired; the registration that counts is one of these, and none of
/// them expires later.
pub proof fn law_live_until_the_last_registration(keys: Seq<Seq<char>>, now: i64, n: Seq<char>)
    ensures
        live_in(keys, now).contains_key(n) ==> exists|i: int|
            0 <= i < keys.len() && (#[trigger] read_key(keys[i])) is Ok && read_key(keys[i])->Ok_0
                == live_in(keys, now)[n],
        live_in(keys, now).contains_key(n) ==> live_in(keys, now)[n].node_id == n && live_in(
            keys,
            now,
        )[n].expires_at > now,
        forall|i: int|
            0 <= i < keys.len() && (#[trigger] read_key(keys[i])) is Ok && read_key(
                keys[i],
            )->Ok_0.node_id == n && read_key(keys[i])->Ok_0.expires_at > now ==> live_in(
                keys,
                now,
            ).contains_key(n) && read_key(keys[i])->Ok_0.expires_at <= live_in(
                keys,
                now,
            )[n].expires_at,
    decreases keys.len(),
{
    if keys.len() > 0 {
        let rest = keys.drop_last();
        let last = keys.len() - 1;
        law_live_until_the_last_registration(rest, now, n);
        let before = live_in(rest, now);
        let all = live_in(keys, now);
        assert(keys[last] == keys.last());
        if all.contains_key(n) {
            if before.contains_key(n) && all[n] == before[n] {
                let i = choose|i: int|
                    0 <= i < rest.len() && (#[trigger] read_key(rest[i])) is Ok && read_key(
                        rest[i],
                    )->Ok_0 == before[n];
                assert(rest[i] == keys[i]);
                assert(read_key(keys[i]) is Ok);
            } else {
                assert(read_key(keys[last]) is Ok && read_key(keys[last])->Ok_0 == all[n]);
            }
        }
        assert forall|i: int|
            0 <= i < keys.len() && (#[trigger] read_key(keys[i])) is Ok && read_key(
                keys[i],
            )->Ok_0.node_id == n && read_key(keys[i])->Ok_0.expires_at > now implies all.contains_key(
            n,
        ) && read_key(keys[i])->Ok_0.expires_at <= all[n].expires_at by {
            if i < last {
                assert(rest[i] == keys[i]);
                assert(read_key(rest[i]) is Ok);
            }
        }
    }
}

/// The peers to connect to are the replicas that are there, but for the own
/// one, and among those that are allowed where there is a choice; each at the
/// address of its registration.
pub proof fn law_candidates_are_the_allowed_others(
    live: Map<Seq<char>, RegistrationModel>,
    own: Seq<char>,
    allowed: Option<Seq<Seq<char>>>,
    n: Seq<char>,
)
    ensures
        addresses_in(candidates(live, own, allowed)).contains_key(n) <==> live.contains_key(n) && n
            != own && (allowed is Some ==> allowed->0.contains(n)),
        addresses_in(candidates(live, own, allowed)).contains_key(n) ==> addresses_in(
            candidates(live, own, allowed),
        )[n] == live[n].addr,
        candidates(live, own, allowed).contains_key(n) ==> candidates(live, own, allowed)[n]
            == live[n],
{
}

/// A registration lasts for its span: it expires in the millisecond that ends
/// no later than the span does, and within one of it.
pub proof fn law_registration_lasts_its_span(now_nanos: int, ttl: Interval)
    ensures
        expiry(now_nanos, ttl) is Some ==> expiry(now_nanos, ttl)->0 * 1_000_000 <= now_nanos
            + ttl.nanos < (expiry(now_nanos, ttl)->0 + 1) * 1_000_000,
{
}

} // verus!
