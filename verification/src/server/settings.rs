//! Settings: what is given on the command line, and what follows from it.

use vstd::prelude::*;
use vstd::string::StringExecFns;

use crate::common::NodeId;
use crate::gc::{GcConfig, GcReplicaConfig, GcStorageConfig};
use crate::peers::discovery::DiscoveryConfig;
use crate::seqs;
use crate::server::ServerConfig;
use crate::text as texts;
use crate::text::{has_text, split_everywhere, trim};
use crate::time::Interval;

verus! {

/// The pieces without space around them, those that are then empty left out.
pub open spec fn named_in(pieces: Seq<Seq<char>>) -> Seq<Seq<char>>
    decreases pieces.len(),
{
    if pieces.len() == 0 {
        Seq::empty()
    } else {
        let rest = named_in(pieces.drop_last());
        let id = texts::trimmed(pieces.last());
        if id.len() == 0 {
            rest
        } else {
            rest.push(id)
        }
    }
}

/// The replicas in a list with commas, each once; none when no replica is on
/// it.
pub fn parse_connect_node_ids(raw: &str) -> (r: Option<Vec<NodeId>>)
    ensures
        match r {
            Some(ids) => {
                &&& ids@.len() > 0
                &&& texts::texts_of(ids@).no_duplicates()
                &&& texts::texts_of(ids@).to_set() == named_in(
                    texts::split_all(raw@, ","@),
                ).to_set()
            },
            None => named_in(texts::split_all(raw@, ","@)).len() == 0,
        },
{
    let pieces = split_everywhere(raw, ",");
    let ghost all = texts::texts_of(pieces@);
    let mut ids: Vec<NodeId> = Vec::new();
    let mut i: usize = 0;
    assert(texts::texts_of(ids@).to_set() =~= named_in(all.take(0)).to_set());
    while i < pieces.len()
        invariant
            i <= pieces.len(),
            all == texts::texts_of(pieces@),
            texts::texts_of(ids@).no_duplicates(),
            texts::texts_of(ids@).to_set() == named_in(all.take(i as int)).to_set(),
            ids@.len() == 0 ==> named_in(all.take(i as int)).len() == 0,
        decreases pieces.len() - i,
    {
        let ghost had = texts::texts_of(ids@);
        let ghost named = named_in(all.take(i as int));
        let id = trim(pieces[i].as_str());
        proof {
            assert(all.take(i + 1).drop_last() =~= all.take(i as int));
            assert(all.take(i + 1).last() == pieces@[i as int]@);
        }
        if id.unicode_len() > 0 {
            proof {
                seqs::lemma_push_to_set(named, id@);
            }
            if !has_text(ids.as_slice(), id.as_str()) {
                proof {
                    seqs::lemma_push_no_duplicates(had, id@);
                    seqs::lemma_push_to_set(had, id@);
                    assert(texts::texts_of(ids@.push(id)) =~= had.push(id@));
                }
                ids.push(id);
            } else {
                assert(had.to_set().contains(id@));
                assert(named.to_set().insert(id@) =~= named.to_set());
            }
        }
        i += 1;
    }
    assert(all.take(i as int) =~= all);
    if ids.len() == 0 {
        None
    } else {
        Some(ids)
    }
}

/// What all replicas of a process have in common.
pub struct ConfigCliInfo {
    pub endpoint: String,
    pub bucket: String,
    pub region: String,
    pub access_key: String,
    pub secret_key: String,
    pub discovery_interval_secs: u64,
    pub registration_ttl_secs: u64,
    pub gc_prefix: String,
    pub listen_host: String,
    pub gc_observe_interval_secs: u64,
    pub gc_initiate_interval_secs: u64,
}

/// What one replica is to be.
pub struct ReplicaInfo {
    /// Its name; that of its host when it has none.
    pub name: Option<String>,
    pub listen_port: String,
    pub client_port: Option<String>,
    pub gc_replica: bool,
    pub experiment: bool,
    /// The only replicas to connect to, if there is a choice.
    pub connect_node_ids: Option<Vec<NodeId>>,
}

/// The configurations of one replica.
pub struct Settings {
    pub discovery: DiscoveryConfig,
    pub server: ServerConfig,
    pub gc: GcConfig,
}

/// The configurations of one replica.
pub fn settings(info: ConfigCliInfo, replica: ReplicaInfo) -> (r: Settings)
    ensures
        r.discovery.endpoint == info.endpoint,
        r.discovery.bucket@ == info.bucket@,
        r.discovery.region == info.region,
        r.discovery.access_key == info.access_key,
        r.discovery.secret_key == info.secret_key,
        r.discovery.poll_interval.nanos == info.discovery_interval_secs * 1_000_000_000,
        r.discovery.registration_ttl.nanos == info.registration_ttl_secs * 1_000_000_000,
        r.discovery.gc_replica == replica.gc_replica,
        r.discovery.connect_node_ids == replica.connect_node_ids,
        r.server.listen_host@ == info.listen_host@,
        r.server.listen_port == replica.listen_port,
        r.server.node_name@ == match replica.name {
            Some(name) => name@,
            None => info.listen_host@,
        },
        r.server.gc_replica == replica.gc_replica,
        r.server.experiment == replica.experiment,
        r.server.client_port == replica.client_port,
        r.gc.gc_replica == replica.gc_replica,
        r.gc.observe_interval.nanos == info.gc_observe_interval_secs * 1_000_000_000,
        r.gc.storage_config.bucket@ == info.bucket@,
        r.gc.storage_config.prefix == info.gc_prefix,
        match r.gc.gc_replica_config {
            Some(c) => replica.gc_replica && c.initiate_interval.nanos
                == info.gc_initiate_interval_secs * 1_000_000_000,
            None => !replica.gc_replica,
        },
{
    let gc_replica = replica.gc_replica;
    let discovery = DiscoveryConfig {
        endpoint: info.endpoint,
        bucket: info.bucket.clone(),
        region: info.region,
        access_key: info.access_key,
        secret_key: info.secret_key,
        poll_interval: Interval::from_secs(info.discovery_interval_secs),
        registration_ttl: Interval::from_secs(info.registration_ttl_secs),
        gc_replica,
        connect_node_ids: replica.connect_node_ids,
    };
    let gc = GcConfig {
        gc_replica,
        observe_interval: Interval::from_secs(info.gc_observe_interval_secs),
        storage_config: GcStorageConfig { bucket: info.bucket, prefix: info.gc_prefix },
        gc_replica_config: if gc_replica {
            Some(GcReplicaConfig::new(Interval::from_secs(info.gc_initiate_interval_secs)))
        } else {
            None
        },
    };
    let node_name = match replica.name {
        Some(name) => name,
        None => info.listen_host.clone(),
    };
    let server = ServerConfig {
        listen_host: info.listen_host,
        listen_port: replica.listen_port,
        node_name,
        gc_replica,
        experiment: replica.experiment,
        client_port: replica.client_port,
    };
    Settings { discovery, server, gc }
}

} // verus!
