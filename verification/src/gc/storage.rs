//! The durable records of garbage collections, and the keys they have.

use vstd::prelude::*;
use vstd::string::StringExecFns;

use crate::common::{ClockModel, Counter, NodeId};
use crate::gc::GcStorageConfig;
use crate::logical_clocks::version_vector::VersionVector;
use crate::numbers;
use crate::numbers::{decimal, parse_u64};
use crate::text as texts;
use crate::text::{strip_prefix, strip_suffix, trim_slashes};

verus! {

// ── Records ─────────────────────────────────────────────────────────────

/// The mathematical value of an [`EpochMetadata`].
pub struct EpochMetadataModel {
    pub epoch: u64,
    pub v_stable: ClockModel,
    pub obsolete_dots: Set<Seq<char>>,
}

/// What every replica needs to know of an epoch.
pub struct EpochMetadata {
    pub epoch: u64,
    /// What every live replica had seen when the epoch began.
    pub v_stable: VersionVector,
    /// The replicas that are gone for good.
    pub obsolete_dots: Vec<NodeId>,
}

impl View for EpochMetadata {
    type V = EpochMetadataModel;

    open spec fn view(&self) -> EpochMetadataModel {
        EpochMetadataModel {
            epoch: self.epoch,
            v_stable: self.v_stable@,
            obsolete_dots: texts::texts_of(self.obsolete_dots@).to_set(),
        }
    }
}

impl EpochMetadata {
    /// What is known before the first epoch: nothing.
    pub fn initial() -> (r: Self)
        ensures
            r@ == (EpochMetadataModel {
                epoch: 0,
                v_stable: Map::empty(),
                obsolete_dots: Set::empty(),
            }),
    {
        let r = EpochMetadata { epoch: 0, v_stable: VersionVector::new(), obsolete_dots: Vec::new() };
        assert(r@.obsolete_dots =~= Set::<Seq<char>>::empty());
        r
    }
}

/// The mathematical value of an [`EpochState`].
pub struct EpochStateModel<P> {
    pub epoch: u64,
    pub state_payload: P,
    pub initiator_clock: ClockModel,
}

/// The collected state that a new replica starts from.
pub struct EpochState<P> {
    pub epoch: u64,
    /// The full state of the initiator after the collection.
    pub state_payload: P,
    /// What the initiator had seen.
    pub initiator_clock: VersionVector,
}

impl<P: View> View for EpochState<P> {
    type V = EpochStateModel<P::V>;

    open spec fn view(&self) -> EpochStateModel<P::V> {
        EpochStateModel {
            epoch: self.epoch,
            state_payload: self.state_payload@,
            initiator_clock: self.initiator_clock@,
        }
    }
}

/// The collected state as it was read.
pub struct StoredState<P> {
    pub epoch: u64,
    /// The full state of the initiator, when its bytes are a message.
    pub state_payload: Option<P>,
    pub initiator_clock: VersionVector,
}

impl<P: View> View for StoredState<P> {
    type V = EpochStateModel<Option<P::V>>;

    open spec fn view(&self) -> EpochStateModel<Option<P::V>> {
        EpochStateModel {
            epoch: self.epoch,
            state_payload: match self.state_payload {
                Some(p) => Some(p@),
                None => None,
            },
            initiator_clock: self.initiator_clock@,
        }
    }
}

impl<P: View> StoredState<P> {
    /// What is read while no state was written: none, before the first epoch.
    pub fn absent() -> (r: Self)
        ensures
            r@ == (EpochStateModel {
                epoch: 0,
                state_payload: None::<P::V>,
                initiator_clock: Map::empty(),
            }),
    {
        StoredState { epoch: 0, state_payload: None, initiator_clock: VersionVector::new() }
    }
}

/// The mark of a replica that is about to begin an epoch.
pub struct GcIntentRecord {
    pub epoch: u64,
    pub initiator: NodeId,
}

// ── Keys ────────────────────────────────────────────────────────────────

/// The key of a record: the prefix without slashes at its end, a slash, the
/// namespace and the suffix.
pub open spec fn record_key(prefix: Seq<char>, namespace: Seq<char>, suffix: Seq<char>) -> Seq<
    char,
> {
    texts::without_slashes(prefix) + "/"@ + namespace + suffix
}

/// The key of the mark for an epoch.
pub open spec fn intent_key(prefix: Seq<char>, epoch: u64) -> Seq<char> {
    record_key(prefix, "gc_intent"@, "_"@ + numbers::decimal_text(epoch as nat) + ".json"@)
}

/// The key under which a departed replica leaves its last event.
pub open spec fn final_dot_key(prefix: Seq<char>, node: Seq<char>, counter: u64) -> Seq<char> {
    prefix + "/final_dots/"@ + node + "_"@ + numbers::decimal_text(counter as nat) + ".json"@
}

/// The replica and the number of its last event in such a key.
pub open spec fn final_dot_of(prefix: Seq<char>, key: Seq<char>) -> Option<(Seq<char>, u64)> {
    match texts::after_prefix(key, record_key(prefix, "final_dots"@, "/"@)) {
        Some(rest) => match texts::before_suffix(rest, ".json"@) {
            Some(raw) => {
                let parts = texts::split_all(raw, "_"@);
                if parts.len() == 2 {
                    match numbers::u64_value(parts[1]) {
                        Some(counter) => Some((parts[0], counter)),
                        None => None,
                    }
                } else {
                    None
                }
            },
            None => None,
        },
        None => None,
    }
}

/// The last events in a list of keys, the later ones winning.
pub open spec fn final_dots_in(prefix: Seq<char>, keys: Seq<Seq<char>>) -> ClockModel
    decreases keys.len(),
{
    if keys.len() == 0 {
        Map::empty()
    } else {
        let rest = final_dots_in(prefix, keys.drop_last());
        match final_dot_of(prefix, keys.last()) {
            Some((node, counter)) => rest.insert(node, counter),
            None => rest,
        }
    }
}

/// The records of one bucket and prefix.
pub struct S3GcStorage {
    pub config: GcStorageConfig,
}

impl S3GcStorage {
    pub fn new(config: GcStorageConfig) -> (r: Self)
        ensures
            r.config == config,
    {
        S3GcStorage { config }
    }

    pub fn bucket(&self) -> (r: &str)
        ensures
            r@ == self.config.bucket@,
    {
        self.config.bucket.as_str()
    }

    /// The key of the mark for an epoch.
    pub fn gc_intent_key(&self, epoch: u64) -> (r: String)
        ensures
            r@ == intent_key(self.config.prefix@, epoch),
    {
        let mut suffix = "_".to_owned();
        suffix.append(decimal(epoch).as_str());
        suffix.append(".json");
        self.key("gc_intent", suffix.as_str())
    }

    /// The key of the collected state.
    pub fn epoch_entry_key(&self) -> (r: String)
        ensures
            r@ == record_key(self.config.prefix@, "epoch_state"@, ".json"@),
    {
        self.key("epoch_state", ".json")
    }

    /// What the keys of last events begin with.
    pub fn final_dots_key_prefix(&self) -> (r: String)
        ensures
            r@ == record_key(self.config.prefix@, "final_dots"@, "/"@),
    {
        self.key("final_dots", "/")
    }

    /// The key of a record.
    pub fn key(&self, namespace: &str, suffix: &str) -> (r: String)
        ensures
            r@ == record_key(self.config.prefix@, namespace@, suffix@),
    {
        let mut r = trim_slashes(self.config.prefix.as_str());
        r.append("/");
        r.append(namespace);
        r.append(suffix);
        r
    }

    /// The replica and the number of its last event in a key.
    pub fn parse_final_dot_key(&self, key: &str) -> (r: Option<(NodeId, Counter)>)
        ensures
            match r {
                Some((node, counter)) => final_dot_of(self.config.prefix@, key@) == Some(
                    (node@, counter),
                ),
                None => final_dot_of(self.config.prefix@, key@) is None,
            },
    {
        let prefix = self.final_dots_key_prefix();
        let rest = match strip_prefix(key, prefix.as_str()) {
            Some(rest) => rest,
            None => {
                return None;
            },
        };
        let raw = match strip_suffix(rest.as_str(), ".json") {
            Some(raw) => raw,
            None => {
                return None;
            },
        };
        let parts = texts::split_everywhere(raw.as_str(), "_");
        if parts.len() != 2 {
            return None;
        }
        assert(texts::texts_of(parts@)[0] == parts@[0]@);
        assert(texts::texts_of(parts@)[1] == parts@[1]@);
        match parse_u64(parts[1].as_str()) {
            Some(counter) => Some((parts[0].clone(), counter)),
            None => None,
        }
    }

    /// The last events of departed replicas, by the keys that were listed.
    pub fn read_final_dots(&self, keys: &Vec<String>) -> (r: VersionVector)
        ensures
            r@ == final_dots_in(self.config.prefix@, texts::texts_of(keys@)),
    {
        let ghost all = texts::texts_of(keys@);
        let mut r = VersionVector::new();
        let mut i: usize = 0;
        while i < keys.len()
            invariant
                i <= keys.len(),
                all == texts::texts_of(keys@),
                r@ == final_dots_in(self.config.prefix@, all.take(i as int)),
            decreases keys.len() - i,
        {
            proof {
                assert(all.take(i + 1).drop_last() =~= all.take(i as int));
                assert(all.take(i + 1).last() == keys@[i as int]@);
            }
            if let Some((node, counter)) = self.parse_final_dot_key(keys[i].as_str()) {
                r.insert(node, counter);
            }
            i += 1;
        }
        assert(all.take(i as int) =~= all);
        r
    }
}

/// The key under which a departed replica leaves its last event reads back,
/// when the prefix does not end in a slash and the replica's identifier has
/// no underscore.
pub proof fn law_final_dot_key_reads_back(prefix: Seq<char>, node: Seq<char>, counter: u64)
    requires
        prefix.len() > 0 ==> prefix.last() != '/',
        !node.contains('_'),
    ensures
        final_dot_of(prefix, final_dot_key(prefix, node, counter)) == Some((node, counter)),
{
    reveal_strlit("_");
    reveal_strlit("/");
    reveal_strlit("final_dots");
    reveal_strlit("/final_dots/");
    reveal_strlit(".json");
    let digits = numbers::decimal_text(counter as nat);
    let raw = node + "_"@ + digits;
    let rest = raw + ".json"@;
    let start = record_key(prefix, "final_dots"@, "/"@);
    let key = final_dot_key(prefix, node, counter);
    assert(texts::without_slashes(prefix) == prefix);
    assert(start =~= prefix + "/final_dots/"@);
    assert(key =~= start + rest);
    assert(key.subrange(0, start.len() as int) =~= start);
    assert(key.skip(start.len() as int) =~= rest);
    assert(texts::after_prefix(key, start) == Some(rest));
    assert(rest.subrange(rest.len() - 5, rest.len() as int) =~= ".json"@);
    assert(rest.take(rest.len() - 5) =~= raw);
    assert(texts::before_suffix(rest, ".json"@) == Some(raw));
    numbers::law_decimal_reads_back(counter as nat);
    assert(!digits.contains('_')) by {
        if digits.contains('_') {
            let i = choose|i: int| 0 <= i < digits.len() && digits[i] == '_';
            assert(numbers::digit_of(digits[i]) is Some);
        }
    }
    assert("_"@ =~= seq!['_']);
    texts::lemma_split_two(node, '_', digits);
}

/// A replica has a last event just when some key tells of one, and it is one
/// that a key tells of.
pub proof fn law_final_dots_come_from_keys(prefix: Seq<char>, keys: Seq<Seq<char>>, n: Seq<char>)
    ensures
        final_dots_in(prefix, keys).contains_key(n) ==> exists|i: int|
            0 <= i < keys.len() && #[trigger] final_dot_of(prefix, keys[i]) == Some(
                (n, final_dots_in(prefix, keys)[n]),
            ),
        forall|i: int|
            0 <= i < keys.len() && (#[trigger] final_dot_of(prefix, keys[i])) is Some && (
            final_dot_of(prefix, keys[i])->0).0 == n ==> final_dots_in(prefix, keys).contains_key(n),
    decreases keys.len(),
{
    if keys.len() > 0 {
        let rest = keys.drop_last();
        let last = keys.len() - 1;
        law_final_dots_come_from_keys(prefix, rest, n);
        assert(keys[last] == keys.last());
        let all = final_dots_in(prefix, keys);
        let before = final_dots_in(prefix, rest);
        if all.contains_key(n) {
            if final_dot_of(prefix, keys[last]) is Some && (final_dot_of(
                prefix,
                keys[last],
            )->0).0 == n {
                assert(final_dot_of(prefix, keys[last]) == Some((n, all[n])));
            } else {
                let i = choose|i: int|
                    0 <= i < rest.len() && #[trigger] final_dot_of(prefix, rest[i]) == Some(
                        (n, before[n]),
                    );
                assert(rest[i] == keys[i]);
                assert(final_dot_of(prefix, keys[i]) == Some((n, all[n])));
            }
        }
        assert forall|i: int|
            0 <= i < keys.len() && (#[trigger] final_dot_of(prefix, keys[i])) is Some && (
            final_dot_of(prefix, keys[i])->0).0 == n implies all.contains_key(n) by {
            if i < last {
                assert(rest[i] == keys[i]);
                assert(final_dot_of(prefix, rest[i]) is Some);
            }
        }
    }
}

} // verus!
