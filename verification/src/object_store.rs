//! The objects through which replicas agree on collections.
//!
//! - `epoch_entry/N` holds the stable timestamp of epoch N,
//! - `bottom_state/N` the collected state of epoch N,
//! - `gc_intent/N` the mark of the replica that begins epoch N,
//! - `member/node` says that a replica is a member,
//! - `clock/node` holds the clock that a replica has published.

use vstd::prelude::*;
use vstd::string::StringExecFns;

use crate::common::{same_id, ClockModel, NodeId};
use crate::logical_clocks::version_vector::VersionVector;
use crate::numbers;
use crate::numbers::{decimal, parse_u64};
use crate::text as texts;
use crate::text::{holds_text, strip_prefix, strip_prefixes};

verus! {

/// The clock that a replica has published.
pub type ClockValue = VersionVector;

// ── Records ─────────────────────────────────────────────────────────────

/// The mathematical value of an [`EpochEntry`].
pub struct EpochEntryModel {
    pub epoch: u64,
    pub stable_timestamp: ClockModel,
}

/// The stable timestamp of an epoch.
pub struct EpochEntry {
    pub epoch: u64,
    pub stable_timestamp: VersionVector,
}

impl View for EpochEntry {
    type V = EpochEntryModel;

    open spec fn view(&self) -> EpochEntryModel {
        EpochEntryModel { epoch: self.epoch, stable_timestamp: self.stable_timestamp@ }
    }
}

/// The mathematical value of a [`BottomState`].
pub struct BottomStateModel {
    pub state_bytes: Seq<u8>,
    pub initiator_vv: ClockModel,
}

/// The collected state of an epoch, with the clock of its initiator.
pub struct BottomState {
    /// The state as bytes. It is left empty: what a new replica holds, it
    /// learns from its peers.
    pub state_bytes: Vec<u8>,
    /// What the initiator had seen.
    pub initiator_vv: VersionVector,
}

impl View for BottomState {
    type V = BottomStateModel;

    open spec fn view(&self) -> BottomStateModel {
        BottomStateModel { state_bytes: self.state_bytes@, initiator_vv: self.initiator_vv@ }
    }
}

/// The mathematical value of a [`GcIntent`].
pub struct IntentModel {
    pub epoch: u64,
    pub initiator_id: Seq<char>,
}

/// The mark of the replica that begins an epoch.
pub struct GcIntent {
    pub epoch: u64,
    pub initiator_id: String,
}

impl View for GcIntent {
    type V = IntentModel;

    open spec fn view(&self) -> IntentModel {
        IntentModel { epoch: self.epoch, initiator_id: self.initiator_id@ }
    }
}

/// A stored value, which can be told from another one.
pub trait Stored: View + Sized {
    fn same(&self, other: &Self) -> (r: bool)
        ensures
            r == (self@ == other@),
    ;
}

impl Stored for VersionVector {
    fn same(&self, other: &Self) -> (r: bool) {
        self.same(other)
    }
}

impl Stored for EpochEntry {
    fn same(&self, other: &Self) -> (r: bool) {
        self.epoch == other.epoch && self.stable_timestamp.same(&other.stable_timestamp)
    }
}

impl Stored for GcIntent {
    fn same(&self, other: &Self) -> (r: bool) {
        self.epoch == other.epoch && same_id(&self.initiator_id, &other.initiator_id)
    }
}

// ── Keys ────────────────────────────────────────────────────────────────

/// A name with a number behind it.
pub open spec fn numbered(name: Seq<char>, n: u64) -> Seq<char> {
    name + numbers::decimal_text(n as nat)
}

fn numbered_key(name: &str, n: u64) -> (r: String)
    ensures
        r@ == numbered(name@, n),
{
    let mut r = name.to_owned();
    r.append(decimal(n).as_str());
    r
}

/// The key of an epoch's stable timestamp.
pub fn epoch_entry_key(epoch: u64) -> (r: String)
    ensures
        r@ == numbered("epoch_entry/"@, epoch),
{
    numbered_key("epoch_entry/", epoch)
}

/// The key of an epoch's collected state.
pub fn bottom_state_key(epoch: u64) -> (r: String)
    ensures
        r@ == numbered("bottom_state/"@, epoch),
{
    numbered_key("bottom_state/", epoch)
}

/// The key of the mark for an epoch.
pub fn gc_intent_key(epoch: u64) -> (r: String)
    ensures
        r@ == numbered("gc_intent/"@, epoch),
{
    numbered_key("gc_intent/", epoch)
}

/// The key that says that a replica is a member.
pub fn member_key(node: &NodeId) -> (r: String)
    ensures
        r@ == "member/"@ + node@,
{
    let mut r = "member/".to_owned();
    r.append(node.as_str());
    r
}

/// The key of the clock that a replica has published.
pub fn clock_key(node: &NodeId) -> (r: String)
    ensures
        r@ == "clock/"@ + node@,
{
    let mut r = "clock/".to_owned();
    r.append(node.as_str());
    r
}

/// The number behind the name in a key, if there is one.
pub open spec fn number_in(name: Seq<char>, key: Seq<char>) -> Option<u64> {
    match texts::after_prefix(key, name) {
        Some(rest) => numbers::u64_value(rest),
        None => None,
    }
}

/// The greatest number behind the name in a list of keys; zero if none has
/// one.
pub open spec fn latest_in(name: Seq<char>, keys: Seq<Seq<char>>) -> u64
    decreases keys.len(),
{
    if keys.len() == 0 {
        0
    } else {
        let rest = latest_in(name, keys.drop_last());
        match number_in(name, keys.last()) {
            Some(n) => if n > rest {
                n
            } else {
                rest
            },
            None => rest,
        }
    }
}

/// The greatest number behind the name in a list of keys.
pub fn latest_number(name: &str, keys: &Vec<String>) -> (r: u64)
    ensures
        r == latest_in(name@, texts::texts_of(keys@)),
{
    let ghost all = texts::texts_of(keys@);
    let mut r: u64 = 0;
    let mut i: usize = 0;
    while i < keys.len()
        invariant
            i <= keys.len(),
            all == texts::texts_of(keys@),
            r == latest_in(name@, all.take(i as int)),
        decreases keys.len() - i,
    {
        assert(all.take(i + 1).drop_last() =~= all.take(i as int));
        assert(all.take(i + 1).last() == keys@[i as int]@);
        match strip_prefix(keys[i].as_str(), name) {
            Some(rest) => match parse_u64(rest.as_str()) {
                Some(n) => {
                    if n > r {
                        r = n;
                    }
                },
                None => {},
            },
            None => {},
        }
        i += 1;
    }
    assert(all.take(i as int) =~= all);
    r
}

// ── The store ───────────────────────────────────────────────────────────

/// Does a failure say that there is no such object?
pub open spec fn says_absent(message: Seq<char>) -> bool {
    texts::first_from(message, "NoSuchKey"@, 0) is Some || texts::first_from(
        message,
        "Not Found"@,
        0,
    ) is Some
}

/// The rules of the store, apart from the transport.
pub struct ObjectStore {
    pub bucket: String,
}

impl ObjectStore {
    pub fn new(bucket: String) -> (r: Self)
        ensures
            r.bucket == bucket,
    {
        ObjectStore { bucket }
    }

    /// What reading an object gives, by what the transport answered: its
    /// value, nothing when there is no such object, or the failure.
    pub fn read<T>(&self, reply: Result<T, String>) -> (r: Result<Option<T>, String>)
        ensures
            match reply {
                Ok(value) => r == Ok::<Option<T>, String>(Some(value)),
                Err(message) => if says_absent(message@) {
                    r == Ok::<Option<T>, String>(None)
                } else {
                    r == Err::<Option<T>, String>(message)
                },
            },
    {
        match reply {
            Ok(value) => Ok(Some(value)),
            Err(message) => if holds_text(message.as_str(), "NoSuchKey") || holds_text(
                message.as_str(),
                "Not Found",
            ) {
                Ok(None)
            } else {
                Err(message)
            },
        }
    }

    /// What reading an object gives: the default value when there is no such
    /// object.
    pub fn read_or_default<T: Default>(&self, reply: Result<T, String>) -> (r: Result<T, String>)
        ensures
            match reply {
                Ok(value) => r == Ok::<T, String>(value),
                Err(message) => if says_absent(message@) {
                    r is Ok && call_ensures(T::default, (), r->Ok_0)
                } else {
                    r == Err::<T, String>(message)
                },
            },
    {
        match self.read(reply) {
            Ok(Some(value)) => Ok(value),
            Ok(None) => Ok(T::default()),
            Err(message) => Err(message),
        }
    }

    /// May the new value be written, when `current` is there and `expected`
    /// was expected?
    pub fn cas<T: Stored>(&self, current: &Option<T>, expected: &Option<T>) -> (r: bool)
        ensures
            r == match (*current, *expected) {
                (None, None) => true,
                (Some(c), Some(e)) => c@ == e@,
                _ => false,
            },
    {
        match (current, expected) {
            (None, None) => true,
            (Some(c), Some(e)) => c.same(e),
            _ => false,
        }
    }

    /// The keys with a prefix among those listed, without the prefix.
    pub fn list_keys(&self, keys: &Vec<String>, prefix: &str) -> (r: Vec<String>)
        ensures
            texts::texts_of(r@) == texts::suffixes(texts::texts_of(keys@), prefix@),
    {
        strip_prefixes(keys, prefix)
    }

    /// What follows the prefix in the keys with it.
    pub fn list_suffixes(&self, keys: &Vec<String>, prefix: &str) -> (r: Vec<String>)
        ensures
            texts::texts_of(r@) == texts::suffixes(texts::texts_of(keys@), prefix@),
    {
        self.list_keys(keys, prefix)
    }
}

// ── Laws ────────────────────────────────────────────────────────────────

/// A key with a number behind the name is read back.
pub proof fn law_numbered_key_reads_back(name: Seq<char>, n: u64)
    ensures
        number_in(name, numbered(name, n)) == Some(n),
{
    let key = numbered(name, n);
    assert(key.take(name.len() as int) =~= name);
    assert(key.skip(name.len() as int) =~= numbers::decimal_text(n as nat));
    numbers::law_decimal_reads_back(n as nat);
}

/// The latest number is that of some key, or zero, and no key has a greater
/// one.
pub proof fn law_latest_is_greatest(name: Seq<char>, keys: Seq<Seq<char>>)
    ensures
        forall|i: int|
            0 <= i < keys.len() && (#[trigger] number_in(name, keys[i]) is Some) ==> number_in(
                name,
                keys[i],
            )->0 <= latest_in(name, keys),
        latest_in(name, keys) == 0 || exists|i: int|
            0 <= i < keys.len() && #[trigger] number_in(name, keys[i]) == Some(
                latest_in(name, keys),
            ),
    decreases keys.len(),
{
    if keys.len() > 0 {
        let rest = keys.drop_last();
        law_latest_is_greatest(name, rest);
        assert forall|i: int|
            0 <= i < keys.len() && (#[trigger] number_in(name, keys[i]) is Some) implies number_in(
            name,
            keys[i],
        )->0 <= latest_in(name, keys) by {
            if i < rest.len() {
                assert(rest[i] == keys[i]);
                assert(number_in(name, rest[i]) is Some);
            }
        }
        if latest_in(name, keys) != 0 {
            if latest_in(name, keys) == latest_in(name, rest) {
                let i = choose|i: int|
                    0 <= i < rest.len() && #[trigger] number_in(name, rest[i]) == Some(
                        latest_in(name, rest),
                    );
                assert(number_in(name, keys[i]) == Some(latest_in(name, keys)));
            } else {
                assert(number_in(name, keys[keys.len() - 1]) == Some(latest_in(name, keys)));
            }
        }
    }
}

} // verus!
