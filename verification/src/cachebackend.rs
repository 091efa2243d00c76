//! The index cache behind a storage session: where an entry is kept, and which
//! entries a prefix puts out.
//!
//! An entry with a codec lives as bytes in the hot tier, a store on memory and
//! disk that the caller runs; one without lives in the cold tier, in memory. The
//! cold tier holds a token for each entry; the caller keeps the entries.
use dashmap::{DashMap, DashSet};
use vstd::prelude::*;
use crate::prom;
use crate::shared;
use crate::text;

verus! {

// ------------------------------------------------------------------ keys
/// The key of an entry: the prefix that it can be put out by, its own name, and
/// the type of what it holds.
#[derive(Debug, PartialEq, Eq)]
pub struct EntryKey {
    prefix: String,
    key: String,
    value_type: String,
}

/// A key by its parts: prefix, name and type.
pub type KeyParts = (Seq<char>, Seq<char>, Seq<char>);

impl View for EntryKey {
    type V = KeyParts;

    closed spec fn view(&self) -> KeyParts {
        (self.prefix@, self.key@, self.value_type@)
    }
}

impl EntryKey {
    /// The key with these parts.
    pub fn new(prefix: &str, key: &str, value_type: &str) -> (r: EntryKey)
        ensures
            r@ == (prefix@, key@, value_type@),
    {
        EntryKey {
            prefix: prefix.to_string(),
            key: key.to_string(),
            value_type: value_type.to_string(),
        }
    }

    /// The prefix.
    pub fn prefix(&self) -> (r: &str)
        ensures
            r@ == self@.0,
    {
        self.prefix.as_str()
    }
}

/// A key as one text: prefix, type and name, with the ASCII unit separator
/// between them.
pub open spec fn encoding(k: KeyParts) -> Seq<char> {
    k.0 + "\u{1f}"@ + k.2 + "\u{1f}"@ + k.1
}

/// A key as one text.
#[derive(Debug, Clone, PartialEq, Eq, Hash)]
pub struct EncodedKey(String);

impl View for EncodedKey {
    type V = Seq<char>;

    closed spec fn view(&self) -> Seq<char> {
        self.0@
    }
}

impl EncodedKey {
    /// The text.
    pub fn as_str(&self) -> (r: &str)
        ensures
            r@ == self@,
    {
        self.0.as_str()
    }
}

impl From<&EntryKey> for EncodedKey {
    fn from(key: &EntryKey) -> (r: EncodedKey)
        ensures
            r@ == encoding(key@),
    {
        EncodedKey(
            text::cat5(
                key.prefix.as_str(),
                "\u{1f}",
                key.value_type.as_str(),
                "\u{1f}",
                key.key.as_str(),
            ),
        )
    }
}

impl vstd::std_specs::convert::FromSpecImpl<&EntryKey> for EncodedKey {
    open spec fn obeys_from_spec() -> bool {
        false
    }

    closed spec fn from_spec(key: &EntryKey) -> EncodedKey {
        arbitrary()
    }
}

/// What tells a key apart from every other: its text, and how long its prefix
/// and its type are.
pub open spec fn identity(k: KeyParts) -> Seq<char> {
    encoding(k) + "\u{1f}"@ + text::dec(k.0.len()) + "\u{1f}"@ + text::dec(k.2.len())
}

fn identity_of(key: &EntryKey) -> (r: String)
    ensures
        r@ == identity(key@),
{
    let encoded = EncodedKey::from(key);
    let prefix = text::chars_of(key.prefix.as_str());
    let value_type = text::chars_of(key.value_type.as_str());
    text::cat5(
        encoded.as_str(),
        "\u{1f}",
        text::dec_text(prefix.len() as u64).as_str(),
        "\u{1f}",
        text::dec_text(value_type.len() as u64).as_str(),
    )
}

// -------------------------------------------------------------- counters
/// How often each operation was called.
#[derive(Debug, Clone, Copy, PartialEq, Eq, Structural)]
pub struct CacheBackendCounters {
    /// Lookups.
    pub get: u64,
    /// Stores.
    pub insert: u64,
    /// Lookups that load on a miss.
    pub get_or_insert: u64,
    /// Prefixes put out.
    pub invalidate_prefix: u64,
    /// Times everything was put out.
    pub clear: u64,
}

/// The counts at one moment.
#[derive(Debug, Clone, Copy, PartialEq, Eq, Structural)]
pub struct CacheBackendCountersSnapshot {
    /// Lookups so far.
    pub get: u64,
    /// Stores so far.
    pub insert: u64,
    /// Lookups that load on a miss so far.
    pub get_or_insert: u64,
    /// Prefixes put out so far.
    pub invalidate_prefix: u64,
    /// Times everything was put out so far.
    pub clear: u64,
}

/// Nothing counted yet.
pub open spec fn no_counts() -> CacheBackendCounters {
    CacheBackendCounters { get: 0, insert: 0, get_or_insert: 0, invalidate_prefix: 0, clear: 0 }
}

impl Default for CacheBackendCounters {
    fn default() -> (r: CacheBackendCounters)
        ensures
            r == no_counts(),
    {
        CacheBackendCounters {
            get: 0,
            insert: 0,
            get_or_insert: 0,
            invalidate_prefix: 0,
            clear: 0,
        }
    }
}

impl CacheBackendCounters {
    /// The counts of the moment.
    pub fn snapshot(&self) -> (r: CacheBackendCountersSnapshot)
        ensures
            r == snapshot_of(*self),
    {
        CacheBackendCountersSnapshot {
            get: self.get,
            insert: self.insert,
            get_or_insert: self.get_or_insert,
            invalidate_prefix: self.invalidate_prefix,
            clear: self.clear,
        }
    }
}

/// An operation of a backend.
pub enum Call {
    /// A lookup.
    Get,
    /// A store.
    Insert,
    /// A lookup that loads on a miss.
    GetOrInsert,
    /// A prefix put out.
    InvalidatePrefix,
    /// Everything put out.
    Clear,
}

/// The counts after one more call.
pub open spec fn counted(c: CacheBackendCounters, call: Call) -> CacheBackendCounters {
    match call {
        Call::Get => CacheBackendCounters { get: prom::one_more(c.get), ..c },
        Call::Insert => CacheBackendCounters { insert: prom::one_more(c.insert), ..c },
        Call::GetOrInsert => CacheBackendCounters {
            get_or_insert: prom::one_more(c.get_or_insert),
            ..c
        },
        Call::InvalidatePrefix => CacheBackendCounters {
            invalidate_prefix: prom::one_more(c.invalidate_prefix),
            ..c
        },
        Call::Clear => CacheBackendCounters { clear: prom::one_more(c.clear), ..c },
    }
}

/// The counts after some calls.
pub open spec fn after_calls(c: CacheBackendCounters, calls: Seq<Call>) -> CacheBackendCounters
    decreases calls.len(),
{
    if calls.len() == 0 {
        c
    } else {
        counted(after_calls(c, calls.drop_last()), calls.last())
    }
}

/// How many of some calls are of one operation.
pub open spec fn times(calls: Seq<Call>, call: Call) -> nat
    decreases calls.len(),
{
    if calls.len() == 0 {
        0
    } else {
        times(calls.drop_last(), call) + if calls.last() == call {
            1nat
        } else {
            0
        }
    }
}

/// The counts at one moment, by what was counted.
pub open spec fn snapshot_of(c: CacheBackendCounters) -> CacheBackendCountersSnapshot {
    CacheBackendCountersSnapshot {
        get: c.get,
        insert: c.insert,
        get_or_insert: c.get_or_insert,
        invalidate_prefix: c.invalidate_prefix,
        clear: c.clear,
    }
}

/// A backend that keeps nothing and counts every call. Each lookup is a miss.
#[derive(Debug)]
pub struct NoOpCacheBackend {
    counters: CacheBackendCounters,
}

impl View for NoOpCacheBackend {
    type V = CacheBackendCounters;

    closed spec fn view(&self) -> CacheBackendCounters {
        self.counters
    }
}

impl NoOpCacheBackend {
    /// A backend that counts on from here.
    pub fn new(counters: CacheBackendCounters) -> (r: NoOpCacheBackend)
        ensures
            r@ == counters,
    {
        NoOpCacheBackend { counters }
    }

    /// The counts.
    pub fn counters(&self) -> (r: CacheBackendCounters)
        ensures
            r == self@,
    {
        self.counters
    }

    /// Looks an entry up: there is none.
    pub fn get(&mut self) -> (r: Option<u64>)
        ensures
            r is None,
            final(self)@ == counted(old(self)@, Call::Get),
    {
        self.counters.get = self.counters.get.wrapping_add(1);
        None
    }

    /// Stores an entry: it is dropped.
    pub fn insert(&mut self)
        ensures
            final(self)@ == counted(old(self)@, Call::Insert),
    {
        self.counters.insert = self.counters.insert.wrapping_add(1);
    }

    /// Looks an entry up to load it on a miss: it is loaded, never cached.
    pub fn get_or_insert(&mut self) -> (r: Option<u64>)
        ensures
            r is None,
            final(self)@ == counted(old(self)@, Call::GetOrInsert),
    {
        self.counters.get_or_insert = self.counters.get_or_insert.wrapping_add(1);
        None
    }

    /// Puts a prefix out.
    pub fn invalidate_prefix(&mut self)
        ensures
            final(self)@ == counted(old(self)@, Call::InvalidatePrefix),
    {
        self.counters.invalidate_prefix = self.counters.invalidate_prefix.wrapping_add(1);
    }

    /// Puts everything out.
    pub fn clear(&mut self)
        ensures
            final(self)@ == counted(old(self)@, Call::Clear),
    {
        self.counters.clear = self.counters.clear.wrapping_add(1);
    }

    /// Entries kept.
    pub fn num_entries(&self) -> (r: usize)
        ensures
            r == 0,
    {
        0
    }

    /// Bytes kept.
    pub fn size_bytes(&self) -> (r: usize)
        ensures
            r == 0,
    {
        0
    }
}

// ----------------------------------------------------------------- tiers
/// Sizes of the hot tier.
#[derive(Debug)]
pub struct FoyerCacheBackendConfig {
    /// Memory, in bytes.
    pub memory_bytes: usize,
    /// Directory of the disk file.
    pub nvme_path: String,
    /// Disk, in bytes.
    pub nvme_bytes: usize,
}

/// What to do to look an entry up.
#[derive(Debug)]
pub enum Lookup {
    /// Read the hot tier under this key.
    Hot(EncodedKey),
    /// The cold tier has answered.
    Cold(Option<u64>),
}

/// What the hot tier answered.
#[derive(Debug, Clone, Copy, PartialEq, Eq, Structural)]
pub enum HotRead {
    /// Bytes that the codec could read.
    Decoded,
    /// Bytes that the codec could not read.
    Undecodable,
    /// Nothing under the key.
    Absent,
    /// The read failed.
    Failed,
}

/// What an entry to store has become.
#[derive(Debug, Clone, Copy, PartialEq, Eq, Structural)]
pub enum Payload {
    /// Bytes, written by its codec.
    Serialised,
    /// Nothing: its codec failed.
    Unserialisable,
    /// A token: it has no codec.
    Token(u64),
}

/// The two-tier backend: the cold tier, and the keys of both tiers by their
/// prefix.
pub struct FoyerCacheBackend {
    cold: DashMap<String, u64>,
    by_prefix: DashMap<String, DashSet<(String, String, String)>>,
    counters: CacheBackendCounters,
}

/// A backend by its contents: the tokens of the cold tier by the identity of
/// their key, the keys under each prefix, and the counts.
#[verifier::ext_equal]
pub struct BackendView {
    pub cold: Map<Seq<char>, u64>,
    pub buckets: Map<Seq<char>, Set<KeyParts>>,
    pub counters: CacheBackendCounters,
}

impl View for FoyerCacheBackend {
    type V = BackendView;

    closed spec fn view(&self) -> BackendView {
        BackendView {
            cold: shared::number_map(self.cold),
            buckets: shared::set_map(self.by_prefix).map_values(
                |s: DashSet<(String, String, String)>| shared::key_set(s),
            ),
            counters: self.counters,
        }
    }
}

/// Whether a key is known under its prefix.
pub open spec fn registered(b: BackendView, k: KeyParts) -> bool {
    b.buckets.dom().contains(k.0) && b.buckets[k.0].contains(k)
}

/// What every operation keeps: the keys of a bucket have its prefix.
pub open spec fn tidy(b: BackendView) -> bool {
    forall|p: Seq<char>, k: KeyParts| #[trigger]
        b.buckets.dom().contains(p) && #[trigger] b.buckets[p].contains(k) ==> k.0 == p
}

/// What every operation keeps: each entry of the cold tier is known under its
/// prefix.
pub open spec fn covered(b: BackendView) -> bool {
    forall|k: KeyParts| #[trigger] b.cold.dom().contains(identity(k)) ==> registered(b, k)
}

/// The buckets once a key is known.
pub open spec fn with_key(buckets: Map<Seq<char>, Set<KeyParts>>, k: KeyParts) -> Map<
    Seq<char>,
    Set<KeyParts>,
> {
    buckets.insert(
        k.0,
        if buckets.dom().contains(k.0) {
            buckets[k.0].insert(k)
        } else {
            Set::empty().insert(k)
        },
    )
}

/// The backend once an entry was stored.
pub open spec fn stored(b: BackendView, k: KeyParts, payload: Payload) -> BackendView {
    let counted = BackendView {
        counters: CacheBackendCounters {
            insert: prom::one_more(b.counters.insert),
            ..b.counters
        },
        ..b
    };
    match payload {
        Payload::Unserialisable => counted,
        Payload::Serialised => BackendView { buckets: with_key(b.buckets, k), ..counted },
        Payload::Token(t) => BackendView {
            cold: b.cold.insert(identity(k), t),
            buckets: with_key(b.buckets, k),
            ..counted
        },
    }
}

/// The identities of the keys in some buckets.
pub open spec fn identities_under(
    buckets: Map<Seq<char>, Set<KeyParts>>,
    prefixes: Set<Seq<char>>,
) -> Set<Seq<char>> {
    Set::new(
        |id: Seq<char>|
            exists|p: Seq<char>, k: KeyParts|
                #![trigger prefixes.contains(p), buckets[p].contains(k)]
                prefixes.contains(p) && buckets.dom().contains(p) && buckets[p].contains(k)
                    && identity(k) == id,
    )
}

/// The prefixes in use that begin with a text.
pub open spec fn prefixes_under(
    buckets: Map<Seq<char>, Set<KeyParts>>,
    prefix: Seq<char>,
) -> Set<Seq<char>> {
    Set::new(|p: Seq<char>| buckets.dom().contains(p) && prefix.is_prefix_of(p))
}

/// Whether a text is that of a known key under a prefix.
pub open spec fn is_text_under(b: BackendView, prefix: Seq<char>, t: Seq<char>) -> bool {
    exists|k: KeyParts| #[trigger]
        registered(b, k) && prefix.is_prefix_of(k.0) && t == encoding(k)
}

/// Whether a text is among some keys.
pub open spec fn listed(keys: Seq<EncodedKey>, t: Seq<char>) -> bool {
    exists|i: int| 0 <= i < keys.len() && (#[trigger] keys[i])@ == t
}

/// The backend without some buckets and their entries.
pub open spec fn without(b: BackendView, prefixes: Set<Seq<char>>) -> BackendView {
    BackendView {
        cold: b.cold.remove_keys(identities_under(b.buckets, prefixes)),
        buckets: b.buckets.remove_keys(prefixes),
        ..b
    }
}

/// Forgets the entries of one bucket: takes their tokens out of the cold tier
/// and notes their keys in the hot tier.
fn forget_bucket(
    cold: &mut DashMap<String, u64>,
    bucket: &Vec<(String, String, String)>,
    hot: &mut Vec<EncodedKey>,
)
    ensures
        forall|id: Seq<char>| #[trigger]
            shared::number_map(*final(cold)).dom().contains(id) <==> (shared::number_map(
                *old(cold),
            ).dom().contains(id) && !exists|i: int|
                0 <= i < bucket@.len() && identity(shared::parts(#[trigger] bucket@[i])) == id),
        forall|id: Seq<char>|
            shared::number_map(*final(cold)).dom().contains(id) ==> #[trigger] shared::number_map(
                *final(cold),
            )[id] == shared::number_map(*old(cold))[id],
        final(hot)@.len() == old(hot)@.len() + bucket@.len(),
        forall|i: int| 0 <= i < old(hot)@.len() ==> #[trigger] final(hot)@[i] == old(hot)@[i],
        forall|i: int|
            0 <= i < bucket@.len() ==> (#[trigger] final(hot)@[old(hot)@.len() + i])@ == encoding(
                shared::parts(bucket@[i]),
            ),
{
    let ghost before = shared::number_map(*cold);
    let ghost noted = hot@.len();
    let mut e: usize = 0;
    while e < bucket.len()
        invariant
            e <= bucket@.len(),
            before == shared::number_map(*old(cold)),
            noted == old(hot)@.len(),
            forall|id: Seq<char>| #[trigger]
                shared::number_map(*cold).dom().contains(id) <==> (before.dom().contains(id)
                    && !exists|i: int| 0 <= i < e && identity(shared::parts(#[trigger] bucket@[i])) == id),
            forall|id: Seq<char>|
                shared::number_map(*cold).dom().contains(id) ==> #[trigger] shared::number_map(
                    *cold,
                )[id] == before[id],
            hot@.len() == noted + e,
            forall|i: int| 0 <= i < noted ==> #[trigger] hot@[i] == old(hot)@[i],
            forall|i: int| 0 <= i < e ==> (#[trigger] hot@[noted + i])@ == encoding(shared::parts(bucket@[i])),
        decreases bucket@.len() - e,
    {
        let key = EntryKey::new(
            bucket[e].0.as_str(),
            bucket[e].1.as_str(),
            bucket[e].2.as_str(),
        );
        let id = identity_of(&key);
        let ghost mid = shared::number_map(*cold);
        let _ = shared::map_remove(cold, id.as_str());
        hot.push(EncodedKey::from(&key));
        proof {
            assert forall|x: Seq<char>| #[trigger]
                shared::number_map(*cold).dom().contains(x) <==> (before.dom().contains(x)
                    && !exists|i: int| 0 <= i < e + 1 && identity(shared::parts(#[trigger] bucket@[i])) == x) by {
                if x == id@ {
                    assert(identity(shared::parts(bucket@[e as int])) == x);
                } else {
                    assert(shared::number_map(*cold).dom().contains(x) == mid.dom().contains(x));
                    if exists|i: int| 0 <= i < e + 1 && identity(shared::parts(#[trigger] bucket@[i])) == x {
                        let i = choose|i: int|
                            0 <= i < e + 1 && identity(shared::parts(#[trigger] bucket@[i])) == x;
                        assert(i < e);
                    }
                }
            }
            assert forall|x: Seq<char>|
                shared::number_map(*cold).dom().contains(
                    x,
                ) implies #[trigger] shared::number_map(*cold)[x] == before[x] by {
                assert(mid.dom().contains(x));
                assert(mid[x] == before[x]);
            }
        }
        e = e + 1;
    }
}

impl FoyerCacheBackend {
    /// What every operation keeps.
    pub open spec fn wf(&self) -> bool {
        tidy(self@) && covered(self@) && self@.cold.dom().finite()
    }

    /// A backend without entries that counts on from here.
    pub fn new(counters: CacheBackendCounters) -> (r: FoyerCacheBackend)
        ensures
            r.wf(),
            r@ == (BackendView { cold: Map::empty(), buckets: Map::empty(), counters }),
    {
        let r = FoyerCacheBackend {
            cold: shared::new_number_map(),
            by_prefix: shared::new_set_map(),
            counters,
        };
        assert(r@.cold =~= Map::empty());
        assert(r@.buckets =~= Map::empty());
        r
    }

    /// The counts.
    pub fn counters(&self) -> (r: CacheBackendCounters)
        ensures
            r == self@.counters,
    {
        self.counters
    }

    /// Looks an entry up, by its codec or without one. What the hot tier says
    /// goes through [`hot_hit`].
    pub fn get(&mut self, key: &EntryKey, has_codec: bool) -> (r: Lookup)
        requires
            old(self).wf(),
        ensures
            final(self).wf(),
            final(self)@ == (BackendView {
                counters: CacheBackendCounters {
                    get: prom::one_more(old(self)@.counters.get),
                    ..old(self)@.counters
                },
                ..old(self)@
            }),
            match r {
                Lookup::Hot(k) => has_codec && k@ == encoding(key@),
                Lookup::Cold(t) => !has_codec && t == shared::lookup(
                    old(self)@.cold,
                    identity(key@),
                ),
            },
    {
        self.counters.get = self.counters.get.wrapping_add(1);
        if has_codec {
            Lookup::Hot(EncodedKey::from(key))
        } else {
            Lookup::Cold(shared::map_get(&self.cold, identity_of(key).as_str()))
        }
    }

    /// Registers a key under its prefix.
    fn register(&mut self, key: &EntryKey)
        requires
            tidy(old(self)@),
        ensures
            tidy(final(self)@),
            registered(final(self)@, key@),
            final(self)@ == (BackendView {
                buckets: with_key(old(self)@.buckets, key@),
                ..old(self)@
            }),
    {
        let ghost before = self@;
        let removed = shared::map_remove(&mut self.by_prefix, key.prefix());
        let mut bucket: DashSet<(String, String, String)> = match removed {
            Some(bucket) => bucket,
            None => shared::new_key_set(),
        };
        let _ = shared::key_set_insert(
            &mut bucket,
            (key.prefix.clone(), key.key.clone(), key.value_type.clone()),
        );
        let ghost full = shared::key_set(bucket);
        let _ = shared::map_insert(&mut self.by_prefix, key.prefix(), bucket);
        proof {
            assert(self@.buckets =~= before.buckets.insert(key@.0, full));
            assert(with_key(before.buckets, key@) =~= self@.buckets);
        }
    }

    /// Stores an entry. The key under which its bytes go into the hot tier, if
    /// they do. One whose codec failed is not cached.
    pub fn insert(&mut self, key: &EntryKey, payload: Payload) -> (r: Option<EncodedKey>)
        requires
            old(self).wf(),
        ensures
            final(self).wf(),
            final(self)@ == stored(old(self)@, key@, payload),
            match r {
                Some(k) => payload is Serialised && k@ == encoding(key@),
                None => !(payload is Serialised),
            },
    {
        self.counters.insert = self.counters.insert.wrapping_add(1);
        proof {
            lemma_same_contents(old(self)@, self@);
        }
        match payload {
            Payload::Unserialisable => None,
            Payload::Serialised => {
                let ghost before = self@;
                self.register(key);
                proof {
                    lemma_covered_with(before, self@, key@);
                }
                Some(EncodedKey::from(key))
            },
            Payload::Token(t) => {
                let ghost before = self@;
                let _ = shared::map_insert(&mut self.cold, identity_of(key).as_str(), t);
                assert(self@.buckets == before.buckets);
                self.register(key);
                proof {
                    lemma_covered_with(before, self@, key@);
                }
                None
            },
        }
    }

    /// Looks an entry up to load it on a miss.
    pub fn get_or_insert(&mut self, key: &EntryKey, has_codec: bool) -> (r: Lookup)
        requires
            old(self).wf(),
        ensures
            final(self).wf(),
            final(self)@ == (BackendView {
                counters: CacheBackendCounters {
                    get: prom::one_more(old(self)@.counters.get),
                    get_or_insert: prom::one_more(old(self)@.counters.get_or_insert),
                    ..old(self)@.counters
                },
                ..old(self)@
            }),
            match r {
                Lookup::Hot(k) => has_codec && k@ == encoding(key@),
                Lookup::Cold(t) => !has_codec && t == shared::lookup(
                    old(self)@.cold,
                    identity(key@),
                ),
            },
    {
        self.counters.get_or_insert = self.counters.get_or_insert.wrapping_add(1);
        self.get(key, has_codec)
    }

    /// Goes on once an entry that was not there has been loaded: it is stored,
    /// and the key under which its bytes go into the hot tier is given, if they
    /// do. Where loading failed nothing is stored.
    pub fn on_loaded(&mut self, key: &EntryKey, payload: Option<Payload>) -> (r: Option<EncodedKey>)
        requires
            old(self).wf(),
        ensures
            final(self).wf(),
            final(self)@ == (match payload {
                Some(p) => stored(old(self)@, key@, p),
                None => old(self)@,
            }),
            match r {
                Some(k) => payload == Some(Payload::Serialised) && k@ == encoding(key@),
                None => payload != Some(Payload::Serialised),
            },
    {
        match payload {
            Some(p) => self.insert(key, p),
            None => None,
        }
    }

    /// Puts out every entry whose prefix begins with a text. The keys to take
    /// out of the hot tier.
    pub fn invalidate_prefix(&mut self, prefix: &str) -> (r: Vec<EncodedKey>)
        requires
            old(self).wf(),
        ensures
            final(self).wf(),
            final(self)@ == (BackendView {
                counters: CacheBackendCounters {
                    invalidate_prefix: prom::one_more(old(self)@.counters.invalidate_prefix),
                    ..old(self)@.counters
                },
                ..without(old(self)@, prefixes_under(old(self)@.buckets, prefix@))
            }),
            forall|t: Seq<char>| #[trigger]
                listed(r@, t) <==> is_text_under(old(self)@, prefix@, t),
    {
        let ghost start = self@;
        self.counters.invalidate_prefix = self.counters.invalidate_prefix.wrapping_add(1);
        let ghost counters = self.counters;
        let names = shared::map_keys(&self.by_prefix);
        let mut hot: Vec<EncodedKey> = Vec::new();
        let ghost mut gone: Set<Seq<char>> = Set::empty();
        let mut n: usize = 0;
        proof {
            assert(identities_under(start.buckets, gone) =~= Set::empty());
            assert(without(start, gone).cold =~= start.cold);
            assert(without(start, gone).buckets =~= start.buckets);
            assert forall|p: Seq<char>| #[trigger] start.buckets.dom().contains(p) implies exists|
                j: int,
            |
                0 <= j < names@.len() && #[trigger] names@[j]@ == p by {
                assert(<DashSet<
                    (String, String, String),
                > as shared::Held>::contents(self.by_prefix).dom().contains(p));
            }
        }
        while n < names.len()
            invariant
                n <= names@.len(),
                start == old(self)@,
                tidy(start),
                self.counters == counters,
                self@.cold == without(start, gone).cold,
                self@.buckets == without(start, gone).buckets,
                forall|p: Seq<char>| #[trigger]
                    gone.contains(p) ==> start.buckets.dom().contains(p) && prefix@.is_prefix_of(p),
                forall|j: int|
                    0 <= j < n && prefix@.is_prefix_of(#[trigger] names@[j]@) ==> gone.contains(
                        names@[j]@,
                    ),
                forall|j: int|
                    0 <= j < names@.len() ==> start.buckets.dom().contains(#[trigger] names@[j]@),
                forall|k: KeyParts| #[trigger]
                    registered(start, k) && gone.contains(k.0) ==> listed(hot@, encoding(k)),
                forall|i: int|
                    0 <= i < hot@.len() ==> is_text_under(start, prefix@, (#[trigger] hot@[i])@),
            decreases names@.len() - n,
        {
            if text::begins_with(names[n].as_str(), prefix) {
                let ghost p = names@[n as int]@;
                let ghost mid = self@;
                let ghost noted = hot@;
                let ghost now_gone = gone.insert(p);
                match shared::map_remove(&mut self.by_prefix, names[n].as_str()) {
                    Some(set) => {
                        let bucket = shared::key_set_items(&set);
                        forget_bucket(&mut self.cold, &bucket, &mut hot);
                        proof {
                            assert(mid.buckets.dom().contains(p));
                            assert(mid.buckets[p] == shared::key_set(set));
                            lemma_one_more_bucket(start, gone, p, bucket@, mid.cold, self@.cold);
                            assert(self@.buckets =~= mid.buckets.remove(p));
                            assert(self@.buckets =~= start.buckets.remove_keys(now_gone));
                            lemma_noted(start, gone, p, prefix@, bucket@, noted, hot@);
                        }
                    },
                    None => {
                        proof {
                            assert(!mid.buckets.dom().contains(p));
                            assert(gone.contains(p));
                            assert(now_gone =~= gone);
                            assert(self@.buckets =~= mid.buckets);
                        }
                    },
                }
                proof {
                    gone = now_gone;
                }
            }
            n = n + 1;
        }
        proof {
            let all = prefixes_under(start.buckets, prefix@);
            assert forall|p: Seq<char>| all.contains(p) implies gone.contains(p) by {
                assert(start.buckets.dom().contains(p));
                let j = choose|j: int| 0 <= j < names@.len() && #[trigger] names@[j]@ == p;
                assert(prefix@.is_prefix_of(names@[j]@));
            }
            assert(gone =~= all);
            assert forall|t: Seq<char>| #[trigger] listed(hot@, t) <==> is_text_under(
                start,
                prefix@,
                t,
            ) by {
                if is_text_under(start, prefix@, t) {
                    let k = choose|k: KeyParts| #[trigger]
                        registered(start, k) && prefix@.is_prefix_of(k.0) && t == encoding(k);
                    assert(gone.contains(k.0));
                }
            }
            assert(self@ =~= (BackendView { counters, ..without(start, all) }));
            lemma_without_keeps(start, self@, all);
            assert(self@.cold.dom() =~= start.cold.dom().difference(
                identities_under(start.buckets, all),
            ));
        }
        hot
    }

    /// Puts everything out; the hot tier is the caller's to clear.
    pub fn clear(&mut self)
        ensures
            final(self).wf(),
            final(self)@ == (BackendView {
                cold: Map::empty(),
                buckets: Map::empty(),
                counters: CacheBackendCounters {
                    clear: prom::one_more(old(self)@.counters.clear),
                    ..old(self)@.counters
                },
            }),
    {
        self.counters.clear = self.counters.clear.wrapping_add(1);
        shared::map_clear(&mut self.cold);
        shared::map_clear(&mut self.by_prefix);
        assert(self@.cold =~= Map::empty());
        assert(self@.buckets =~= Map::empty());
    }

    /// Entries of the cold tier; those of the hot tier are not counted.
    pub fn num_entries(&self) -> (r: usize)
        requires
            self.wf(),
        ensures
            r == self@.cold.len(),
    {
        shared::map_len(&self.cold)
    }
}

/// Whether a read of the hot tier is a hit. What cannot be read or decoded is a
/// miss.
pub fn hot_hit(read: HotRead) -> (r: bool)
    ensures
        r == (read is Decoded),
{
    matches!(read, HotRead::Decoded)
}

// ---------------------------------------------------------------- lemmas
/// A text that holds no `c` is what stands before the first `c`.
proof fn lemma_split_first(a: Seq<char>, x: Seq<char>, b: Seq<char>, y: Seq<char>, c: char)
    requires
        !a.contains(c),
        !b.contains(c),
        a + seq![c] + x == b + seq![c] + y,
    ensures
        a == b,
        x == y,
{
    let l = a + seq![c] + x;
    let r = b + seq![c] + y;
    if a.len() < b.len() {
        assert(l[a.len() as int] == c);
        assert(r[a.len() as int] == b[a.len() as int]);
        assert(b.contains(c));
    }
    if b.len() < a.len() {
        assert(r[b.len() as int] == c);
        assert(l[b.len() as int] == a[b.len() as int]);
        assert(a.contains(c));
    }
    assert(l.len() == r.len());
    assert(a =~= l.take(a.len() as int));
    assert(b =~= r.take(b.len() as int));
    assert(x =~= l.skip(a.len() as int + 1));
    assert(y =~= r.skip(b.len() as int + 1));
}

/// A text that holds no `c` is what stands behind the last `c`.
proof fn lemma_split_last(a: Seq<char>, x: Seq<char>, b: Seq<char>, y: Seq<char>, c: char)
    requires
        !x.contains(c),
        !y.contains(c),
        a + seq![c] + x == b + seq![c] + y,
    ensures
        a == b,
        x == y,
{
    let l = a + seq![c] + x;
    let r = b + seq![c] + y;
    assert(l.len() == a.len() + 1 + x.len());
    assert(r.len() == b.len() + 1 + y.len());
    if a.len() < b.len() {
        let i = b.len() - a.len() - 1;
        assert(r[b.len() as int] == c);
        assert(l[a.len() + 1 + i] == x[i]);
        assert(x.contains(c));
    }
    if b.len() < a.len() {
        let i = a.len() - b.len() - 1;
        assert(l[a.len() as int] == c);
        assert(r[b.len() + 1 + i] == y[i]);
        assert(y.contains(c));
    }
    assert(a =~= l.take(a.len() as int));
    assert(b =~= r.take(b.len() as int));
    assert(x =~= l.skip(a.len() as int + 1));
    assert(y =~= r.skip(b.len() as int + 1));
}

/// A decimal numeral is made of digits.
proof fn lemma_dec_digits(n: nat)
    ensures
        forall|i: int| 0 <= i < text::dec(n).len() ==> text::is_digit(#[trigger] text::dec(n)[i]),
        text::dec(n).len() > 0,
    decreases n,
{
    if n >= 10 {
        lemma_dec_digits(n / 10);
        let front = text::dec(n / 10);
        assert forall|i: int| 0 <= i < text::dec(n).len() implies text::is_digit(
            #[trigger] text::dec(n)[i],
        ) by {
            if i < front.len() {
                assert(text::dec(n)[i] == front[i]);
            }
        }
    }
}

proof fn lemma_digit_distinct(m: nat, n: nat)
    requires
        m < 10,
        n < 10,
        text::digit_char(m) == text::digit_char(n),
    ensures
        m == n,
{
    assert(text::digit_char(m) as u32 == 48 + m);
    assert(text::digit_char(n) as u32 == 48 + n);
}

/// Different numbers have different numerals.
proof fn lemma_dec_distinct(m: nat, n: nat)
    requires
        text::dec(m) == text::dec(n),
    ensures
        m == n,
    decreases m,
{
    lemma_dec_digits(m / 10);
    lemma_dec_digits(n / 10);
    if m < 10 && n < 10 {
        assert(seq![text::digit_char(m)][0] == seq![text::digit_char(n)][0]);
        lemma_digit_distinct(m, n);
    } else if m >= 10 && n >= 10 {
        assert(text::dec(m).drop_last() =~= text::dec(m / 10));
        assert(text::dec(n).drop_last() =~= text::dec(n / 10));
        assert(text::dec(m).last() == text::digit_char(m % 10));
        assert(text::dec(n).last() == text::digit_char(n % 10));
        lemma_digit_distinct(m % 10, n % 10);
        lemma_dec_distinct(m / 10, n / 10);
    } else if m < 10 {
        assert(text::dec(n).len() == text::dec(n / 10).len() + 1);
        assert(text::dec(m).len() == 1);
    } else {
        assert(text::dec(m).len() == text::dec(m / 10).len() + 1);
        assert(text::dec(n).len() == 1);
    }
}

/// The identities of two keys are the same only where the keys are.
pub proof fn law_identities_tell_keys_apart(a: KeyParts, b: KeyParts)
    requires
        identity(a) == identity(b),
    ensures
        a == b,
{
    reveal_strlit("\u{1f}");
    let c = '\u{1f}';
    assert("\u{1f}"@ =~= seq![c]);
    lemma_dec_digits(a.0.len());
    lemma_dec_digits(a.2.len());
    lemma_dec_digits(b.0.len());
    lemma_dec_digits(b.2.len());
    lemma_split_last(
        encoding(a) + seq![c] + text::dec(a.0.len()),
        text::dec(a.2.len()),
        encoding(b) + seq![c] + text::dec(b.0.len()),
        text::dec(b.2.len()),
        c,
    );
    lemma_split_last(encoding(a), text::dec(a.0.len()), encoding(b), text::dec(b.0.len()), c);
    lemma_dec_distinct(a.0.len(), b.0.len());
    lemma_dec_distinct(a.2.len(), b.2.len());
    let l = encoding(a);
    let r = encoding(b);
    assert(a.0 =~= l.take(a.0.len() as int));
    assert(b.0 =~= r.take(b.0.len() as int));
    assert(a.2 =~= l.subrange(a.0.len() as int + 1, a.0.len() as int + 1 + a.2.len()));
    assert(b.2 =~= r.subrange(b.0.len() as int + 1, b.0.len() as int + 1 + b.2.len()));
    assert(a.1 =~= l.skip(a.0.len() as int + a.2.len() + 2));
    assert(b.1 =~= r.skip(b.0.len() as int + b.2.len() + 2));
}

/// What every operation keeps does not rest on the counts.
proof fn lemma_same_contents(before: BackendView, after: BackendView)
    requires
        tidy(before),
        covered(before),
        after.cold == before.cold,
        after.buckets == before.buckets,
    ensures
        tidy(after),
        covered(after),
{
    assert forall|k: KeyParts| #[trigger] after.cold.dom().contains(identity(k)) implies registered(
        after,
        k,
    ) by {
        assert(before.cold.dom().contains(identity(k)));
    }
}

proof fn lemma_with_key(b: BackendView, k: KeyParts, x: KeyParts)
    ensures
        registered(b, x) ==> registered(BackendView { buckets: with_key(b.buckets, k), ..b }, x),
        registered(BackendView { buckets: with_key(b.buckets, k), ..b }, k),
{
}

proof fn lemma_covered_with(before: BackendView, after: BackendView, k: KeyParts)
    requires
        covered(before),
        after.buckets == with_key(before.buckets, k),
        forall|id: Seq<char>| #[trigger]
            after.cold.dom().contains(id) ==> before.cold.dom().contains(id) || id == identity(k),
    ensures
        covered(after),
{
    assert forall|x: KeyParts| #[trigger] after.cold.dom().contains(identity(x)) implies registered(
        after,
        x,
    ) by {
        lemma_with_key(before, k, x);
        if before.cold.dom().contains(identity(x)) {
            assert(registered(before, x));
        } else {
            law_identities_tell_keys_apart(x, k);
        }
    }
}

/// Whether a list holds exactly the keys of a set.
spec fn lists(bucket: Seq<(String, String, String)>, set: Set<KeyParts>) -> bool {
    &&& forall|i: int| 0 <= i < bucket.len() ==> set.contains(shared::parts(#[trigger] bucket[i]))
    &&& forall|k: KeyParts| #[trigger]
        set.contains(k) ==> exists|i: int| 0 <= i < bucket.len() && shared::parts(bucket[i]) == k
}

/// Forgetting one more bucket.
proof fn lemma_one_more_bucket(
    start: BackendView,
    gone: Set<Seq<char>>,
    p: Seq<char>,
    bucket: Seq<(String, String, String)>,
    mid: Map<Seq<char>, u64>,
    after: Map<Seq<char>, u64>,
)
    requires
        start.buckets.dom().contains(p),
        lists(bucket, start.buckets[p]),
        mid == without(start, gone).cold,
        forall|id: Seq<char>| #[trigger]
            after.dom().contains(id) <==> (mid.dom().contains(id) && !exists|i: int|
                0 <= i < bucket.len() && identity(shared::parts(#[trigger] bucket[i])) == id),
        forall|id: Seq<char>| after.dom().contains(id) ==> #[trigger] after[id] == mid[id],
    ensures
        after == without(start, gone.insert(p)).cold,
{
    let next = gone.insert(p);
    let target = without(start, next).cold;
    assert forall|id: Seq<char>| #[trigger]
        after.dom().contains(id) <==> target.dom().contains(id) by {
        let old_ids = identities_under(start.buckets, gone);
        let new_ids = identities_under(start.buckets, next);
        if new_ids.contains(id) {
            let (q, k) = choose|q: Seq<char>, k: KeyParts|
                #![trigger next.contains(q), start.buckets[q].contains(k)]
                next.contains(q) && start.buckets.dom().contains(q) && start.buckets[q].contains(k)
                    && identity(k) == id;
            if q == p {
                let i = choose|i: int| 0 <= i < bucket.len() && shared::parts(bucket[i]) == k;
                assert(identity(shared::parts(bucket[i])) == id);
            } else {
                assert(gone.contains(q) && start.buckets[q].contains(k));
                assert(old_ids.contains(id));
            }
        } else {
            if old_ids.contains(id) {
                let (q, k) = choose|q: Seq<char>, k: KeyParts|
                    #![trigger gone.contains(q), start.buckets[q].contains(k)]
                    gone.contains(q) && start.buckets.dom().contains(q)
                        && start.buckets[q].contains(k) && identity(k) == id;
                assert(next.contains(q) && start.buckets[q].contains(k));
                assert(new_ids.contains(id));
            }
            if exists|i: int|
                0 <= i < bucket.len() && identity(shared::parts(#[trigger] bucket[i])) == id {
                let i = choose|i: int|
                    0 <= i < bucket.len() && identity(shared::parts(#[trigger] bucket[i])) == id;
                assert(next.contains(p) && start.buckets[p].contains(shared::parts(bucket[i])));
                assert(new_ids.contains(id));
            }
        }
    }
    assert(after =~= target);
}

/// The keys of one more bucket are noted for the hot tier.
proof fn lemma_noted(
    start: BackendView,
    gone: Set<Seq<char>>,
    p: Seq<char>,
    prefix: Seq<char>,
    bucket: Seq<(String, String, String)>,
    noted: Seq<EncodedKey>,
    hot: Seq<EncodedKey>,
)
    requires
        tidy(start),
        start.buckets.dom().contains(p),
        prefix.is_prefix_of(p),
        lists(bucket, start.buckets[p]),
        hot.len() == noted.len() + bucket.len(),
        forall|i: int| 0 <= i < noted.len() ==> #[trigger] hot[i] == noted[i],
        forall|i: int|
            0 <= i < bucket.len() ==> (#[trigger] hot[noted.len() + i])@ == encoding(
                shared::parts(bucket[i]),
            ),
        forall|k: KeyParts| #[trigger]
            registered(start, k) && gone.contains(k.0) ==> listed(noted, encoding(k)),
        forall|i: int|
            0 <= i < noted.len() ==> is_text_under(start, prefix, (#[trigger] noted[i])@),
    ensures
        forall|k: KeyParts| #[trigger]
            registered(start, k) && gone.insert(p).contains(k.0) ==> listed(hot, encoding(k)),
        forall|i: int| 0 <= i < hot.len() ==> is_text_under(start, prefix, (#[trigger] hot[i])@),
{
    assert forall|k: KeyParts| #[trigger]
        registered(start, k) && gone.insert(p).contains(k.0) implies listed(hot, encoding(k)) by {
        if gone.contains(k.0) {
            let i = choose|i: int| 0 <= i < noted.len() && (#[trigger] noted[i])@ == encoding(k);
            assert(hot[i] == noted[i]);
        } else {
            assert(start.buckets[p].contains(k));
            let i = choose|i: int| 0 <= i < bucket.len() && shared::parts(bucket[i]) == k;
            assert(hot[noted.len() + i]@ == encoding(shared::parts(bucket[i])));
        }
    }
    assert forall|i: int| 0 <= i < hot.len() implies is_text_under(
        start,
        prefix,
        (#[trigger] hot[i])@,
    ) by {
        if i < noted.len() {
            assert(hot[i] == noted[i]);
        } else {
            let j = i - noted.len();
            assert(hot[noted.len() + j]@ == encoding(shared::parts(bucket[j])));
            let k = shared::parts(bucket[j]);
            assert(start.buckets[p].contains(k));
            assert(k.0 == p);
            assert(registered(start, k));
        }
    }
}

/// Forgetting buckets keeps what every operation keeps.
proof fn lemma_without_keeps(before: BackendView, after: BackendView, prefixes: Set<Seq<char>>)
    requires
        tidy(before),
        covered(before),
        after.cold == without(before, prefixes).cold,
        after.buckets == without(before, prefixes).buckets,
    ensures
        tidy(after),
        covered(after),
{
    assert forall|p: Seq<char>, k: KeyParts| #[trigger]
        after.buckets.dom().contains(p) && #[trigger] after.buckets[p].contains(k) implies k.0
        == p by {
        assert(before.buckets.dom().contains(p) && before.buckets[p].contains(k));
    }
    assert forall|k: KeyParts| #[trigger] after.cold.dom().contains(identity(k)) implies registered(
        after,
        k,
    ) by {
        assert(before.cold.dom().contains(identity(k)));
        assert(registered(before, k));
        if prefixes.contains(k.0) {
            assert(before.buckets[k.0].contains(k));
            assert(identities_under(before.buckets, prefixes).contains(identity(k)));
        }
    }
}

// ------------------------------------------------------------------ laws
/// Keys whose prefix and type hold no unit separator have different texts
/// where they differ.
pub proof fn law_distinct_keys_encode_distinctly(a: KeyParts, b: KeyParts)
    requires
        !a.0.contains('\u{1f}'),
        !a.2.contains('\u{1f}'),
        !b.0.contains('\u{1f}'),
        !b.2.contains('\u{1f}'),
        a != b,
    ensures
        encoding(a) != encoding(b),
{
    reveal_strlit("\u{1f}");
    let c = '\u{1f}';
    assert("\u{1f}"@ =~= seq![c]);
    if encoding(a) == encoding(b) {
        assert(encoding(a) =~= a.0 + seq![c] + (a.2 + seq![c] + a.1));
        assert(encoding(b) =~= b.0 + seq![c] + (b.2 + seq![c] + b.1));
        lemma_split_first(a.0, a.2 + seq![c] + a.1, b.0, b.2 + seq![c] + b.1, c);
        lemma_split_first(a.2, a.1, b.2, b.1, c);
    }
}

/// Putting a prefix out leaves no entry of it in the cold tier, and touches no
/// other entry.
pub proof fn law_invalidation_is_exact(b: BackendView, prefix: Seq<char>, k: KeyParts)
    requires
        tidy(b),
        covered(b),
    ensures
        ({
            let after = without(b, prefixes_under(b.buckets, prefix));
            if prefix.is_prefix_of(k.0) {
                shared::lookup(after.cold, identity(k)) is None && !registered(after, k)
            } else {
                shared::lookup(after.cold, identity(k)) == shared::lookup(b.cold, identity(k))
                    && registered(after, k) == registered(b, k)
            }
        }),
{
    let all = prefixes_under(b.buckets, prefix);
    let after = without(b, all);
    lemma_without_keeps(b, after, all);
    if prefix.is_prefix_of(k.0) {
        assert(!registered(after, k));
        assert(!after.cold.dom().contains(identity(k)));
    } else if identities_under(b.buckets, all).contains(identity(k)) {
        let (p, x) = choose|p: Seq<char>, x: KeyParts|
            #![trigger all.contains(p), b.buckets[p].contains(x)]
            all.contains(p) && b.buckets.dom().contains(p) && b.buckets[p].contains(x)
                && identity(x) == identity(k);
        law_identities_tell_keys_apart(x, k);
        assert(x.0 == p);
    }
}

/// The cold tier gives back the token that was stored last under a key, and
/// storing under one key does not touch another.
pub proof fn law_cold_tier_reads_back(b: BackendView, k: KeyParts, token: u64, other: KeyParts)
    ensures
        shared::lookup(stored(b, k, Payload::Token(token)).cold, identity(k)) == Some(token),
        other != k ==> shared::lookup(
            stored(b, k, Payload::Token(token)).cold,
            identity(other),
        ) == shared::lookup(b.cold, identity(other)),
{
    if other != k && identity(other) == identity(k) {
        law_identities_tell_keys_apart(other, k);
    }
}

/// After any calls, in any order, a snapshot of a backend that counted from
/// nothing says how often each operation was called, as long as the numbers fit:
/// a lookup that loads counts as neither a lookup nor a store.
pub proof fn law_snapshots_count_the_calls(calls: Seq<Call>)
    requires
        calls.len() <= u64::MAX,
    ensures
        ({
            let s = snapshot_of(after_calls(no_counts(), calls));
            &&& s.get == times(calls, Call::Get)
            &&& s.insert == times(calls, Call::Insert)
            &&& s.get_or_insert == times(calls, Call::GetOrInsert)
            &&& s.invalidate_prefix == times(calls, Call::InvalidatePrefix)
            &&& s.clear == times(calls, Call::Clear)
        }),
    decreases calls.len(),
{
    if calls.len() > 0 {
        let front = calls.drop_last();
        law_snapshots_count_the_calls(front);
        lemma_times(front, Call::Get);
        lemma_times(front, Call::Insert);
        lemma_times(front, Call::GetOrInsert);
        lemma_times(front, Call::InvalidatePrefix);
        lemma_times(front, Call::Clear);
    }
}

proof fn lemma_times(calls: Seq<Call>, call: Call)
    ensures
        times(calls, call) <= calls.len(),
    decreases calls.len(),
{
    if calls.len() > 0 {
        lemma_times(calls.drop_last(), call);
    }
}
/// The text of a key is its prefix, its type and its name, in this order, with
/// one unit separator between two of them.
pub proof fn law_key_texts_hold_every_part(k: KeyParts)
    ensures
        ({
            let t = encoding(k);
            let p = k.0.len() as int;
            let v = k.2.len() as int;
            &&& t.len() == k.0.len() + k.1.len() + k.2.len() + 2
            &&& t.take(p) == k.0
            &&& t[p] == '\u{1f}'
            &&& t.subrange(p + 1, p + 1 + v) == k.2
            &&& t[p + 1 + v] == '\u{1f}'
            &&& t.skip(p + v + 2) == k.1
        }),
        text::occurs_at(identity(k), encoding(k), 0),
{
    reveal_strlit("\u{1f}");
    let t = encoding(k);
    let p = k.0.len() as int;
    let v = k.2.len() as int;
    assert("\u{1f}"@ =~= seq!['\u{1f}']);
    assert(t.take(p) =~= k.0);
    assert(t.subrange(p + 1, p + 1 + v) =~= k.2);
    assert(t.skip(p + v + 2) =~= k.1);
    assert(identity(k).subrange(0, t.len() as int) =~= t);
}

/// A call is counted once, under its own name, and under no other; a count that
/// is full starts again at nothing.
pub proof fn law_calls_are_counted_under_their_names(c: CacheBackendCounters, call: Call)
    ensures
        ({
            let after = snapshot_of(counted(c, call));
            let before = snapshot_of(c);
            &&& before.get == c.get && before.insert == c.insert && before.get_or_insert
                == c.get_or_insert && before.invalidate_prefix == c.invalidate_prefix
                && before.clear == c.clear
            &&& (call is Get ==> after.get == (c.get + 1) % 0x1_0000_0000_0000_0000)
            &&& (!(call is Get) ==> after.get == c.get)
            &&& (call is Insert ==> after.insert == (c.insert + 1) % 0x1_0000_0000_0000_0000)
            &&& (!(call is Insert) ==> after.insert == c.insert)
            &&& (call is GetOrInsert ==> after.get_or_insert == (c.get_or_insert + 1)
                % 0x1_0000_0000_0000_0000)
            &&& (!(call is GetOrInsert) ==> after.get_or_insert == c.get_or_insert)
            &&& (call is InvalidatePrefix ==> after.invalidate_prefix == (c.invalidate_prefix + 1)
                % 0x1_0000_0000_0000_0000)
            &&& (!(call is InvalidatePrefix) ==> after.invalidate_prefix == c.invalidate_prefix)
            &&& (call is Clear ==> after.clear == (c.clear + 1) % 0x1_0000_0000_0000_0000)
            &&& (!(call is Clear) ==> after.clear == c.clear)
        }),
{
}

/// A store is counted, whatever comes of it, and nothing else is. An entry whose
/// codec failed changes neither tier. Any other is known under its prefix from
/// then on, and no other key is. Bytes leave the cold tier as it is; a token goes
/// into it under its key alone.
pub proof fn law_stores_change_their_entry_alone(
    b: BackendView,
    k: KeyParts,
    payload: Payload,
    other: KeyParts,
)
    ensures
        ({
            let after = stored(b, k, payload);
            &&& after.counters.insert == (b.counters.insert + 1) % 0x1_0000_0000_0000_0000
            &&& after.counters.get == b.counters.get
            &&& after.counters.get_or_insert == b.counters.get_or_insert
            &&& after.counters.invalidate_prefix == b.counters.invalidate_prefix
            &&& after.counters.clear == b.counters.clear
            &&& (payload is Unserialisable ==> after.cold == b.cold && after.buckets == b.buckets)
            &&& (payload is Serialised ==> after.cold == b.cold)
            &&& (!(payload is Unserialisable) ==> (registered(after, other) <==> registered(
                b,
                other,
            ) || other == k))
            &&& (payload matches Payload::Token(t) ==> shared::lookup(after.cold, identity(k))
                == Some(t))
            &&& (other != k ==> shared::lookup(after.cold, identity(other)) == shared::lookup(
                b.cold,
                identity(other),
            ))
        }),
{
    if other != k && identity(other) == identity(k) {
        law_identities_tell_keys_apart(other, k);
    }
}

/// What a prefix puts out of the hot tier is what was stored under a prefix that
/// begins with it: each such key, and no text that begins otherwise. Nothing is
/// counted by forgetting alone.
pub proof fn law_hot_keys_are_put_out_by_prefix(
    b: BackendView,
    prefix: Seq<char>,
    k: KeyParts,
    t: Seq<char>,
)
    ensures
        registered(b, k) && prefix.is_prefix_of(k.0) ==> is_text_under(b, prefix, encoding(k)),
        is_text_under(b, prefix, t) ==> prefix.is_prefix_of(t),
        without(b, prefixes_under(b.buckets, prefix)).counters == b.counters,
{
    if is_text_under(b, prefix, t) {
        let x = choose|x: KeyParts| #[trigger]
            registered(b, x) && prefix.is_prefix_of(x.0) && t == encoding(x);
        assert(t.take(x.0.len() as int) =~= x.0);
        assert(prefix =~= t.subrange(0, prefix.len() as int));
    }
}

/// Stored, put out, stored again: an entry is known after each store, and no
/// longer once its prefix is put out.
pub proof fn law_entries_come_and_go(b: BackendView, k: KeyParts, token: u64)
    requires
        tidy(b),
        covered(b),
    ensures
        ({
            let there = stored(b, k, Payload::Token(token));
            let gone = without(there, prefixes_under(there.buckets, k.0));
            let back = stored(gone, k, Payload::Token(token));
            &&& shared::lookup(there.cold, identity(k)) == Some(token)
            &&& shared::lookup(gone.cold, identity(k)) is None
            &&& shared::lookup(back.cold, identity(k)) == Some(token)
        }),
{
    let there = stored(b, k, Payload::Token(token));
    lemma_covered_with(b, there, k);
    assert(tidy(there)) by {
        assert forall|p: Seq<char>, x: KeyParts| #[trigger]
            there.buckets.dom().contains(p) && #[trigger] there.buckets[p].contains(x) implies x.0
            == p by {
            if p != k.0 {
                assert(b.buckets.dom().contains(p) && b.buckets[p].contains(x));
            } else if x != k {
                assert(b.buckets.dom().contains(p) && b.buckets[p].contains(x));
            }
        }
    }
    assert(k.0.is_prefix_of(k.0)) by {
        assert(k.0 =~= k.0.subrange(0, k.0.len() as int));
    }
    law_invalidation_is_exact(there, k.0, k);
}

} // verus!
