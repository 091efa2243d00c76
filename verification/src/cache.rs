//! The result caches: keys of the exact cache, the generation of each
//! namespace, and the sidecar of near-duplicate queries.
//!
//! A namespace's generation stands for the version of its table. It is part of
//! every key, so that a result cached against one version is never found once
//! the version has changed.
use dashmap::DashMap;
use vstd::prelude::*;
use crate::codec::QueryHash;
use crate::error::{ErrorView, FirnflowError};
use crate::metrics::{self, CoreMetrics, MetricsView};
use crate::namespace::NamespaceId;
use crate::prom;
use crate::shared;
use crate::text;

verus! {

/// Entries per namespace that the sidecar keeps by default.
pub const DEFAULT_SEMANTIC_CAPACITY: usize = 1024;

/// The generation of a namespace; 0 where none was ever set.
pub open spec fn current_generation(m: Map<Seq<char>, u64>, ns: Seq<char>) -> u64 {
    if m.dom().contains(ns) {
        m[ns]
    } else {
        0
    }
}

/// Current generation of every namespace.
pub struct GenerationCounter {
    current: DashMap<String, u64>,
}

impl View for GenerationCounter {
    type V = Map<Seq<char>, u64>;

    closed spec fn view(&self) -> Map<Seq<char>, u64> {
        shared::number_map(self.current)
    }
}

impl GenerationCounter {
    /// No namespace has a generation yet.
    pub fn new() -> (r: GenerationCounter)
        ensures
            r@ == Map::<Seq<char>, u64>::empty(),
    {
        let r = GenerationCounter { current: shared::new_number_map() };
        assert(r@ =~= Map::<Seq<char>, u64>::empty());
        r
    }

    /// The generation of a namespace.
    pub fn current(&self, ns: &NamespaceId) -> (r: u64)
        ensures
            r == current_generation(self@, ns@),
    {
        match shared::map_get(&self.current, ns.as_str()) {
            Some(g) => g,
            None => 0,
        }
    }

    /// Sets the generation of a namespace.
    pub fn set(&mut self, ns: &NamespaceId, generation: u64)
        ensures
            final(self)@ == old(self)@.insert(ns@, generation),
    {
        shared::map_insert(&mut self.current, ns.as_str(), generation);
    }

    /// Moves the generation of a namespace on, and gives the new one.
    pub fn bump(&mut self, ns: &NamespaceId) -> (r: u64)
        ensures
            r == prom::one_more(current_generation(old(self)@, ns@)),
            final(self)@ == old(self)@.insert(ns@, r),
    {
        let now: u64 = self.current(ns);
        let next: u64 = if now == u64::MAX {
            0
        } else {
            now + 1
        };
        self.set(ns, next);
        next
    }
}

/// The key of a cached result.
#[derive(Debug, PartialEq, Eq, Hash)]
pub struct CacheKey {
    /// Namespace of the query.
    pub namespace: NamespaceId,
    /// Generation that the result belongs to.
    pub generation: u64,
    /// Hash of the query.
    pub query: QueryHash,
}

/// A key by its contents.
pub type KeyView = (Seq<char>, u64, QueryHash);

impl View for CacheKey {
    type V = KeyView;

    open spec fn view(&self) -> KeyView {
        (self.namespace@, self.generation, self.query)
    }
}

/// The exact result cache: its keys and its counts. The store that holds the
/// bytes belongs to the caller.
pub struct NamespaceCache {
    generations: GenerationCounter,
}

impl View for NamespaceCache {
    type V = Map<Seq<char>, u64>;

    closed spec fn view(&self) -> Map<Seq<char>, u64> {
        self.generations@
    }
}

/// A step of building or closing a store that can fail.
#[derive(Debug, Clone, Copy, PartialEq, Eq, Structural)]
pub enum StoreStage {
    /// The disk file of the result cache.
    Device,
    /// The two tiers of the result cache.
    Hybrid,
    /// The shutdown of the result cache.
    Close,
    /// The disk file of the index cache.
    IndexDevice,
    /// The two tiers of the index cache.
    IndexHybrid,
}

/// The error of a store that failed.
pub open spec fn store_error(stage: StoreStage, cause: Seq<char>) -> ErrorView {
    ErrorView::Cache(
        match stage {
            StoreStage::Device => "device build: "@ + cause,
            StoreStage::Hybrid => "hybrid build: "@ + cause,
            StoreStage::Close => "cache close: "@ + cause,
            StoreStage::IndexDevice => "cachebackend device build: "@ + cause,
            StoreStage::IndexHybrid => "cachebackend hybrid build: "@ + cause,
        },
    )
}

/// The error of a store that failed.
pub fn store_failure(stage: StoreStage, cause: &str) -> (r: FirnflowError)
    ensures
        r@ == store_error(stage, cause@),
{
    let step: &'static str = match stage {
        StoreStage::Device => "device build: ",
        StoreStage::Hybrid => "hybrid build: ",
        StoreStage::Close => "cache close: ",
        StoreStage::IndexDevice => "cachebackend device build: ",
        StoreStage::IndexHybrid => "cachebackend hybrid build: ",
    };
    FirnflowError::Cache(text::cat2(step, cause))
}

/// The metrics after a lookup in the exact cache.
pub open spec fn looked_up(m: MetricsView, ns: Seq<char>, hit: bool) -> MetricsView {
    if hit {
        MetricsView {
            cache_hits: prom::bumped(m.cache_hits, metrics::slot1(ns)),
            ..metrics::touched(m, ns)
        }
    } else {
        MetricsView {
            cache_misses: prom::bumped(m.cache_misses, metrics::slot1(ns)),
            ..metrics::touched(m, ns)
        }
    }
}

impl NamespaceCache {
    /// A cache without entries.
    pub fn new() -> (r: NamespaceCache)
        ensures
            r@ == Map::<Seq<char>, u64>::empty(),
    {
        NamespaceCache { generations: GenerationCounter::new() }
    }

    /// Starts a lookup: the key to look for, under the generation of the
    /// moment. A later insert goes under that same generation.
    pub fn try_get(&self, ns: &NamespaceId, query: QueryHash) -> (r: CacheKey)
        ensures
            r@ == (ns@, current_generation(self@, ns@), query),
    {
        CacheKey { namespace: ns.clone(), generation: self.generations.current(ns), query }
    }

    /// Ends a lookup: counts a hit or a miss. A store that failed found
    /// nothing.
    pub fn on_try_get(&self, t: &mut CoreMetrics, ns: &NamespaceId, found: bool)
        requires
            old(t).wf(),
        ensures
            final(t).wf(),
            final(t)@ == looked_up(old(t)@, ns@, found),
    {
        if found {
            t.record_cache_hit(ns);
        } else {
            t.record_cache_miss(ns);
        }
    }

    /// Starts a lookup that populates on a miss. The generation is taken once:
    /// a result that a writer overtakes is stored where nothing finds it.
    pub fn get_or_populate(&self, ns: &NamespaceId, query: QueryHash) -> (r: CacheKey)
        ensures
            r@ == (ns@, current_generation(self@, ns@), query),
    {
        self.try_get(ns, query)
    }

    /// What the store found: the bytes to return, or none where they are to be
    /// computed. The miss is counted before the computation, whatever becomes
    /// of it.
    pub fn on_looked_up(&self, t: &mut CoreMetrics, ns: &NamespaceId, found: Option<Vec<u8>>) -> (r:
        Option<Vec<u8>>)
        requires
            old(t).wf(),
        ensures
            final(t).wf(),
            final(t)@ == looked_up(old(t)@, ns@, found is Some),
            r == found,
    {
        self.on_try_get(t, ns, found.is_some());
        found
    }

    /// What was computed: the bytes are stored under the key of the lookup and
    /// returned; an error is returned, and nothing is stored.
    pub fn on_populated(key: CacheKey, computed: Result<Vec<u8>, FirnflowError>) -> (r: (
        Option<(CacheKey, Vec<u8>)>,
        Result<Vec<u8>, FirnflowError>,
    ))
        ensures
            match (r.0, r.1, computed) {
                (Some((k, stored)), Ok(value), Ok(bytes)) => k@ == key@ && stored@ == bytes@
                    && value@ == bytes@,
                (None, Err(e), Err(f)) => e == f,
                _ => false,
            },
    {
        match computed {
            Ok(bytes) => {
                let stored = copy_bytes(&bytes);
                (Some((key, stored)), Ok(bytes))
            },
            Err(e) => (None, Err(e)),
        }
    }

    /// The key under which a result is stored, for a generation that was
    /// captured before the result was computed.
    pub fn populate_with_generation(ns: &NamespaceId, generation: u64, query: QueryHash) -> (r:
        CacheKey)
        ensures
            r@ == (ns@, generation, query),
    {
        CacheKey { namespace: ns.clone(), generation, query }
    }

    /// Sets the generation of a namespace to that of its table.
    pub fn set_generation(&mut self, ns: &NamespaceId, generation: u64)
        ensures
            final(self)@ == old(self)@.insert(ns@, generation),
    {
        self.generations.set(ns, generation);
    }

    /// Puts every entry of a namespace out of reach, and gives the new
    /// generation.
    pub fn invalidate(&mut self, ns: &NamespaceId) -> (r: u64)
        ensures
            r == prom::one_more(current_generation(old(self)@, ns@)),
            final(self)@ == old(self)@.insert(ns@, r),
    {
        self.generations.bump(ns)
    }

    /// The counter that every cache of the service goes by.
    pub fn generation_counter(&mut self) -> (r: &mut GenerationCounter)
        ensures
            r@ == old(self)@,
            final(self)@ == final(r)@,
    {
        &mut self.generations
    }

    /// The generation of a namespace.
    pub fn generation(&self, ns: &NamespaceId) -> (r: u64)
        ensures
            r == current_generation(self@, ns@),
    {
        self.generations.current(ns)
    }
}

// --------------------------------------------------------------- sidecar
/// A cached query of the sidecar.
#[derive(Debug)]
pub struct SemanticEntry {
    /// Namespace of the query.
    pub namespace: String,
    /// Generation that the result belongs to.
    pub generation: u64,
    /// The query vector.
    pub vector: Vec<u32>,
    /// Number of results that were asked for.
    pub k: usize,
    /// Partitions that were probed.
    pub nprobes: usize,
    /// Whether the hits carry vectors.
    pub include_vector: bool,
    /// The cached result.
    pub bytes: Vec<u8>,
}

/// An entry by its contents.
pub struct EntryView {
    pub namespace: Seq<char>,
    pub generation: u64,
    pub vector: Seq<u32>,
    pub k: usize,
    pub nprobes: usize,
    pub include_vector: bool,
    pub bytes: Seq<u8>,
}

impl View for SemanticEntry {
    type V = EntryView;

    open spec fn view(&self) -> EntryView {
        EntryView {
            namespace: self.namespace@,
            generation: self.generation,
            vector: self.vector@,
            k: self.k,
            nprobes: self.nprobes,
            include_vector: self.include_vector,
            bytes: self.bytes@,
        }
    }
}

/// What a lookup in the sidecar came to.
#[derive(Debug)]
pub enum SemanticLookup {
    /// A cached query is close enough; its result.
    Hit(Vec<u8>),
    /// There are entries, but none is close enough.
    Miss,
    /// The namespace has no entries of this generation.
    EmptyIndex,
}

/// The sidecar: cached queries of every namespace, oldest first.
pub struct SemanticCache {
    entries: Vec<SemanticEntry>,
    capacity: usize,
}

impl View for SemanticCache {
    type V = Seq<EntryView>;

    closed spec fn view(&self) -> Seq<EntryView> {
        self.entries@.map_values(|e: SemanticEntry| e@)
    }
}

/// The entries of a namespace.
pub open spec fn entries_of(s: Seq<EntryView>, ns: Seq<char>) -> Seq<EntryView> {
    s.filter(|e: EntryView| e.namespace == ns)
}

/// The entries without those of a namespace, save the ones of a generation.
pub open spec fn entries_kept(s: Seq<EntryView>, ns: Seq<char>, generation: Option<u64>) -> Seq<
    EntryView,
> {
    s.filter(|e: EntryView| e.namespace != ns || Some(e.generation) == generation)
}

/// The position of the first entry of a namespace at or after `from`; the
/// length where there is none.
pub open spec fn first_of(s: Seq<EntryView>, ns: Seq<char>, from: int) -> int
    decreases s.len() - from,
{
    if from < 0 || from >= s.len() {
        s.len() as int
    } else if s[from].namespace == ns {
        from
    } else {
        first_of(s, ns, from + 1)
    }
}

/// The entries after one more: where a namespace has no room left, its oldest
/// entry goes.
pub open spec fn entries_with(s: Seq<EntryView>, e: EntryView, room: nat) -> Seq<EntryView> {
    let all = s.push(e);
    if entries_of(all, e.namespace).len() > room {
        all.remove(first_of(all, e.namespace, 0))
    } else {
        all
    }
}

/// Whether an entry may answer a query of this shape.
pub open spec fn usable(
    e: EntryView,
    ns: Seq<char>,
    generation: u64,
    k: usize,
    nprobes: usize,
    include_vector: bool,
    dim: nat,
) -> bool {
    e.namespace == ns && e.generation == generation && e.k == k && e.nprobes == nprobes
        && e.include_vector == include_vector && e.vector.len() == dim
}

/// The bits of positive infinity. The bits of a positive finite number are
/// fewer, and those of a negative number or of none at all are more.
pub const INFINITY_BITS: u32 = 0x7f80_0000;

/// Whether a similarity reaches a threshold: a finite number that is not
/// negative, and no lower. Such numbers order like their bits.
pub open spec fn reaches(similarity: u32, threshold: u32) -> bool {
    threshold <= similarity < INFINITY_BITS
}

/// Whether position `best` has the highest of the similarities that reach the
/// threshold, and is the first such.
pub open spec fn is_best(similarities: Seq<u32>, threshold: u32, best: int) -> bool {
    &&& 0 <= best < similarities.len()
    &&& reaches(similarities[best], threshold)
    &&& forall|i: int|
        0 <= i < similarities.len() && reaches(#[trigger] similarities[i], threshold)
            ==> similarities[i] <= similarities[best]
    &&& forall|i: int|
        0 <= i < best && reaches(#[trigger] similarities[i], threshold) ==> similarities[i]
            < similarities[best]
}

/// The position of the highest similarity that reaches the threshold. Both are
/// given by the bits of single-precision numbers; one that is negative, infinite
/// or not a number reaches none.
pub fn pick_best(similarities: &Vec<u32>, threshold: u32) -> (r: Option<usize>)
    ensures
        match r {
            Some(i) => is_best(similarities@, threshold, i as int),
            None => forall|i: int|
                0 <= i < similarities@.len() ==> !reaches(#[trigger] similarities@[i], threshold),
        },
{
    let mut best: Option<usize> = None;
    let mut i: usize = 0;
    while i < similarities.len()
        invariant
            i <= similarities@.len(),
            match best {
                Some(b) => b < i && is_best(similarities@.take(i as int), threshold, b as int),
                None => forall|k: int|
                    0 <= k < i ==> !reaches(#[trigger] similarities@[k], threshold),
            },
        decreases similarities@.len() - i,
    {
        let s: u32 = similarities[i];
        let ghost before = similarities@.take(i as int);
        let ghost after = similarities@.take(i + 1);
        assert forall|k: int| 0 <= k < i implies #[trigger] after[k] == before[k] && before[k]
            == similarities@[k] by {}
        assert(after[i as int] == s);
        if threshold <= s && s < INFINITY_BITS {
            match best {
                Some(b) => {
                    if s > similarities[b] {
                        best = Some(i);
                    }
                },
                None => {
                    best = Some(i);
                },
            }
        }
        i = i + 1;
    }
    assert(similarities@.take(similarities@.len() as int) =~= similarities@);
    best
}

impl SemanticCache {
    /// A sidecar with room for this many entries per namespace.
    pub fn new(capacity: usize) -> (r: SemanticCache)
        ensures
            r@ == Seq::<EntryView>::empty(),
            r.room() == capacity,
    {
        let r = SemanticCache { entries: Vec::new(), capacity };
        assert(r@ =~= Seq::<EntryView>::empty());
        r
    }

    /// Entries per namespace that there is room for.
    pub closed spec fn room(&self) -> usize {
        self.capacity
    }

    /// Drops the entries of a namespace, save those of a generation.
    fn keep_only(&mut self, ns: &NamespaceId, generation: Option<u64>)
        ensures
            final(self)@ == entries_kept(old(self)@, ns@, generation),
            final(self).room() == old(self).room(),
    {
        let ghost all = self@;
        let mut kept: Vec<SemanticEntry> = Vec::new();
        let mut rest: Vec<SemanticEntry> = Vec::new();
        std::mem::swap(&mut rest, &mut self.entries);
        let ghost keep = |e: EntryView| e.namespace != ns@ || Some(e.generation) == generation;
        let ghost source = rest@;
        proof {
            assert(all =~= source.map_values(|e: SemanticEntry| e@));
            reveal(Seq::filter);
            assert(all.take(0).filter(keep) =~= Seq::empty());
        }
        for e in it: rest
            invariant
                it.seq() == source,
                all == source.map_values(|e: SemanticEntry| e@),
                keep == (|e: EntryView| e.namespace != ns@ || Some(e.generation) == generation),
                kept@.map_values(|e: SemanticEntry| e@) == all.take(it.index() as int).filter(keep),
        {
            proof {
                let n = it.index() as int;
                assert(all.take(n + 1).drop_last() =~= all.take(n));
                assert(all.take(n + 1).last() == e@);
                reveal(Seq::filter);
            }
            let ghost before = kept@;
            let stays = match generation {
                Some(g) => e.generation == g,
                None => false,
            };
            if stays || !text::same(e.namespace.as_str(), ns.as_str()) {
                kept.push(e);
                assert(kept@.map_values(|e: SemanticEntry| e@) =~= before.map_values(
                    |e: SemanticEntry| e@,
                ).push(e@));
            }
        }
        assert(all.take(all.len() as int) =~= all);
        self.entries = kept;
    }

    /// Drops every entry of a namespace.
    pub fn invalidate(&mut self, ns: &NamespaceId)
        ensures
            final(self)@ == entries_kept(old(self)@, ns@, None),
            final(self).room() == old(self).room(),
    {
        self.keep_only(ns, None);
    }

    /// Starts a lookup: drops the namespace's entries of other generations, and
    /// says whether any entry is left.
    pub fn refresh(&mut self, ns: &NamespaceId, generation: u64) -> (r: bool)
        ensures
            final(self)@ == entries_kept(old(self)@, ns@, Some(generation)),
            final(self).room() == old(self).room(),
            r == (entries_of(final(self)@, ns@).len() > 0),
    {
        self.keep_only(ns, Some(generation));
        self.entry_count(ns) > 0
    }

    /// Number of entries of a namespace.
    pub fn entry_count(&self, ns: &NamespaceId) -> (r: usize)
        ensures
            r == entries_of(self@, ns@).len(),
    {
        let ghost all = self@;
        let ghost mine = |e: EntryView| e.namespace == ns@;
        let mut n: usize = 0;
        let mut i: usize = 0;
        proof {
            reveal(Seq::filter);
            assert(all.take(0).filter(mine) =~= Seq::empty());
        }
        while i < self.entries.len()
            invariant
                i <= self.entries@.len(),
                n <= i,
                all == self@,
                all.len() == self.entries@.len(),
                mine == (|e: EntryView| e.namespace == ns@),
                n == all.take(i as int).filter(mine).len(),
            decreases self.entries@.len() - i,
        {
            proof {
                assert(all.take(i + 1).drop_last() =~= all.take(i as int));
                assert(all.take(i + 1).last() == self.entries@[i as int]@);
                reveal(Seq::filter);
            }
            if text::same(self.entries[i].namespace.as_str(), ns.as_str()) {
                n = n + 1;
            }
            i = i + 1;
        }
        assert(all.take(all.len() as int) =~= all);
        n
    }

    /// The positions of the entries that may answer a query of this shape, in
    /// order.
    pub fn candidates(
        &self,
        ns: &NamespaceId,
        generation: u64,
        k: usize,
        nprobes: usize,
        include_vector: bool,
        dim: usize,
    ) -> (r: Vec<usize>)
        ensures
            forall|i: int|
                0 <= i < r@.len() ==> #[trigger] r@[i] < self@.len() && usable(
                    self@[r@[i] as int],
                    ns@,
                    generation,
                    k,
                    nprobes,
                    include_vector,
                    dim as nat,
                ),
            forall|p: int|
                0 <= p < self@.len() && usable(
                    #[trigger] self@[p],
                    ns@,
                    generation,
                    k,
                    nprobes,
                    include_vector,
                    dim as nat,
                ) ==> r@.contains(p as usize),
            forall|i: int, j: int| 0 <= i < j < r@.len() ==> r@[i] < r@[j],
    {
        let mut out: Vec<usize> = Vec::new();
        let mut p: usize = 0;
        while p < self.entries.len()
            invariant
                p <= self.entries@.len(),
                self@.len() == self.entries@.len(),
                forall|i: int|
                    0 <= i < out@.len() ==> #[trigger] out@[i] < p && usable(
                        self@[out@[i] as int],
                        ns@,
                        generation,
                        k,
                        nprobes,
                        include_vector,
                        dim as nat,
                    ),
                forall|q: int|
                    0 <= q < p && usable(
                        #[trigger] self@[q],
                        ns@,
                        generation,
                        k,
                        nprobes,
                        include_vector,
                        dim as nat,
                    ) ==> out@.contains(q as usize),
                forall|i: int, j: int| 0 <= i < j < out@.len() ==> out@[i] < out@[j],
            decreases self.entries@.len() - p,
        {
            let e = &self.entries[p];
            let ghost before = out@;
            assert(self@[p as int] == e@);
            if e.generation == generation && e.k == k && e.nprobes == nprobes && e.include_vector
                == include_vector && e.vector.len() == dim && text::same(
                e.namespace.as_str(),
                ns.as_str(),
            ) {
                out.push(p);
                assert(out@[before.len() as int] == p);
            }
            proof {
                assert forall|q: int|
                    0 <= q < p + 1 && usable(
                        #[trigger] self@[q],
                        ns@,
                        generation,
                        k,
                        nprobes,
                        include_vector,
                        dim as nat,
                    ) implies out@.contains(q as usize) by {
                    if q < p {
                        let i = choose|i: int| 0 <= i < before.len() && before[i] == q as usize;
                        assert(out@[i] == q as usize);
                    } else {
                        assert(out@[before.len() as int] == q as usize);
                    }
                }
            }
            p = p + 1;
        }
        out
    }

    /// The query vector of an entry.
    pub fn vector_at(&self, position: usize) -> (r: &Vec<u32>)
        requires
            position < self@.len(),
        ensures
            r@ == self@[position as int].vector,
    {
        &self.entries[position].vector
    }

    /// Ends a lookup: the result of the closest candidate, where it is close
    /// enough.
    pub fn lookup(&self, positions: &Vec<usize>, similarities: &Vec<u32>, threshold: u32) -> (r:
        SemanticLookup)
        requires
            positions@.len() == similarities@.len(),
            forall|i: int| 0 <= i < positions@.len() ==> #[trigger] positions@[i] < self@.len(),
        ensures
            match r {
                SemanticLookup::Hit(bytes) => exists|i: int| #[trigger]
                    is_best(similarities@, threshold, i) && bytes@
                        == self@[positions@[i] as int].bytes,
                SemanticLookup::Miss => forall|i: int|
                    0 <= i < similarities@.len() ==> !reaches(
                        #[trigger] similarities@[i],
                        threshold,
                    ),
                SemanticLookup::EmptyIndex => false,
            },
    {
        match pick_best(similarities, threshold) {
            Some(i) => {
                assert(positions@[i as int] < self@.len());
                SemanticLookup::Hit(copy_bytes(&self.entries[positions[i]].bytes))
            },
            None => SemanticLookup::Miss,
        }
    }

    /// Adds an entry; where its namespace has no room left, the oldest goes.
    pub fn insert(&mut self, entry: SemanticEntry)
        ensures
            final(self)@ == entries_with(old(self)@, entry@, old(self).room() as nat),
            final(self).room() == old(self).room(),
    {
        let namespace = entry.namespace.clone();
        let ghost all = self@.push(entry@);
        self.entries.push(entry);
        assert(self@ =~= all);
        let ghost mine = |e: EntryView| e.namespace == namespace@;
        let mut n: usize = 0;
        let mut first: usize = self.entries.len();
        let mut i: usize = 0;
        proof {
            reveal(Seq::filter);
            assert(all.take(0).filter(mine) =~= Seq::empty());
        }
        while i < self.entries.len()
            invariant
                i <= self.entries@.len(),
                n <= i,
                all == self@,
                all.len() == self.entries@.len(),
                mine == (|e: EntryView| e.namespace == namespace@),
                n == all.take(i as int).filter(mine).len(),
                n == 0 ==> first == all.len() && first_of(all, namespace@, 0) == first_of(
                    all,
                    namespace@,
                    i as int,
                ),
                n > 0 ==> first < i && first == first_of(all, namespace@, 0),
            decreases self.entries@.len() - i,
        {
            proof {
                assert(all.take(i + 1).drop_last() =~= all.take(i as int));
                assert(all.take(i + 1).last() == self.entries@[i as int]@);
                reveal(Seq::filter);
            }
            if text::same(self.entries[i].namespace.as_str(), namespace.as_str()) {
                if n == 0 {
                    first = i;
                }
                n = n + 1;
            }
            i = i + 1;
        }
        assert(all.take(all.len() as int) =~= all);
        if n > self.capacity {
            let ghost before = self.entries@;
            self.entries.remove(first);
            assert(self@ =~= all.remove(first as int));
        }
    }
}

/// A copy of some bytes.
pub fn copy_bytes(v: &Vec<u8>) -> (r: Vec<u8>)
    ensures
        r@ == v@,
{
    let mut out: Vec<u8> = Vec::new();
    let mut i: usize = 0;
    while i < v.len()
        invariant
            i <= v@.len(),
            out@ == v@.take(i as int),
        decreases v@.len() - i,
    {
        out.push(v[i]);
        i = i + 1;
    }
    assert(v@.take(v@.len() as int) =~= v@);
    out
}

// ------------------------------------------------------------------ laws
/// A result stored under one generation is not found under another: keys of
/// different generations, namespaces or queries are different keys.
pub proof fn law_generations_separate_results(
    before: Map<Seq<char>, u64>,
    after: Map<Seq<char>, u64>,
    ns: Seq<char>,
    query: QueryHash,
)
    requires
        current_generation(before, ns) != current_generation(after, ns),
    ensures
        (ns, current_generation(before, ns), query) != (ns, current_generation(after, ns), query),
{
}

/// Setting the generation that a namespace has already keeps every stored
/// result in reach; moving it on puts all of them out of reach, and touches no
/// other namespace.
pub proof fn law_generation_moves_are_local(
    m: Map<Seq<char>, u64>,
    ns: Seq<char>,
    other: Seq<char>,
    generation: u64,
)
    requires
        other != ns,
    ensures
        current_generation(m.insert(ns, generation), ns) == generation,
        current_generation(m.insert(ns, generation), other) == current_generation(m, other),
        current_generation(m.insert(ns, current_generation(m, ns)), ns) == current_generation(
            m,
            ns,
        ),
        current_generation(m.insert(ns, prom::one_more(current_generation(m, ns))), ns)
            != current_generation(m, ns),
{
}

/// Whether every namespace has at most `room` entries.
pub open spec fn within_room(s: Seq<EntryView>, room: nat) -> bool {
    forall|ns: Seq<char>| (#[trigger] entries_of(s, ns)).len() <= room
}

proof fn lemma_first_of(s: Seq<EntryView>, ns: Seq<char>, from: int)
    requires
        0 <= from,
        exists|i: int| from <= i < s.len() && #[trigger] s[i].namespace == ns,
    ensures
        from <= first_of(s, ns, from) < s.len(),
        s[first_of(s, ns, from)].namespace == ns,
    decreases s.len() - from,
{
    if s[from].namespace != ns {
        let i = choose|i: int| from <= i < s.len() && #[trigger] s[i].namespace == ns;
        assert(s[i].namespace == ns && from + 1 <= i);
        lemma_first_of(s, ns, from + 1);
    }
}

/// The sidecar never holds more entries of a namespace than it has room for.
pub proof fn law_sidecar_is_bounded(s: Seq<EntryView>, e: EntryView, room: nat)
    requires
        within_room(s, room),
    ensures
        within_room(entries_with(s, e, room), room),
{
    let all = s.push(e);
    assert forall|ns: Seq<char>| (#[trigger] entries_of(entries_with(s, e, room), ns)).len()
        <= room by {
        let mine = |x: EntryView| x.namespace == ns;
        let one = seq![e];
        assert(all =~= s + one);
        Seq::filter_distributes_over_add(s, one, mine);
        assert(one.filter(mine).len() == (if e.namespace == ns {
            1int
        } else {
            0
        })) by {
            reveal(Seq::filter);
            assert(one.drop_last() =~= Seq::<EntryView>::empty());
            assert(one.drop_last().filter(mine).len() == 0);
        }
        assert(entries_of(s, ns).len() <= room);
        if entries_of(all, e.namespace).len() > room {
            assert(all[s.len() as int].namespace == e.namespace);
            lemma_first_of(all, e.namespace, 0);
            let at = first_of(all, e.namespace, 0);
            let front = all.take(at);
            let gone = seq![all[at]];
            let back = all.skip(at + 1);
            assert(all =~= front + gone + back);
            assert(all.remove(at) =~= front + back);
            Seq::filter_distributes_over_add(front + gone, back, mine);
            Seq::filter_distributes_over_add(front, gone, mine);
            Seq::filter_distributes_over_add(front, back, mine);
            assert(gone.filter(mine).len() == (if e.namespace == ns {
                1int
            } else {
                0
            })) by {
                reveal(Seq::filter);
                assert(gone.drop_last() =~= Seq::<EntryView>::empty());
                assert(gone.drop_last().filter(mine).len() == 0);
            }
        }
    }
}

/// After an invalidation the sidecar holds no entry of the namespace; after a
/// lookup it holds none of another generation.
pub proof fn law_sidecar_forgets(
    s: Seq<EntryView>,
    ns: Seq<char>,
    generation: u64,
    i: int,
)
    ensures
        0 <= i < entries_kept(s, ns, None).len() ==> entries_kept(s, ns, None)[i].namespace != ns,
        0 <= i < entries_kept(s, ns, Some(generation)).len() && entries_kept(
            s,
            ns,
            Some(generation),
        )[i].namespace == ns ==> entries_kept(s, ns, Some(generation))[i].generation == generation,
{
    let none = |e: EntryView| e.namespace != ns || Some(e.generation) == None::<u64>;
    let same = |e: EntryView| e.namespace != ns || Some(e.generation) == Some(generation);
    if 0 <= i < s.filter(none).len() {
        s.lemma_filter_pred(none, i);
    }
    if 0 <= i < s.filter(same).len() {
        s.lemma_filter_pred(same, i);
    }
}

/// A similarity reaches a threshold exactly where it is a finite number that is not
/// negative and not below the threshold. One that is equal reaches it, and what
/// reaches a threshold reaches every lower one.
pub proof fn law_reaching_a_threshold(similarity: u32, threshold: u32, lower: u32)
    ensures
        reaches(similarity, threshold) <==> threshold <= similarity && similarity < 0x7F80_0000,
        threshold < 0x7F80_0000 ==> reaches(threshold, threshold),
        lower <= threshold && reaches(similarity, threshold) ==> reaches(similarity, lower),
{
}

/// Of the similarities that reach the threshold the best is the highest, and the
/// first of those; there is no other best.
pub proof fn law_the_best_is_the_highest(similarities: Seq<u32>, threshold: u32, a: int, b: int)
    requires
        is_best(similarities, threshold, a),
    ensures
        0 <= a < similarities.len(),
        threshold <= similarities[a] < 0x7F80_0000,
        0 <= b < similarities.len() && threshold <= similarities[b] < 0x7F80_0000
            ==> similarities[b] < similarities[a] || (similarities[b] == similarities[a] && a <= b),
        is_best(similarities, threshold, b) ==> a == b,
{
    if 0 <= b < similarities.len() && threshold <= similarities[b] < 0x7F80_0000 {
        assert(reaches(similarities[b], threshold));
    }
    if is_best(similarities, threshold, b) {
        assert(reaches(similarities[a], threshold));
    }
}

/// Dropping the entries of a namespace drops nothing else: entries of other
/// namespaces stay, and so do those of the generation that is kept; and nothing is
/// there that was not there before.
pub proof fn law_dropping_entries_spares_the_others(
    s: Seq<EntryView>,
    ns: Seq<char>,
    generation: Option<u64>,
    e: EntryView,
)
    ensures
        entries_kept(s, ns, generation).contains(e) <==> s.contains(e) && (e.namespace != ns
            || generation == Some(e.generation)),
{
    let keep = |e: EntryView| e.namespace != ns || Some(e.generation) == generation;
    let kept = s.filter(keep);
    if kept.contains(e) {
        s.lemma_filter_contains_rev(keep, e);
        let i = choose|i: int| 0 <= i < kept.len() && kept[i] == e;
        s.lemma_filter_pred(keep, i);
    }
    if s.contains(e) && keep(e) {
        let i = choose|i: int| 0 <= i < s.len() && s[i] == e;
        s.lemma_filter_contains(keep, i);
    }
}

/// A new entry is the youngest of all. Where its namespace still has room, every
/// entry stays; where it has not, the oldest of the namespace goes and all others
/// stay, in the order in which they came.
pub proof fn law_the_oldest_entry_makes_room(s: Seq<EntryView>, e: EntryView, room: nat)
    requires
        room > 0,
    ensures
        ({
            let after = entries_with(s, e, room);
            &&& after.len() > 0 && after.last() == e
            &&& entries_of(s, e.namespace).len() < room ==> after == s.push(e)
            &&& entries_of(s, e.namespace).len() >= room ==> exists|gone: int| #![trigger s[gone]]
                0 <= gone < s.len() && s[gone].namespace == e.namespace && (forall|i: int|
                    0 <= i < gone ==> (#[trigger] s[i]).namespace != e.namespace) && after
                    == s.push(e).remove(gone)
        }),
{
    let mine = |x: EntryView| x.namespace == e.namespace;
    let all = s.push(e);
    let one = seq![e];
    assert(all =~= s + one);
    Seq::filter_distributes_over_add(s, one, mine);
    assert(one.filter(mine).len() == 1) by {
        reveal(Seq::filter);
        assert(one.drop_last() =~= Seq::<EntryView>::empty());
        assert(one.drop_last().filter(mine).len() == 0);
    }
    if entries_of(s, e.namespace).len() >= room {
        let first = s.filter(mine)[0];
        s.lemma_filter_pred(mine, 0);
        s.lemma_filter_contains_rev(mine, first);
        let i = choose|i: int| 0 <= i < s.len() && s[i] == first;
        assert(all[i].namespace == e.namespace);
        lemma_first_of(all, e.namespace, 0);
        lemma_first_of_is_first(all, e.namespace, 0);
        let gone = first_of(all, e.namespace, 0);
        assert(gone <= i);
        assert(s[gone] == all[gone]);
        assert forall|j: int| 0 <= j < gone implies (#[trigger] s[j]).namespace != e.namespace by {
            assert(all[j] == s[j]);
        }
        assert(all.remove(gone).last() == e);
    }
}

proof fn lemma_first_of_is_first(s: Seq<EntryView>, ns: Seq<char>, from: int)
    requires
        0 <= from,
    ensures
        forall|i: int| from <= i < first_of(s, ns, from) ==> (#[trigger] s[i]).namespace != ns,
        forall|i: int|
            from <= i < s.len() && (#[trigger] s[i]).namespace == ns ==> first_of(s, ns, from) <= i,
    decreases s.len() - from,
{
    if from < s.len() && s[from].namespace != ns {
        lemma_first_of_is_first(s, ns, from + 1);
    }
}

/// An entry may answer a query exactly where its namespace, generation, number of
/// results, partitions, choice of vectors and vector width are the query's.
pub proof fn law_usable_entries_have_the_querys_shape(
    e: EntryView,
    ns: Seq<char>,
    generation: u64,
    k: usize,
    nprobes: usize,
    include_vector: bool,
    dim: nat,
)
    ensures
        usable(e, ns, generation, k, nprobes, include_vector, dim) ==> e.namespace == ns
            && e.generation == generation && e.k == k && e.nprobes == nprobes && e.include_vector
            == include_vector && e.vector.len() == dim,
        e.namespace == ns && e.generation == generation && e.k == k && e.nprobes == nprobes
            && e.include_vector == include_vector && e.vector.len() == dim ==> usable(
            e,
            ns,
            generation,
            k,
            nprobes,
            include_vector,
            dim,
        ),
{
}

/// The sidecar has room for 1024 entries of a namespace unless it is told
/// otherwise, and a namespace without a generation is at generation 0.
pub proof fn law_cache_defaults(m: Map<Seq<char>, u64>, ns: Seq<char>)
    ensures
        DEFAULT_SEMANTIC_CAPACITY == 1024,
        !m.dom().contains(ns) ==> current_generation(m, ns) == 0,
        m.dom().contains(ns) ==> current_generation(m, ns) == m[ns],
{
}

/// A lookup in the exact cache is counted as what it was, a hit or a miss, once and in
/// its namespace, and as nothing else.
pub proof fn law_lookups_are_counted_as_what_they_were(m: MetricsView, ns: Seq<char>)
    ensures
        ({
            let hit = looked_up(m, ns, true);
            let miss = looked_up(m, ns, false);
            let slot = prom::label_slot(ns);
            &&& prom::count_in(hit.cache_hits, slot) == prom::one_more(
                prom::count_in(m.cache_hits, slot),
            )
            &&& hit.cache_misses == m.cache_misses
            &&& prom::count_in(miss.cache_misses, slot) == prom::one_more(
                prom::count_in(m.cache_misses, slot),
            )
            &&& miss.cache_hits == m.cache_hits
            &&& hit.s3_requests == m.s3_requests && miss.s3_requests == m.s3_requests
            &&& hit.seen.contains(ns) && miss.seen.contains(ns)
        }),
{
    metrics::law_slots_go_by_every_label(ns, ns);
    metrics::law_namespaces_are_active_once(m, ns);
}

/// A store that failed says in which step, and what the cause was.
pub proof fn law_store_failures_say_their_step(stage: StoreStage, cause: Seq<char>)
    ensures
        stage is Device ==> store_error(stage, cause) == ErrorView::Cache("device build: "@ + cause),
        stage is Hybrid ==> store_error(stage, cause) == ErrorView::Cache("hybrid build: "@ + cause),
        stage is Close ==> store_error(stage, cause) == ErrorView::Cache("cache close: "@ + cause),
        stage is IndexDevice ==> store_error(stage, cause) == ErrorView::Cache(
            "cachebackend device build: "@ + cause,
        ),
        stage is IndexHybrid ==> store_error(stage, cause) == ErrorView::Cache(
            "cachebackend hybrid build: "@ + cause,
        ),
{
}
/// A kept query is seen whole.
pub proof fn law_entries_are_seen_whole(e: SemanticEntry)
    ensures
        e@.namespace == e.namespace@,
        e@.generation == e.generation,
        e@.vector == e.vector@,
        e@.k == e.k,
        e@.nprobes == e.nprobes,
        e@.include_vector == e.include_vector,
        e@.bytes == e.bytes@,
{
}

} // verus!
