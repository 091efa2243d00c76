//! Namespace service: the read path through the caches and the write path that
//! invalidates them.
//!
//! A query looks into the exact cache, then, where the caller opted in, into
//! the sidecar of near-duplicates, and only then goes to storage. Every write
//! moves the version of the table, and with it the generation under which
//! results are found.
use vstd::prelude::*;
use crate::cache::{self, CacheKey, NamespaceCache, SemanticCache, SemanticEntry, SemanticLookup};
use crate::codec::{self, QueryHash};
use crate::error::{ErrorView, FirnflowError};
use crate::manager::{self, NamespaceManager, Step, StepView};
use crate::metrics::{self, CoreMetrics, MetricsView};
use crate::namespace::NamespaceId;
use crate::prom;
use crate::query::{self, QueryRequest, DEFAULT_NPROBES};
use crate::result::{HitView, QueryResultSet};
use crate::rows::UpsertRow;
use crate::vector;

verus! {

/// Where a query result came from.
#[derive(Debug, Clone, Copy, PartialEq, Eq, Structural)]
pub enum QueryCacheSource {
    /// Storage was searched.
    Backend,
    /// The exact result cache had it.
    ExactCache,
    /// A near-duplicate query's result was reused.
    SemanticCache,
}

/// How responses name a source.
pub open spec fn source_text(s: QueryCacheSource) -> Seq<char> {
    match s {
        QueryCacheSource::Backend => "backend"@,
        QueryCacheSource::ExactCache => "exact_cache"@,
        QueryCacheSource::SemanticCache => "semantic_cache"@,
    }
}

impl QueryCacheSource {
    /// How responses name the source.
    pub fn as_str(self) -> (r: &'static str)
        ensures
            r@ == source_text(self),
    {
        match self {
            QueryCacheSource::Backend => "backend",
            QueryCacheSource::ExactCache => "exact_cache",
            QueryCacheSource::SemanticCache => "semantic_cache",
        }
    }
}

/// A query result and where it came from.
#[derive(Debug, Clone, PartialEq)]
pub struct QueryOutcome {
    /// Ranked hits.
    pub result: QueryResultSet,
    /// Where they came from.
    pub cache_source: QueryCacheSource,
}

/// A query result by its contents, and its source.
pub type QueryOutcomeView = ((Seq<char>, Seq<HitView>), QueryCacheSource);

impl View for QueryOutcome {
    type V = QueryOutcomeView;

    open spec fn view(&self) -> QueryOutcomeView {
        (self.result@, self.cache_source)
    }
}

impl QueryOutcome {
    /// The result without its source.
    pub fn into_result(self) -> (r: QueryResultSet)
        ensures
            r == self.result,
    {
        self.result
    }
}

/// The label under which a query is measured.
pub open spec fn query_type(req: QueryRequest) -> Seq<char> {
    let single = req.vector@.len() > 0;
    let multi = query::has_vectors(req.vectors);
    if (single || multi) && req.text is Some {
        "hybrid"@
    } else if single {
        "vector"@
    } else if multi {
        "multivector"@
    } else if req.text is Some {
        "fts"@
    } else {
        "vector"@
    }
}

/// The label under which a query is measured.
pub fn classify_query_type(req: &QueryRequest) -> (r: &'static str)
    ensures
        r@ == query_type(*req),
{
    let has_single = req.vector.len() > 0;
    let has_multi = query::has_bag(&req.vectors);
    let has_text = req.text.is_some();
    match (has_single, has_multi, has_text) {
        (true, _, true) | (_, true, true) => "hybrid",
        (true, _, false) => "vector",
        (_, true, false) => "multivector",
        (false, false, true) => "fts",
        (false, false, false) => "vector",
    }
}

/// Whether a request opted into the semantic cache.
pub open spec fn opted_in(req: QueryRequest) -> bool {
    req.semantic_cache matches Some(s) && s.enabled
}

/// Whether a request may use the semantic cache: it opted in, and goes by one
/// vector alone, without text or filter.
pub open spec fn eligible(req: QueryRequest) -> bool {
    opted_in(req) && req.vector@.len() > 0 && !query::has_vectors(req.vectors) && req.text is None
        && req.filter is None
}

/// Whether a request may use the semantic cache.
pub fn semantic_eligible(req: &QueryRequest) -> (r: bool)
    ensures
        r == eligible(*req),
{
    let enabled = match &req.semantic_cache {
        Some(s) => s.enabled,
        None => false,
    };
    enabled && req.vector.len() > 0 && !query::has_bag(&req.vectors) && req.text.is_none()
        && req.filter.is_none()
}

/// A query on its way through the caches.
#[derive(Debug)]
pub struct QueryRun {
    /// The request.
    pub req: QueryRequest,
    /// Its key in the exact cache.
    pub hash: QueryHash,
    /// The generation under which it was looked up.
    pub generation: u64,
}

/// Whether a run is of a request that was checked, under its own key.
pub open spec fn run_ok(run: QueryRun) -> bool {
    query::semantic_check(run.req) is Ok && codec::request_key(run.req) == Ok::<
        QueryHash,
        ErrorView,
    >(run.hash)
}

/// The next step of a query.
#[derive(Debug)]
pub enum QueryStep {
    /// Read the namespace's generation, then [`NamespaceService::on_generation`].
    Generation(QueryRun),
    /// Look the key up in the exact cache, then [`NamespaceService::on_exact`].
    LookupExact(CacheKey, QueryRun),
    /// Look for a near-duplicate of the request's vector with this threshold,
    /// then [`NamespaceService::on_semantic`].
    LookupSemantic(u32, QueryRun),
    /// Search storage, then [`NamespaceService::on_backend`].
    Search(QueryRun),
    /// Store the bytes under the key, and end with the outcome.
    Store(CacheKey, Vec<u8>, QueryOutcome),
    /// The end.
    Finish(Result<QueryOutcome, FirnflowError>),
}

/// A step by its contents.
pub enum QueryStepView {
    Generation(QueryRun),
    LookupExact(cache::KeyView, QueryRun),
    LookupSemantic(u32, QueryRun),
    Search(QueryRun),
    Store(cache::KeyView, Seq<u8>, QueryOutcomeView),
    Finish(Result<QueryOutcomeView, ErrorView>),
}

impl View for QueryStep {
    type V = QueryStepView;

    open spec fn view(&self) -> QueryStepView {
        match *self {
            QueryStep::Generation(run) => QueryStepView::Generation(run),
            QueryStep::LookupExact(key, run) => QueryStepView::LookupExact(key@, run),
            QueryStep::LookupSemantic(t, run) => QueryStepView::LookupSemantic(t, run),
            QueryStep::Search(run) => QueryStepView::Search(run),
            QueryStep::Store(key, bytes, outcome) => QueryStepView::Store(
                key@,
                bytes@,
                outcome@,
            ),
            QueryStep::Finish(r) => QueryStepView::Finish(
                match r {
                    Ok(o) => Ok(o@),
                    Err(e) => Err(e@),
                },
            ),
        }
    }
}

/// Starts a query: the semantic-cache controls are checked first, before any
/// cache or storage work.
pub open spec fn started(req: QueryRequest) -> QueryStepView {
    match query::semantic_check(req) {
        Err(e) => QueryStepView::Finish(Err(e)),
        Ok(()) => match codec::request_key(req) {
            Err(e) => QueryStepView::Finish(Err(e)),
            Ok(hash) => QueryStepView::Generation(QueryRun { req, hash, generation: 0 }),
        },
    }
}

/// The metrics after a query has been answered.
pub open spec fn query_done(
    m: MetricsView,
    ns: Seq<char>,
    req: QueryRequest,
    nanos: u64,
) -> MetricsView {
    MetricsView {
        query_duration: prom::noted(
            m.query_duration,
            metrics::slot2(ns, query_type(req)),
            nanos,
        ),
        ..metrics::touched(m, ns)
    }
}

/// What a cached result is answered with: the result and its source, or that
/// it cannot be read.
pub open spec fn served(bytes: Seq<u8>, source: QueryCacheSource) -> QueryStepView {
    QueryStepView::Finish(
        match codec::uncached(bytes) {
            Ok(set) => Ok((set, source)),
            Err(e) => Err(e),
        },
    )
}

/// The step after a miss in the exact cache.
pub open spec fn after_miss(run: QueryRun) -> QueryStepView {
    if eligible(run.req) {
        QueryStepView::LookupSemantic(
            query::threshold_bits(run.req.semantic_cache->0),
            run,
        )
    } else {
        QueryStepView::Search(run)
    }
}

/// The metrics after the exact cache was looked into. A miss that goes straight
/// to storage is a storage request.
pub open spec fn after_exact(
    m: MetricsView,
    ns: Seq<char>,
    run: QueryRun,
    found: Option<Seq<u8>>,
    nanos: u64,
) -> MetricsView {
    match found {
        Some(bytes) => {
            let hit = cache::looked_up(m, ns, true);
            if codec::uncached(bytes) is Ok {
                query_done(hit, ns, run.req, nanos)
            } else {
                hit
            }
        },
        None => {
            let miss = cache::looked_up(m, ns, false);
            if eligible(run.req) {
                miss
            } else {
                metrics::storage_request(miss, ns, "query"@)
            }
        },
    }
}

/// The metrics after a semantic hit.
pub open spec fn semantic_hit(m: MetricsView, ns: Seq<char>) -> MetricsView {
    MetricsView {
        semantic_cache_hits: prom::bumped(m.semantic_cache_hits, metrics::slot1(ns)),
        ..metrics::touched(m, ns)
    }
}

/// The metrics after a semantic miss.
pub open spec fn semantic_miss(m: MetricsView, ns: Seq<char>) -> MetricsView {
    MetricsView {
        semantic_cache_misses: prom::bumped(m.semantic_cache_misses, metrics::slot1(ns)),
        ..metrics::touched(m, ns)
    }
}

/// The metrics after a semantic rejection.
pub open spec fn semantic_rejection(m: MetricsView, ns: Seq<char>, reason: Seq<char>) -> MetricsView {
    MetricsView {
        semantic_cache_rejections: prom::bumped(
            m.semantic_cache_rejections,
            metrics::slot2(ns, reason),
        ),
        ..metrics::touched(m, ns)
    }
}

/// The metrics after the sidecar was looked into.
pub open spec fn after_semantic(
    m: MetricsView,
    ns: Seq<char>,
    run: QueryRun,
    lookup: SemanticLookup,
    nanos: u64,
) -> MetricsView {
    match lookup {
        SemanticLookup::Hit(bytes) => if codec::uncached(bytes@) is Ok {
            query_done(semantic_hit(m, ns), ns, run.req, nanos)
        } else {
            m
        },
        SemanticLookup::Miss => metrics::storage_request(semantic_miss(m, ns), ns, "query"@),
        SemanticLookup::EmptyIndex => metrics::storage_request(
            semantic_rejection(m, ns, "empty_index"@),
            ns,
            "query"@,
        ),
    }
}

/// The sidecar entry of an answered query.
pub open spec fn entry_for(ns: Seq<char>, run: QueryRun, bytes: Seq<u8>) -> cache::EntryView {
    cache::EntryView {
        namespace: ns,
        generation: run.generation,
        vector: run.req.vector@,
        k: run.req.k,
        nprobes: manager::probes(run.req.nprobes),
        include_vector: run.req.include_vector,
        bytes,
    }
}

/// Whether an entry may answer a run: its namespace, generation, number of
/// results, probes, projection and vector width are the run's.
pub open spec fn answers(e: cache::EntryView, ns: Seq<char>, run: QueryRun) -> bool {
    cache::usable(
        e,
        ns,
        run.generation,
        run.req.k,
        manager::probes(run.req.nprobes),
        run.req.include_vector,
        run.req.vector@.len(),
    )
}

/// Whether these are the positions of the entries that may answer a run, each
/// once and in order.
pub open spec fn may_answer(
    s: Seq<cache::EntryView>,
    ns: Seq<char>,
    run: QueryRun,
    positions: Seq<usize>,
) -> bool {
    &&& forall|i: int|
        0 <= i < positions.len() ==> #[trigger] positions[i] < s.len() && answers(
            s[positions[i] as int],
            ns,
            run,
        )
    &&& forall|p: int|
        0 <= p < s.len() && answers(#[trigger] s[p], ns, run) ==> positions.contains(p as usize)
    &&& forall|i: int, j: int| 0 <= i < j < positions.len() ==> positions[i] < positions[j]
}

/// An operation of the write path.
#[derive(Debug, Clone, Copy, PartialEq, Eq, Structural)]
pub enum WriteOp {
    Upsert,
    Delete,
    Index,
    FtsIndex,
    ScalarIndex,
    Compact,
    Import,
}

/// The label under which an operation's storage requests are counted.
pub open spec fn op_label(op: WriteOp) -> Seq<char> {
    match op {
        WriteOp::Upsert => "upsert"@,
        WriteOp::Delete => "delete"@,
        WriteOp::Index => "index"@,
        WriteOp::FtsIndex => "fts_index"@,
        WriteOp::ScalarIndex => "scalar_index"@,
        WriteOp::Compact => "compact"@,
        WriteOp::Import => "import"@,
    }
}

/// Whether an operation clears the sidecar.
pub open spec fn clears_sidecar(op: WriteOp) -> bool {
    op is Upsert || op is Delete || op is Compact || op is Import
}

/// The metrics after an operation has succeeded.
pub open spec fn write_done(m: MetricsView, ns: Seq<char>, op: WriteOp, nanos: u64) -> MetricsView {
    match op {
        WriteOp::Upsert | WriteOp::Delete | WriteOp::Import => MetricsView {
            write_duration: prom::noted(m.write_duration, metrics::slot1(ns), nanos),
            ..metrics::touched(m, ns)
        },
        WriteOp::Index => build_done(m, ns, "ivf_pq"@, nanos),
        WriteOp::FtsIndex => build_done(m, ns, "fts"@, nanos),
        WriteOp::ScalarIndex => build_done(m, ns, "scalar"@, nanos),
        WriteOp::Compact => MetricsView {
            compaction_duration: prom::noted(m.compaction_duration, metrics::slot1(ns), nanos),
            ..metrics::touched(m, ns)
        },
    }
}

/// The metrics after an index build.
pub open spec fn build_done(m: MetricsView, ns: Seq<char>, kind: Seq<char>, nanos: u64) -> MetricsView {
    MetricsView {
        index_build_duration: prom::noted(
            m.index_build_duration,
            metrics::slot2(ns, kind),
            nanos,
        ),
        ..metrics::touched(m, ns)
    }
}

/// The manager, the caches and the metrics of one service.
pub struct NamespaceService {
    /// Tables of the namespaces.
    pub manager: NamespaceManager,
    /// Exact result cache.
    pub cache: NamespaceCache,
    /// Sidecar of near-duplicate queries.
    pub semantic: SemanticCache,
    /// Metrics.
    pub metrics: CoreMetrics,
}

impl NamespaceService {
    /// Manager and metrics are well formed, and the gauge counts the pool.
    pub open spec fn wf(&self) -> bool {
        self.manager.wf() && self.metrics.wf() && manager::counted(self.manager@, self.metrics@)
    }

    /// A service with an empty sidecar of the default capacity.
    pub fn new(manager: NamespaceManager, cache: NamespaceCache, metrics: CoreMetrics) -> (r:
        NamespaceService)
        requires
            manager.wf(),
            metrics.wf(),
            manager::counted(manager@, metrics@),
        ensures
            r.wf(),
            r.manager == manager,
            r.cache == cache,
            r.metrics == metrics,
            r.semantic@ == Seq::<cache::EntryView>::empty(),
            r.semantic.room() == cache::DEFAULT_SEMANTIC_CAPACITY,
    {
        NamespaceService {
            manager,
            cache,
            semantic: SemanticCache::new(cache::DEFAULT_SEMANTIC_CAPACITY),
            metrics,
        }
    }

    /// A service with a given sidecar.
    pub fn with_semantic_cache(
        manager: NamespaceManager,
        cache: NamespaceCache,
        semantic: SemanticCache,
        metrics: CoreMetrics,
    ) -> (r: NamespaceService)
        requires
            manager.wf(),
            metrics.wf(),
            manager::counted(manager@, metrics@),
        ensures
            r.wf(),
            r == (NamespaceService { manager, cache, semantic, metrics }),
    {
        NamespaceService { manager, cache, semantic, metrics }
    }

    /// Starts a query.
    pub fn query_with_cache_source(&self, req: QueryRequest) -> (r: QueryStep)
        ensures
            r@ == started(req),
            r is Generation <==> query::semantic_check(req) is Ok,
            r matches QueryStep::Generation(run) ==> run_ok(run),
    {
        match query::validate_semantic_cache_request(&req) {
            Ok(()) => {},
            Err(e) => {
                return QueryStep::Finish(Err(e));
            },
        }
        match codec::hash_query_for_cache(&req) {
            Ok(hash) => QueryStep::Generation(QueryRun { req, hash, generation: 0 }),
            Err(e) => QueryStep::Finish(Err(e)),
        }
    }

    /// Starts a query whose source does not matter; [`QueryOutcome::into_result`]
    /// drops it in the end.
    pub fn query(&self, req: QueryRequest) -> (r: QueryStep)
        ensures
            r@ == started(req),
            r is Generation <==> query::semantic_check(req) is Ok,
            r matches QueryStep::Generation(run) ==> run_ok(run),
    {
        self.query_with_cache_source(req)
    }

    /// The sidecar.
    pub fn semantic_cache(&mut self) -> (r: &mut SemanticCache)
        requires
            old(self).wf(),
        ensures
            *r == old(self).semantic,
            *final(self) == (NamespaceService { semantic: *final(r), ..*old(self) }),
    {
        &mut self.semantic
    }

    /// Goes on once the generation of the namespace was read: both caches go by
    /// it from here on.
    pub fn on_generation(
        &mut self,
        ns: &NamespaceId,
        run: QueryRun,
        generation: Result<u64, FirnflowError>,
    ) -> (r: QueryStep)
        requires
            old(self).wf(),
            run_ok(run),
        ensures
            final(self).wf(),
            final(self).manager == old(self).manager,
            final(self).semantic == old(self).semantic,
            final(self).metrics == old(self).metrics,
            match generation {
                Ok(g) => final(self).cache@ == old(self).cache@.insert(ns@, g) && r@
                    == QueryStepView::LookupExact(
                    (ns@, g, run.hash),
                    (QueryRun { generation: g, ..run }),
                ),
                Err(e) => final(self).cache@ == old(self).cache@ && r@ == QueryStepView::Finish(
                    Err(e@),
                ),
            },
            r matches QueryStep::LookupExact(_, next) ==> run_ok(next),
    {
        match generation {
            Ok(g) => {
                self.cache.set_generation(ns, g);
                let key = self.cache.try_get(ns, run.hash);
                let captured: u64 = key.generation;
                QueryStep::LookupExact(
                    key,
                    QueryRun { req: run.req, hash: run.hash, generation: captured },
                )
            },
            Err(e) => QueryStep::Finish(Err(e)),
        }
    }

    /// Answers from cached bytes.
    fn serve(
        &mut self,
        ns: &NamespaceId,
        run: &QueryRun,
        bytes: &Vec<u8>,
        source: QueryCacheSource,
        nanos: u64,
    ) -> (r: QueryStep)
        requires
            old(self).wf(),
        ensures
            final(self).wf(),
            final(self).manager == old(self).manager,
            final(self).semantic == old(self).semantic,
            final(self).cache == old(self).cache,
            r@ == served(bytes@, source),
            final(self).metrics@ == (if codec::uncached(bytes@) is Ok {
                let m = if source is SemanticCache {
                    semantic_hit(old(self).metrics@, ns@)
                } else {
                    old(self).metrics@
                };
                query_done(m, ns@, run.req, nanos)
            } else {
                old(self).metrics@
            }),
    {
        match codec::decode_payload(bytes) {
            Ok(result) => {
                if source == QueryCacheSource::SemanticCache {
                    self.metrics.record_semantic_cache_hit(ns);
                }
                self.metrics.record_query(ns, classify_query_type(&run.req), nanos);
                QueryStep::Finish(Ok(QueryOutcome { result, cache_source: source }))
            },
            Err(e) => QueryStep::Finish(Err(e)),
        }
    }

    /// Goes on once the exact cache was looked into.
    pub fn on_exact(
        &mut self,
        ns: &NamespaceId,
        run: QueryRun,
        found: Option<Vec<u8>>,
        nanos: u64,
    ) -> (r: QueryStep)
        requires
            old(self).wf(),
            run_ok(run),
        ensures
            final(self).wf(),
            final(self).manager == old(self).manager,
            final(self).semantic == old(self).semantic,
            final(self).cache == old(self).cache,
            match found {
                Some(bytes) => r@ == served(bytes@, QueryCacheSource::ExactCache)
                    && final(self).metrics@ == after_exact(
                    old(self).metrics@,
                    ns@,
                    run,
                    Some(bytes@),
                    nanos,
                ),
                None => r@ == after_miss(run) && final(self).metrics@ == after_exact(
                    old(self).metrics@,
                    ns@,
                    run,
                    None,
                    nanos,
                ),
            },
    {
        self.cache.on_try_get(&mut self.metrics, ns, found.is_some());
        match found {
            Some(bytes) => self.serve(ns, &run, &bytes, QueryCacheSource::ExactCache, nanos),
            None => {
                if semantic_eligible(&run.req) {
                    let threshold: u32 = match &run.req.semantic_cache {
                        Some(sem) => query::effective_semantic_threshold(sem),
                        None => query::DEFAULT_SEMANTIC_MIN_SIMILARITY,
                    };
                    QueryStep::LookupSemantic(threshold, run)
                } else {
                    self.metrics.record_s3_request(ns, "query");
                    QueryStep::Search(run)
                }
            },
        }
    }

    /// Starts a lookup in the sidecar: drops the namespace's entries of other
    /// generations, and gives the positions of those that may answer the run, in
    /// order; none where no entry is left at all. Their similarities are compared
    /// by [`SemanticCache::lookup`].
    pub fn look_aside(&mut self, ns: &NamespaceId, run: &QueryRun) -> (r: Option<Vec<usize>>)
        requires
            old(self).wf(),
        ensures
            final(self).wf(),
            final(self).manager == old(self).manager,
            final(self).cache == old(self).cache,
            final(self).metrics == old(self).metrics,
            final(self).semantic.room() == old(self).semantic.room(),
            final(self).semantic@ == cache::entries_kept(
                old(self).semantic@,
                ns@,
                Some(run.generation),
            ),
            r is None <==> cache::entries_of(final(self).semantic@, ns@).len() == 0,
            r matches Some(positions) ==> may_answer(
                final(self).semantic@,
                ns@,
                *run,
                positions@,
            ),
    {
        if !self.semantic.refresh(ns, run.generation) {
            return None;
        }
        let nprobes: usize = match run.req.nprobes {
            Some(n) => n,
            None => DEFAULT_NPROBES,
        };
        Some(
            self.semantic.candidates(
                ns,
                run.generation,
                run.req.k,
                nprobes,
                run.req.include_vector,
                run.req.vector.len(),
            ),
        )
    }

    /// Goes on once the sidecar was looked into.
    pub fn on_semantic(
        &mut self,
        ns: &NamespaceId,
        run: QueryRun,
        lookup: SemanticLookup,
        nanos: u64,
    ) -> (r: QueryStep)
        requires
            old(self).wf(),
            run_ok(run),
        ensures
            final(self).wf(),
            final(self).manager == old(self).manager,
            final(self).semantic == old(self).semantic,
            final(self).cache == old(self).cache,
            final(self).metrics@ == after_semantic(
                old(self).metrics@,
                ns@,
                run,
                lookup,
                nanos,
            ),
            r@ == (match lookup {
                SemanticLookup::Hit(bytes) => served(bytes@, QueryCacheSource::SemanticCache),
                _ => QueryStepView::Search(run),
            }),
    {
        match lookup {
            SemanticLookup::Hit(bytes) => self.serve(
                ns,
                &run,
                &bytes,
                QueryCacheSource::SemanticCache,
                nanos,
            ),
            SemanticLookup::Miss => {
                self.metrics.record_semantic_cache_miss(ns);
                self.metrics.record_s3_request(ns, "query");
                QueryStep::Search(run)
            },
            SemanticLookup::EmptyIndex => {
                self.metrics.record_semantic_cache_rejection(ns, "empty_index");
                self.metrics.record_s3_request(ns, "query");
                QueryStep::Search(run)
            },
        }
    }

    /// Goes on once storage was searched: the result is stored under the
    /// generation that was captured before the search, so that a write in
    /// between leaves it out of reach rather than stale.
    pub fn on_backend(
        &mut self,
        ns: &NamespaceId,
        run: QueryRun,
        result: Result<QueryResultSet, FirnflowError>,
        nanos: u64,
    ) -> (r: QueryStep)
        requires
            old(self).wf(),
            run_ok(run),
        ensures
            final(self).wf(),
            final(self).manager == old(self).manager,
            final(self).cache == old(self).cache,
            r is Store <==> result is Ok,
            match result {
                Err(e) => r@ == QueryStepView::Finish(Err(e@)) && final(self).semantic@ == old(
                    self,
                ).semantic@ && final(self).metrics@ == old(self).metrics@,
                Ok(set) => match codec::cached_form(set@.0, set@.1) {
                    Err(e) => r@ == QueryStepView::Finish(Err(e)) && final(self).semantic@ == old(
                        self,
                    ).semantic@ && final(self).metrics@ == old(self).metrics@,
                    Ok(bytes) => {
                        &&& r@ == QueryStepView::Store(
                            (ns@, run.generation, run.hash),
                            bytes,
                            (set@, QueryCacheSource::Backend),
                        )
                        &&& codec::uncached(bytes) == Ok::<
                            (Seq<char>, Seq<HitView>),
                            ErrorView,
                        >(set@)
                        &&& final(self).metrics@ == query_done(
                            old(self).metrics@,
                            ns@,
                            run.req,
                            nanos,
                        )
                        &&& final(self).semantic@ == (if eligible(run.req) {
                            cache::entries_with(
                                old(self).semantic@,
                                entry_for(ns@, run, bytes),
                                old(self).semantic.room() as nat,
                            )
                        } else {
                            old(self).semantic@
                        })
                    },
                },
            },
            final(self).semantic.room() == old(self).semantic.room(),
    {
        let result = match result {
            Ok(set) => set,
            Err(e) => {
                return QueryStep::Finish(Err(e));
            },
        };
        let bytes = match codec::encode_payload(&result) {
            Ok(b) => b,
            Err(e) => {
                return QueryStep::Finish(Err(e));
            },
        };
        let key = NamespaceCache::populate_with_generation(ns, run.generation, run.hash);
        if semantic_eligible(&run.req) {
            let nprobes: usize = match run.req.nprobes {
                Some(n) => n,
                None => DEFAULT_NPROBES,
            };
            self.semantic.insert(
                SemanticEntry {
                    namespace: ns.as_str().to_string(),
                    generation: run.generation,
                    vector: vector::copy_vector(&run.req.vector),
                    k: run.req.k,
                    nprobes,
                    include_vector: run.req.include_vector,
                    bytes: cache::copy_bytes(&bytes),
                },
            );
        }
        self.metrics.record_query(ns, classify_query_type(&run.req), nanos);
        QueryStep::Store(
            key,
            bytes,
            QueryOutcome { result, cache_source: QueryCacheSource::Backend },
        )
    }

    /// Counts the storage request of an operation that starts.
    fn count_start(&mut self, ns: &NamespaceId, op: WriteOp)
        requires
            old(self).wf(),
        ensures
            final(self).wf(),
            final(self).manager == old(self).manager,
            final(self).cache == old(self).cache,
            final(self).semantic == old(self).semantic,
            final(self).metrics@ == metrics::storage_request(
                old(self).metrics@,
                ns@,
                op_label(op),
            ),
    {
        let label: &'static str = match op {
            WriteOp::Upsert => "upsert",
            WriteOp::Delete => "delete",
            WriteOp::Index => "index",
            WriteOp::FtsIndex => "fts_index",
            WriteOp::ScalarIndex => "scalar_index",
            WriteOp::Compact => "compact",
            WriteOp::Import => "import",
        };
        self.metrics.record_s3_request(ns, label);
    }

    /// Starts a write.
    pub fn upsert(&mut self, ns: &NamespaceId, rows: Vec<UpsertRow>) -> (r: Step)
        requires
            old(self).wf(),
        ensures
            final(self).wf(),
            final(self).manager == old(self).manager,
            final(self).cache == old(self).cache,
            final(self).semantic == old(self).semantic,
            final(self).metrics@ == metrics::storage_request(
                old(self).metrics@,
                ns@,
                "upsert"@,
            ),
            if rows@.len() == 0 {
                r@ == StepView::Finish(Ok(manager::OutcomeView::Done))
            } else if !crate::rows::ids(rows@).no_duplicates() {
                exists|i: int| #[trigger]
                    query::first_repeat(crate::rows::ids(rows@), i) && r@ == StepView::Finish(
                        Err(crate::rows::duplicate_id(crate::rows::ids(rows@)[i])),
                    )
            } else {
                r@ == manager::first_step(
                    old(self).manager@,
                    ns@,
                    manager::Task::Upsert(rows),
                )
            },
    {
        self.count_start(ns, WriteOp::Upsert);
        self.manager.upsert(ns, rows)
    }

    /// Starts a deletion: the path whose objects are to be removed.
    pub fn delete(&mut self, ns: &NamespaceId) -> (r: String)
        requires
            old(self).wf(),
        ensures
            final(self).wf(),
            final(self).manager == old(self).manager,
            final(self).cache == old(self).cache,
            final(self).semantic == old(self).semantic,
            final(self).metrics@ == metrics::storage_request(
                old(self).metrics@,
                ns@,
                "delete"@,
            ),
            r@ == crate::storage_root::object_path(old(self).manager.root(), ns@),
    {
        self.count_start(ns, WriteOp::Delete);
        self.manager.namespace_object_path(ns)
    }

    /// Ends a deletion: the namespace is forgotten and its near-duplicates are
    /// cleared. Gives how many objects were removed.
    pub fn on_deleted(&mut self, ns: &NamespaceId, removed: usize, nanos: u64) -> (r: usize)
        requires
            old(self).wf(),
        ensures
            final(self).wf(),
            r == removed,
            final(self).manager@ == (manager::ManagerView {
                schemas: old(self).manager@.schemas.remove(ns@),
                handles: old(self).manager@.handles.remove(ns@),
            }),
            final(self).manager.same_setup(old(self).manager),
            final(self).cache == old(self).cache,
            final(self).semantic@ == cache::entries_kept(old(self).semantic@, ns@, None),
            final(self).metrics@ == write_done(
                manager::evicted_count(old(self).manager@, old(self).metrics@, ns@),
                ns@,
                WriteOp::Delete,
                nanos,
            ),
    {
        let count: usize = self.manager.delete(&mut self.metrics, ns, removed);
        self.on_written(ns, WriteOp::Delete, nanos);
        count
    }

    /// Starts the build of a vector index.
    pub fn create_index(
        &mut self,
        ns: &NamespaceId,
        num_partitions: Option<u32>,
        num_sub_vectors: Option<u32>,
        num_bits: Option<u32>,
    ) -> (r: Step)
        requires
            old(self).wf(),
        ensures
            final(self).wf(),
            final(self).manager == old(self).manager,
            final(self).cache == old(self).cache,
            final(self).semantic == old(self).semantic,
            final(self).metrics@ == metrics::storage_request(old(self).metrics@, ns@, "index"@),
            r@ == (match query::ivf_pq_check(num_bits, num_sub_vectors) {
                Err(e) => StepView::Finish(Err(e)),
                Ok(()) => manager::first_step(
                    old(self).manager@,
                    ns@,
                    manager::Task::Index(num_partitions, num_sub_vectors, num_bits),
                ),
            }),
    {
        self.count_start(ns, WriteOp::Index);
        self.manager.create_index(ns, num_partitions, num_sub_vectors, num_bits)
    }

    /// Starts the build of a full-text index.
    pub fn create_fts_index(&mut self, ns: &NamespaceId) -> (r: Step)
        requires
            old(self).wf(),
        ensures
            final(self).wf(),
            final(self).manager == old(self).manager,
            final(self).cache == old(self).cache,
            final(self).semantic == old(self).semantic,
            final(self).metrics@ == metrics::storage_request(
                old(self).metrics@,
                ns@,
                "fts_index"@,
            ),
            r@ == manager::first_step(old(self).manager@, ns@, manager::Task::FtsIndex),
    {
        self.count_start(ns, WriteOp::FtsIndex);
        self.manager.create_fts_index(ns)
    }

    /// Starts the build of a scalar index.
    pub fn create_scalar_index(&mut self, ns: &NamespaceId, column: String) -> (r: Step)
        requires
            old(self).wf(),
        ensures
            final(self).wf(),
            final(self).manager == old(self).manager,
            final(self).cache == old(self).cache,
            final(self).semantic == old(self).semantic,
            final(self).metrics@ == metrics::storage_request(
                old(self).metrics@,
                ns@,
                "scalar_index"@,
            ),
            r@ == (if crate::schema::scalar_indexable(column@) {
                manager::first_step(
                    old(self).manager@,
                    ns@,
                    manager::Task::ScalarIndex(column),
                )
            } else {
                StepView::Finish(Err(crate::schema::not_indexable(column@)))
            }),
    {
        self.count_start(ns, WriteOp::ScalarIndex);
        self.manager.create_scalar_index(ns, column)
    }

    /// Starts a compaction.
    pub fn compact(&mut self, ns: &NamespaceId) -> (r: Step)
        requires
            old(self).wf(),
        ensures
            final(self).wf(),
            final(self).manager == old(self).manager,
            final(self).cache == old(self).cache,
            final(self).semantic == old(self).semantic,
            final(self).metrics@ == metrics::storage_request(
                old(self).metrics@,
                ns@,
                "compact"@,
            ),
            r@ == manager::first_step(old(self).manager@, ns@, manager::Task::Compact),
    {
        self.count_start(ns, WriteOp::Compact);
        self.manager.compact(ns)
    }

    /// Ends an operation that has succeeded: writes, deletions and compactions
    /// clear the namespace's near-duplicates, and each is measured. One that
    /// failed changes nothing, so that the caches keep serving what is still
    /// stored.
    pub fn on_written(&mut self, ns: &NamespaceId, op: WriteOp, nanos: u64)
        requires
            old(self).wf(),
        ensures
            final(self).wf(),
            final(self).manager == old(self).manager,
            final(self).cache == old(self).cache,
            final(self).semantic@ == (if clears_sidecar(op) {
                cache::entries_kept(old(self).semantic@, ns@, None)
            } else {
                old(self).semantic@
            }),
            final(self).metrics@ == write_done(old(self).metrics@, ns@, op, nanos),
    {
        match op {
            WriteOp::Upsert | WriteOp::Delete | WriteOp::Import => {
                self.semantic.invalidate(ns);
                self.metrics.record_write(ns, nanos);
            },
            WriteOp::Index => {
                self.metrics.record_index_build(ns, "ivf_pq", nanos);
            },
            WriteOp::FtsIndex => {
                self.metrics.record_index_build(ns, "fts", nanos);
            },
            WriteOp::ScalarIndex => {
                self.metrics.record_index_build(ns, "scalar", nanos);
            },
            WriteOp::Compact => {
                self.semantic.invalidate(ns);
                self.metrics.record_compaction(ns, nanos);
            },
        }
    }
}

// ------------------------------------------------------------------ laws
/// A request that passed the check and opted in is always eligible: no checked
/// request is turned away from the semantic cache for its shape.
pub proof fn law_checked_opt_in_is_eligible(req: QueryRequest)
    requires
        query::semantic_check(req) is Ok,
        opted_in(req),
    ensures
        eligible(req),
{
}

/// A request that did not opt in never reaches the semantic cache.
pub proof fn law_semantic_cache_needs_opt_in(run: QueryRun)
    requires
        !opted_in(run.req),
    ensures
        after_miss(run) == QueryStepView::Search(run),
{
}

/// Storage requests are counted exactly for the queries that go to storage:
/// hits in either cache leave the count alone, and every search adds one.
pub proof fn law_hits_save_storage_requests(
    m: MetricsView,
    ns: Seq<char>,
    run: QueryRun,
    bytes: Seq<u8>,
    lookup: SemanticLookup,
    nanos: u64,
)
    ensures
        after_exact(m, ns, run, Some(bytes), nanos).s3_requests == m.s3_requests,
        lookup is Hit ==> after_semantic(m, ns, run, lookup, nanos).s3_requests == m.s3_requests,
        !(lookup is Hit) ==> after_semantic(m, ns, run, lookup, nanos).s3_requests == prom::bumped(
            m.s3_requests,
            metrics::slot2(ns, "query"@),
        ),
        after_exact(m, ns, run, None, nanos).s3_requests == (if eligible(run.req) {
            m.s3_requests
        } else {
            prom::bumped(m.s3_requests, metrics::slot2(ns, "query"@))
        }),
{
}

/// The exact cache gives back what the search stored: looking the stored key up
/// again in the same generation finds bytes that are served as the same hits.
pub proof fn law_exact_cache_replays_the_search(
    query_id: Seq<char>,
    hits: Seq<HitView>,
    bytes: Seq<u8>,
)
    requires
        codec::uncached(bytes) == Ok::<(Seq<char>, Seq<HitView>), ErrorView>((query_id, hits)),
    ensures
        served(bytes, QueryCacheSource::ExactCache) == QueryStepView::Finish(
            Ok(((query_id, hits), QueryCacheSource::ExactCache)),
        ),
{
}

/// A query and its repetition have the same key as long as the generation is
/// the same, whatever their semantic-cache controls; after a write has moved
/// the generation the repetition has another key, so nothing stale is found.
pub proof fn law_repeats_hit_until_a_write(
    a: QueryRequest,
    b: QueryRequest,
    ns: Seq<char>,
    g1: u64,
    g2: u64,
)
    requires
        codec::canonical(a) == codec::canonical(b),
        codec::request_key(a) is Ok,
    ensures
        codec::request_key(b) == codec::request_key(a),
        ((ns, g1, codec::request_key(a)->Ok_0) == (ns, g2, codec::request_key(b)->Ok_0)) <==> g1
            == g2,
{
}

/// The semantic cache never answers a query whose surrounding shape differs:
/// an entry that may answer has the same namespace, generation, number of
/// results, probes, vector width and projection.
pub proof fn law_semantic_answers_keep_the_shape(
    ns: Seq<char>,
    run: QueryRun,
    other: QueryRun,
    bytes: Seq<u8>,
)
    requires
        cache::usable(
            entry_for(ns, run, bytes),
            ns,
            other.generation,
            other.req.k,
            manager::probes(other.req.nprobes),
            other.req.include_vector,
            other.req.vector@.len(),
        ),
    ensures
        run.generation == other.generation,
        run.req.k == other.req.k,
        manager::probes(run.req.nprobes) == manager::probes(other.req.nprobes),
        run.req.include_vector == other.req.include_vector,
        run.req.vector@.len() == other.req.vector@.len(),
{
}

/// Nothing stale is served after a write. Let a write have cleared the
/// namespace's sidecar, and let the next query read a generation under which
/// nothing of the namespace was stored before. Then neither cache has an answer:
/// the exact key is not there, the sidecar is empty, the query goes on to
/// storage, and that is counted as one storage request.
pub proof fn law_writes_leave_nothing_stale(
    stored: Map<cache::KeyView, Seq<u8>>,
    before: Seq<cache::EntryView>,
    m: MetricsView,
    ns: Seq<char>,
    run: QueryRun,
    nanos: u64,
)
    requires
        forall|k: cache::KeyView| #[trigger]
            stored.dom().contains(k) && k.0 == ns ==> k.1 != run.generation,
    ensures
        !stored.dom().contains((ns, run.generation, run.hash)),
        cache::entries_of(
            cache::entries_kept(
                cache::entries_kept(before, ns, None),
                ns,
                Some(run.generation),
            ),
            ns,
        ).len() == 0,
        eligible(run.req) ==> after_semantic(
            after_exact(m, ns, run, None, nanos),
            ns,
            run,
            SemanticLookup::EmptyIndex,
            nanos,
        ).s3_requests == prom::bumped(m.s3_requests, metrics::slot2(ns, "query"@)),
        !eligible(run.req) ==> after_miss(run) == QueryStepView::Search(run) && after_exact(
            m,
            ns,
            run,
            None,
            nanos,
        ).s3_requests == prom::bumped(m.s3_requests, metrics::slot2(ns, "query"@)),
{
    let cleared = cache::entries_kept(before, ns, None);
    let left = cache::entries_kept(cleared, ns, Some(run.generation));
    let other = |e: cache::EntryView| e.namespace != ns || Some(e.generation) == None::<u64>;
    let same = |e: cache::EntryView|
        e.namespace != ns || Some(e.generation) == Some(run.generation);
    let mine = |e: cache::EntryView| e.namespace == ns;
    if left.filter(mine).len() > 0 {
        let e = left.filter(mine)[0];
        assert(left.filter(mine).contains(e));
        left.lemma_filter_contains_rev(mine, e);
        cleared.lemma_filter_contains_rev(same, e);
        left.lemma_filter_pred(mine, 0);
        let i = choose|i: int| 0 <= i < cleared.len() && cleared[i] == e;
        before.lemma_filter_pred(other, i);
    }
}

/// A miss in the exact cache looks for a near-duplicate exactly where the request
/// opted in and goes by one vector alone, without text or predicate; every other
/// miss goes to storage. Either way it goes on with the run as it was.
pub proof fn law_misses_look_aside_where_asked(run: QueryRun)
    ensures
        match after_miss(run) {
            QueryStepView::LookupSemantic(_, next) => next == run && run.req.semantic_cache is Some
                && run.req.semantic_cache->0.enabled && run.req.vector@.len() > 0 && (
            run.req.vectors is None || run.req.vectors->0@.len() == 0) && run.req.text is None
                && run.req.filter is None,
            QueryStepView::Search(next) => next == run && (run.req.semantic_cache is None
                || !run.req.semantic_cache->0.enabled || run.req.vector@.len() == 0 || (
            run.req.vectors is Some && run.req.vectors->0@.len() > 0) || run.req.text is Some
                || run.req.filter is Some),
            _ => false,
        },
{
}

/// The threshold that a lookup of near-duplicates runs with is the one that the
/// request gives; where it gives none, it is the single-precision number that lies
/// nearest to 0.995, which is a number below one, so that its bits are those of
/// its significand over two to the twenty-fourth.
pub proof fn law_lookups_run_with_the_requests_threshold(run: QueryRun)
    requires
        after_miss(run) is LookupSemantic,
    ensures
        ({
            let threshold = after_miss(run)->LookupSemantic_0;
            let asked = run.req.semantic_cache->0.min_similarity;
            &&& asked matches Some(t) ==> threshold == t.bits
            &&& asked is None ==> threshold == query::DEFAULT_SEMANTIC_MIN_SIMILARITY
            &&& asked is None ==> threshold as int / 0x80_0000 == 126
            &&& asked is None ==> ({
                let significand = 0x80_0000 + threshold as int % 0x80_0000;
                -500 <= 1000 * significand - 995 * 0x100_0000 <= 500
            })
        }),
{
}

/// A near-duplicate is reused only where it is close enough for the request: the
/// threshold of the request, or the default one, is at most its similarity.
pub proof fn law_reused_answers_reach_the_requests_threshold(run: QueryRun, similarity: u32)
    requires
        after_miss(run) is LookupSemantic,
        cache::reaches(similarity, after_miss(run)->LookupSemantic_0),
    ensures
        run.req.semantic_cache->0.min_similarity matches Some(t) ==> t.bits <= similarity,
        run.req.semantic_cache->0.min_similarity is None ==> 0x3F7E_B852 <= similarity,
        similarity < 0x7F80_0000,
{
}

/// A query starts with its controls checked and with nothing else: it goes on with
/// the very request, under its key, or ends with what is wrong with the controls.
pub proof fn law_queries_start_with_their_request(req: QueryRequest)
    ensures
        match started(req) {
            QueryStepView::Generation(run) => run.req == req && query::semantic_check(req) is Ok
                && codec::request_key(req) == Ok::<QueryHash, ErrorView>(run.hash),
            QueryStepView::Finish(Err(e)) => query::semantic_check(req) == Err::<(), ErrorView>(e)
                || codec::request_key(req) == Err::<QueryHash, ErrorView>(e),
            _ => false,
        },
{
}

/// What is kept of an answered query is the query itself and its answer: its
/// namespace and generation, every component of its vector, its number of results,
/// its partitions, its choice of vectors, and the bytes of the result.
pub proof fn law_kept_queries_are_whole(ns: Seq<char>, run: QueryRun, bytes: Seq<u8>)
    ensures
        entry_for(ns, run, bytes).namespace == ns,
        entry_for(ns, run, bytes).generation == run.generation,
        entry_for(ns, run, bytes).vector == run.req.vector@,
        entry_for(ns, run, bytes).k == run.req.k,
        run.req.nprobes matches Some(n) ==> entry_for(ns, run, bytes).nprobes == n,
        run.req.nprobes is None ==> entry_for(ns, run, bytes).nprobes == 20,
        entry_for(ns, run, bytes).include_vector == run.req.include_vector,
        entry_for(ns, run, bytes).bytes == bytes,
{
}

/// A kept query may answer another run exactly where namespace, generation, number
/// of results, partitions, choice of vectors and vector width are the run's.
pub proof fn law_kept_queries_answer_their_like(e: cache::EntryView, ns: Seq<char>, run: QueryRun)
    ensures
        answers(e, ns, run) <==> e.namespace == ns && e.generation == run.generation && e.k
            == run.req.k && e.include_vector == run.req.include_vector && e.vector.len()
            == run.req.vector@.len() && e.nprobes == (if run.req.nprobes is Some {
            run.req.nprobes->0
        } else {
            20
        }),
{
}

/// Each query is measured under what it is: hybrid where it has vectors and text,
/// by its text alone as full-text, by a bag alone as multivector, else as a vector
/// search.
pub proof fn law_queries_are_measured_as_what_they_are(req: QueryRequest)
    ensures
        ({
            let bag = req.vectors is Some && req.vectors->0@.len() > 0;
            let single = req.vector@.len() > 0;
            &&& query_type(req) == "hybrid"@ <==> (single || bag) && req.text is Some
            &&& query_type(req) == "fts"@ <==> !single && !bag && req.text is Some
            &&& query_type(req) == "multivector"@ <==> !single && bag && req.text is None
            &&& query_type(req) == "vector"@ <==> req.text is None && (single || !bag)
        }),
{
    reveal_strlit("hybrid");
    reveal_strlit("fts");
    reveal_strlit("multivector");
    reveal_strlit("vector");
    assert("hybrid"@.len() == 6 && "fts"@.len() == 3 && "multivector"@.len() == 11
        && "vector"@.len() == 6);
    assert("hybrid"@[0] == 'h' && "vector"@[0] == 'v');
}

/// A served answer is the cached result under the name of the cache that had it;
/// bytes that hold no result are never served as one.
pub proof fn law_served_answers_name_their_cache(bytes: Seq<u8>, source: QueryCacheSource)
    ensures
        match served(bytes, source) {
            QueryStepView::Finish(Ok(answer)) => codec::uncached(bytes) == Ok::<
                (Seq<char>, Seq<HitView>),
                ErrorView,
            >(answer.0) && answer.1 == source,
            QueryStepView::Finish(Err(e)) => codec::uncached(bytes) == Err::<
                (Seq<char>, Seq<HitView>),
                ErrorView,
            >(e),
            _ => false,
        },
        source_text(QueryCacheSource::Backend) == "backend"@,
        source_text(QueryCacheSource::ExactCache) == "exact_cache"@,
        source_text(QueryCacheSource::SemanticCache) == "semantic_cache"@,
{
}

/// What changes rows clears the namespace's near-duplicates, and so does what moves
/// them; building an index changes no result and clears nothing.
pub proof fn law_changes_of_rows_clear_near_duplicates(op: WriteOp)
    ensures
        clears_sidecar(WriteOp::Upsert),
        clears_sidecar(WriteOp::Delete),
        clears_sidecar(WriteOp::Compact),
        clears_sidecar(WriteOp::Import),
        clears_sidecar(op) ==> !(op is Index) && !(op is FtsIndex) && !(op is ScalarIndex),
{
}

/// Every operation counts its storage requests under its own label.
pub proof fn law_operations_have_labels_of_their_own(a: WriteOp, b: WriteOp)
    ensures
        op_label(a) == op_label(b) ==> a == b,
        op_label(WriteOp::Upsert) == "upsert"@,
        op_label(WriteOp::Delete) == "delete"@,
        op_label(WriteOp::Index) == "index"@,
        op_label(WriteOp::FtsIndex) == "fts_index"@,
        op_label(WriteOp::ScalarIndex) == "scalar_index"@,
        op_label(WriteOp::Compact) == "compact"@,
        op_label(WriteOp::Import) == "import"@,
{
    reveal_strlit("upsert");
    reveal_strlit("delete");
    reveal_strlit("index");
    reveal_strlit("fts_index");
    reveal_strlit("scalar_index");
    reveal_strlit("compact");
    reveal_strlit("import");
    assert("upsert"@.len() == 6 && "delete"@.len() == 6 && "index"@.len() == 5
        && "fts_index"@.len() == 9 && "scalar_index"@.len() == 12 && "compact"@.len() == 7
        && "import"@.len() == 6);
    assert("upsert"@[0] == 'u' && "delete"@[0] == 'd' && "import"@[0] == 'i');
}

/// An answered query is measured once, under its namespace and its type, with its own
/// duration.
pub proof fn law_answered_queries_are_measured(
    m: MetricsView,
    ns: Seq<char>,
    req: QueryRequest,
    nanos: u64,
)
    ensures
        ({
            let after = query_done(m, ns, req, nanos);
            let slot = prom::label_slot(ns + query_type(req));
            &&& prom::observations(after.query_duration, slot) == prom::observations(
                m.query_duration,
                slot,
            ).push(nanos)
            &&& after.write_duration == m.write_duration
            &&& after.index_build_duration == m.index_build_duration
            &&& after.compaction_duration == m.compaction_duration
            &&& after.s3_requests == m.s3_requests
            &&& after.seen.contains(ns)
        }),
{
    metrics::law_slots_go_by_every_label(ns, query_type(req));
    metrics::law_namespaces_are_active_once(m, ns);
}

/// A look into the exact cache counts one hit where it found something and one miss
/// where it did not; what it found is measured as a query where it could be read.
pub proof fn law_exact_lookups_are_counted(
    m: MetricsView,
    ns: Seq<char>,
    run: QueryRun,
    bytes: Seq<u8>,
    nanos: u64,
)
    ensures
        ({
            let slot = prom::label_slot(ns);
            let hit = after_exact(m, ns, run, Some(bytes), nanos);
            let miss = after_exact(m, ns, run, None, nanos);
            let kind = prom::label_slot(ns + query_type(run.req));
            &&& prom::count_in(hit.cache_hits, slot) == prom::one_more(
                prom::count_in(m.cache_hits, slot),
            )
            &&& hit.cache_misses == m.cache_misses
            &&& prom::count_in(miss.cache_misses, slot) == prom::one_more(
                prom::count_in(m.cache_misses, slot),
            )
            &&& miss.cache_hits == m.cache_hits
            &&& codec::uncached(bytes) is Ok ==> prom::observations(hit.query_duration, kind)
                == prom::observations(m.query_duration, kind).push(nanos)
            &&& miss.query_duration == m.query_duration
        }),
{
    cache::law_lookups_are_counted_as_what_they_were(m, ns);
    law_answered_queries_are_measured(cache::looked_up(m, ns, true), ns, run.req, nanos);
    metrics::law_slots_go_by_every_label(ns, "query"@);
}

/// A look into the sidecar counts one semantic hit, one semantic miss, or one rejection
/// because the index is empty, as it went; a hit is measured as a query.
pub proof fn law_semantic_lookups_are_counted(
    m: MetricsView,
    ns: Seq<char>,
    run: QueryRun,
    lookup: SemanticLookup,
    nanos: u64,
)
    requires
        lookup matches SemanticLookup::Hit(bytes) ==> codec::uncached(bytes@) is Ok,
    ensures
        ({
            let after = after_semantic(m, ns, run, lookup, nanos);
            let slot = prom::label_slot(ns);
            let empty = prom::label_slot(ns + "empty_index"@);
            let kind = prom::label_slot(ns + query_type(run.req));
            &&& lookup is Hit ==> prom::count_in(after.semantic_cache_hits, slot) == prom::one_more(
                prom::count_in(m.semantic_cache_hits, slot),
            ) && after.semantic_cache_misses == m.semantic_cache_misses
                && after.semantic_cache_rejections == m.semantic_cache_rejections
                && prom::observations(after.query_duration, kind) == prom::observations(
                m.query_duration,
                kind,
            ).push(nanos)
            &&& lookup is Miss ==> prom::count_in(after.semantic_cache_misses, slot)
                == prom::one_more(prom::count_in(m.semantic_cache_misses, slot))
                && after.semantic_cache_hits == m.semantic_cache_hits
                && after.semantic_cache_rejections == m.semantic_cache_rejections
            &&& lookup is EmptyIndex ==> prom::count_in(after.semantic_cache_rejections, empty)
                == prom::one_more(prom::count_in(m.semantic_cache_rejections, empty))
                && after.semantic_cache_hits == m.semantic_cache_hits
                && after.semantic_cache_misses == m.semantic_cache_misses
        }),
{
    metrics::law_slots_go_by_every_label(ns, ns);
    metrics::law_slots_go_by_every_label(ns, "empty_index"@);
    metrics::law_namespaces_are_active_once(m, ns);
    law_answered_queries_are_measured(semantic_hit(m, ns), ns, run.req, nanos);
    metrics::law_storage_requests_are_counted(semantic_miss(m, ns), ns, "query"@, 0);
    metrics::law_storage_requests_are_counted(
        semantic_rejection(m, ns, "empty_index"@),
        ns,
        "query"@,
        0,
    );
}

/// An operation that has succeeded is measured once, as what it was: writes, deletions
/// and imports as writes, index builds as builds of their kind, compactions as
/// compactions; each with its own duration, in its namespace.
pub proof fn law_finished_operations_are_measured(
    m: MetricsView,
    ns: Seq<char>,
    op: WriteOp,
    nanos: u64,
)
    ensures
        ({
            let after = write_done(m, ns, op, nanos);
            let slot = prom::label_slot(ns);
            &&& op is Upsert || op is Delete || op is Import ==> prom::observations(
                after.write_duration,
                slot,
            ) == prom::observations(m.write_duration, slot).push(nanos)
                && after.index_build_duration == m.index_build_duration
                && after.compaction_duration == m.compaction_duration
            &&& op is Compact ==> prom::observations(after.compaction_duration, slot)
                == prom::observations(m.compaction_duration, slot).push(nanos)
                && after.write_duration == m.write_duration && after.index_build_duration
                == m.index_build_duration
            &&& op is Index ==> prom::observations(
                after.index_build_duration,
                prom::label_slot(ns + "ivf_pq"@),
            ) == prom::observations(
                m.index_build_duration,
                prom::label_slot(ns + "ivf_pq"@),
            ).push(nanos)
            &&& op is FtsIndex ==> prom::observations(
                after.index_build_duration,
                prom::label_slot(ns + "fts"@),
            ) == prom::observations(
                m.index_build_duration,
                prom::label_slot(ns + "fts"@),
            ).push(nanos)
            &&& op is ScalarIndex ==> prom::observations(
                after.index_build_duration,
                prom::label_slot(ns + "scalar"@),
            ) == prom::observations(
                m.index_build_duration,
                prom::label_slot(ns + "scalar"@),
            ).push(nanos)
            &&& op is Index || op is FtsIndex || op is ScalarIndex ==> after.write_duration
                == m.write_duration && after.compaction_duration == m.compaction_duration
            &&& after.s3_requests == m.s3_requests
            &&& after.query_duration == m.query_duration
            &&& after.seen.contains(ns)
        }),
{
    metrics::law_slots_go_by_every_label(ns, "ivf_pq"@);
    metrics::law_slots_go_by_every_label(ns, "fts"@);
    metrics::law_slots_go_by_every_label(ns, "scalar"@);
    metrics::law_namespaces_are_active_once(m, ns);
}
/// A step of a query is seen as what it is, with all that it carries.
pub proof fn law_query_steps_are_seen_whole(s: QueryStep)
    ensures
        s matches QueryStep::Generation(run) ==> s@ == QueryStepView::Generation(run),
        s matches QueryStep::LookupExact(key, run) ==> s@ == QueryStepView::LookupExact(
            (key.namespace@, key.generation, key.query),
            run,
        ),
        s matches QueryStep::LookupSemantic(t, run) ==> s@ == QueryStepView::LookupSemantic(t, run),
        s matches QueryStep::Search(run) ==> s@ == QueryStepView::Search(run),
        s matches QueryStep::Store(key, bytes, o) ==> s@ == QueryStepView::Store(
            (key.namespace@, key.generation, key.query),
            bytes@,
            (o.result@, o.cache_source),
        ),
        s matches QueryStep::Finish(Ok(o)) ==> s@ == QueryStepView::Finish(
            Ok((o.result@, o.cache_source)),
        ),
        s matches QueryStep::Finish(Err(e)) ==> s@ == QueryStepView::Finish(Err(e@)),
{
}

} // verus!
