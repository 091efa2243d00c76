//! Metric handles of the process.
//!
//! [`CoreMetrics`] owns the registry and a typed handle for every metric
//! family that the service exposes. Counts of storage requests are kept at the
//! service boundary: they answer whether a cache saved a round-trip, not how
//! many connections were made.
use dashmap::DashSet;
use prometheus::{Error, Registry};
use vstd::prelude::*;
use crate::error::{ErrorView, FirnflowError};
use crate::family_ids;
use crate::namespace::NamespaceId;
use crate::prom::{self, CounterFamily, Family, Gauge, HistogramFamily, SingleCounter};
use crate::shared;

verus! {

/// Counters of the byte-range cache below the namespaces.
pub struct ObjectCacheMetrics {
    hits: SingleCounter,
    misses: SingleCounter,
    inner_gets: SingleCounter,
    s3_bytes: SingleCounter,
    evictions: SingleCounter,
}

/// The registry, the families in it, and the namespaces seen so far.
pub struct CoreMetrics {
    registry: Registry,
    cache_hits: CounterFamily,
    cache_misses: CounterFamily,
    semantic_cache_hits: CounterFamily,
    semantic_cache_misses: CounterFamily,
    semantic_cache_rejections: CounterFamily,
    query_duration: HistogramFamily,
    write_duration: HistogramFamily,
    active_namespaces: Gauge,
    s3_requests: CounterFamily,
    index_build_duration: HistogramFamily,
    compaction_duration: HistogramFamily,
    cached_handles: Gauge,
    auth_rejections: CounterFamily,
    object_cache: ObjectCacheMetrics,
    seen_namespaces: DashSet<String>,
}

/// What the metrics have recorded: counts and observed durations by slot, the
/// two gauges, the namespaces seen, the families exposed, the bounds of the
/// histograms, and the five counts of the byte-range cache.
pub struct MetricsView {
    pub cache_hits: Map<u64, u64>,
    pub cache_misses: Map<u64, u64>,
    pub semantic_cache_hits: Map<u64, u64>,
    pub semantic_cache_misses: Map<u64, u64>,
    pub semantic_cache_rejections: Map<u64, u64>,
    pub query_duration: Map<u64, Seq<u64>>,
    pub write_duration: Map<u64, Seq<u64>>,
    pub active_namespaces: i64,
    pub s3_requests: Map<u64, u64>,
    pub index_build_duration: Map<u64, Seq<u64>>,
    pub compaction_duration: Map<u64, Seq<u64>>,
    pub cached_handles: i64,
    pub auth_rejections: Map<u64, u64>,
    pub seen: Set<Seq<char>>,
    pub families: Set<Family>,
    pub bounds: Bounds,
    pub object_cache: (u64, u64, u64, u64, u64),
}

/// The bucket bounds in seconds of each family of histograms; empty where it has
/// the default bounds.
pub struct Bounds {
    pub query: Seq<u64>,
    pub write: Seq<u64>,
    pub index_build: Seq<u64>,
    pub compaction: Seq<u64>,
}

/// The bounds that the families are made with: index builds and compactions take
/// seconds to minutes.
pub open spec fn made_bounds() -> Bounds {
    Bounds {
        query: Seq::empty(),
        write: Seq::empty(),
        index_build: seq![1u64, 5, 10, 30, 60, 120, 300, 600],
        compaction: seq![1u64, 5, 10, 30, 60, 120, 300, 600],
    }
}

/// The slot of one label value.
pub open spec fn slot1(a: Seq<char>) -> u64 {
    prom::label_slot(prom::joined(seq![a]))
}

/// The slot of two label values.
pub open spec fn slot2(a: Seq<char>, b: Seq<char>) -> u64 {
    prom::label_slot(prom::joined(seq![a, b]))
}

/// Nothing recorded yet, with these families exposed.
pub open spec fn fresh_metrics(families: Set<Family>) -> MetricsView {
    MetricsView {
        cache_hits: Map::empty(),
        cache_misses: Map::empty(),
        semantic_cache_hits: Map::empty(),
        semantic_cache_misses: Map::empty(),
        semantic_cache_rejections: Map::empty(),
        query_duration: Map::empty(),
        write_duration: Map::empty(),
        active_namespaces: 0,
        s3_requests: Map::empty(),
        index_build_duration: Map::empty(),
        compaction_duration: Map::empty(),
        cached_handles: 0,
        auth_rejections: Map::empty(),
        seen: Set::empty(),
        families,
        bounds: made_bounds(),
        object_cache: (0, 0, 0, 0, 0),
    }
}

/// The metrics once a namespace has been touched: the gauge of active
/// namespaces goes up where it was not seen before.
pub open spec fn touched(m: MetricsView, ns: Seq<char>) -> MetricsView {
    if m.seen.contains(ns) {
        m
    } else {
        MetricsView {
            seen: m.seen.insert(ns),
            active_namespaces: (if m.active_namespaces == i64::MAX {
                i64::MIN as int
            } else {
                m.active_namespaces + 1
            }) as i64,
            ..m
        }
    }
}

/// The metrics with one more handle in the pool.
pub open spec fn handle_added(m: MetricsView) -> MetricsView {
    MetricsView {
        cached_handles: (if m.cached_handles == i64::MAX {
            i64::MIN as int
        } else {
            m.cached_handles + 1
        }) as i64,
        ..m
    }
}

/// The metrics with one handle less in the pool.
pub open spec fn handle_dropped(m: MetricsView) -> MetricsView {
    MetricsView {
        cached_handles: (if m.cached_handles == i64::MIN {
            i64::MAX as int
        } else {
            m.cached_handles - 1
        }) as i64,
        ..m
    }
}

/// The metrics after one operation that goes to storage.
pub open spec fn storage_request(m: MetricsView, ns: Seq<char>, operation: Seq<char>) -> MetricsView {
    MetricsView {
        s3_requests: prom::bumped(m.s3_requests, slot2(ns, operation)),
        ..touched(m, ns)
    }
}

/// The family `firnflow_cache_hits_total`.
pub open spec fn family_cache_hits() -> Family {
    (
        "firnflow_cache_hits_total"@,
        "Cache hits, keyed by namespace."@,
        seq!["namespace"@],
    )
}

/// The family `firnflow_cache_misses_total`.
pub open spec fn family_cache_misses() -> Family {
    (
        "firnflow_cache_misses_total"@,
        "Cache misses, keyed by namespace."@,
        seq!["namespace"@],
    )
}

/// The family `firnflow_semantic_cache_hits_total`.
pub open spec fn family_semantic_cache_hits() -> Family {
    (
        "firnflow_semantic_cache_hits_total"@,
        "Opt-in semantic-cache hits: a previously-cached result whose query vector was within the caller-supplied (or default) cosine threshold of the incoming request. Always preceded by an exact result-cache miss — exact hits never consult the semantic layer."@,
        seq!["namespace"@],
    )
}

/// The family `firnflow_semantic_cache_misses_total`.
pub open spec fn family_semantic_cache_misses() -> Family {
    (
        "firnflow_semantic_cache_misses_total"@,
        "Opt-in semantic-cache misses: semantic caching was enabled and eligible, but no cached query vector cleared the cosine threshold. Counted once per query, after the exact-cache miss."@,
        seq!["namespace"@],
    )
}

/// The family `firnflow_semantic_cache_rejections_total`.
pub open spec fn family_semantic_cache_rejections() -> Family {
    (
        "firnflow_semantic_cache_rejections_total"@,
        "Opt-in semantic-cache lookups rejected before any similarity check. `reason` is one of: `unsupported_query_shape` (eligibility rule failed at lookup time — request shape mismatched the v1 single-vector constraints), `empty_index` (no cached entries for this namespace generation)."@,
        seq!["namespace"@, "reason"@],
    )
}

/// The family `firnflow_query_duration_seconds`.
pub open spec fn family_query_duration() -> Family {
    (
        "firnflow_query_duration_seconds"@,
        "End-to-end query latency, including cache lookup and any cache-miss backend round-trip."@,
        seq!["namespace"@, "query_type"@],
    )
}

/// The family `firnflow_write_duration_seconds`.
pub open spec fn family_write_duration() -> Family {
    (
        "firnflow_write_duration_seconds"@,
        "End-to-end upsert latency, including the cache invalidation step."@,
        seq!["namespace"@],
    )
}

/// The family `firnflow_active_namespaces`.
pub open spec fn family_active_namespaces() -> Family {
    (
        "firnflow_active_namespaces"@,
        "Distinct namespaces touched by this process since startup."@,
        Seq::empty(),
    )
}

/// The family `firnflow_s3_requests_total`.
pub open spec fn family_s3_requests() -> Family {
    (
        "firnflow_s3_requests_total"@,
        "firnflow-initiated operations that bypassed the cache and would have issued S3 traffic. Counted at the service boundary (one per upsert, one per cache-miss query), not at raw `object_store` call granularity — this is the signal for 'did the cache save a round-trip', not a faithful count of HTTP requests to S3."@,
        seq!["namespace"@, "operation"@],
    )
}

/// The family `firnflow_index_build_duration_seconds`.
pub open spec fn family_index_build_duration() -> Family {
    (
        "firnflow_index_build_duration_seconds"@,
        "Time to build a vector index. The 'Index Tax' — operators pay this once per index build in exchange for dramatically faster queries."@,
        seq!["namespace"@, "kind"@],
    )
}

/// The family `firnflow_compaction_duration_seconds`.
pub open spec fn family_compaction_duration() -> Family {
    (
        "firnflow_compaction_duration_seconds"@,
        "Time to compact a namespace's data files. Merges small fragments into fewer, larger files to reduce S3 round-trips on the read path."@,
        seq!["namespace"@],
    )
}

/// The family `firnflow_cached_handles`.
pub open spec fn family_cached_handles() -> Family {
    (
        "firnflow_cached_handles"@,
        "Number of namespaces with a warm `lancedb::Connection` + `lancedb::Table` handle in the in-process pool. Compare against `firnflow_active_namespaces` — the delta is the number of active namespaces that will pay cold-open cost on their next request."@,
        Seq::empty(),
    )
}

/// The family `firnflow_auth_rejections_total`.
pub open spec fn family_auth_rejections() -> Family {
    (
        "firnflow_auth_rejections_total"@,
        "Requests rejected before reaching their handler. The `reason` label is one of: `missing` (no Authorization header), `invalid` (header present but token does not match a configured key), `forbidden` (valid token, insufficient scope for the route), `rate_limited` (rejected by either rate limiter). Use this to detect misconfigured keys after a rotation (spike in `missing`) or credential-stuffing pressure (spike in `invalid` or `rate_limited`)."@,
        seq!["reason"@],
    )
}

/// The family `firnflow_object_cache_hits_total`.
pub open spec fn family_object_hits() -> Family {
    ("firnflow_object_cache_hits_total"@, "Object-store reads served from the local cache."@, Seq::empty())
}

/// The family `firnflow_object_cache_misses_total`.
pub open spec fn family_object_misses() -> Family {
    ("firnflow_object_cache_misses_total"@, "Object-store reads that the local cache could not serve."@, Seq::empty())
}

/// The family `firnflow_object_cache_inner_gets_total`.
pub open spec fn family_object_inner_gets() -> Family {
    ("firnflow_object_cache_inner_gets_total"@, "Reads that went through to the object store."@, Seq::empty())
}

/// The family `firnflow_object_cache_s3_bytes_total`.
pub open spec fn family_object_s3_bytes() -> Family {
    ("firnflow_object_cache_s3_bytes_total"@, "Bytes read from the object store."@, Seq::empty())
}

/// The family `firnflow_object_cache_evictions_total`.
pub open spec fn family_object_evictions() -> Family {
    ("firnflow_object_cache_evictions_total"@, "Entries evicted from the local cache."@, Seq::empty())
}

/// The families of the byte-range cache, on top of others.
pub open spec fn with_object_cache(s: Set<Family>) -> Set<Family> {
    s.insert(family_object_hits()).insert(family_object_misses()).insert(family_object_inner_gets()).insert(family_object_s3_bytes()).insert(family_object_evictions())
}

/// Every family that the service exposes.
pub open spec fn all_families() -> Set<Family> {
    with_object_cache(
        Set::empty()
            .insert(family_cache_hits())
            .insert(family_cache_misses())
            .insert(family_semantic_cache_hits())
            .insert(family_semantic_cache_misses())
            .insert(family_semantic_cache_rejections())
            .insert(family_query_duration())
            .insert(family_write_duration())
            .insert(family_active_namespaces())
            .insert(family_s3_requests())
            .insert(family_index_build_duration())
            .insert(family_compaction_duration())
            .insert(family_cached_handles())
            .insert(family_auth_rejections()),
    )
}

/// The names of the families, in the order in which they are registered.
#[verifier::opaque]
pub open spec fn family_names() -> Seq<Seq<char>> {
    seq![
        family_cache_hits().0,
        family_cache_misses().0,
        family_semantic_cache_hits().0,
        family_semantic_cache_misses().0,
        family_semantic_cache_rejections().0,
        family_query_duration().0,
        family_write_duration().0,
        family_active_namespaces().0,
        family_s3_requests().0,
        family_index_build_duration().0,
        family_compaction_duration().0,
        family_cached_handles().0,
        family_auth_rejections().0,
        family_object_hits().0,
        family_object_misses().0,
        family_object_inner_gets().0,
        family_object_s3_bytes().0,
        family_object_evictions().0,
    ]
}

/// Whether a registry files families of these names under different numbers.
pub open spec fn filed_apart(names: Seq<Seq<char>>) -> bool {
    forall|i: int, j: int|
        0 <= i < j < names.len() ==> prom::family_id(#[trigger] names[i]) != prom::family_id(
            #[trigger] names[j],
        )
}

/// Whether the families of a registry have these names.
spec fn hold_names(families: Set<Family>, names: Seq<Seq<char>>) -> bool {
    &&& forall|f: Family| #[trigger] families.contains(f) ==> names.contains(f.0)
    &&& forall|i: int|
        0 <= i < names.len() ==> is_held(families, #[trigger] names[i])
}

/// Whether a family of this name is among some.
spec fn is_held(families: Set<Family>, name: Seq<char>) -> bool {
    exists|f: Family| #[trigger] families.contains(f) && f.0 == name
}

/// Whether every family has a name.
spec fn named(families: Set<Family>) -> bool {
    forall|f: Family| #[trigger] families.contains(f) ==> f.0.len() > 0
}

/// Whether the first `k` families are registered, and are filed apart.
#[verifier::opaque]
spec fn stands(registry: Registry, k: int) -> bool {
    &&& named(prom::registered(registry))
    &&& hold_names(prom::registered(registry), family_names().take(k))
    &&& filed_apart(family_names().take(k))
}

/// One more family: it has room exactly where its number is its own.
#[verifier::spinoff_prover]
proof fn lemma_one_more_family(families: Set<Family>, k: int, f: Family)
    requires
        0 <= k < family_names().len(),
        f.0 == family_names()[k],
        hold_names(families, family_names().take(k)),
        filed_apart(family_names().take(k)),
    ensures
        hold_names(families.insert(f), family_names().take(k + 1)),
        prom::has_room(families, f.0) <==> filed_apart(family_names().take(k + 1)),
        !prom::has_room(families, f.0) ==> !filed_apart(family_names()),
{
    let before = family_names().take(k);
    let after = family_names().take(k + 1);
    let more = families.insert(f);
    assert(after =~= before.push(f.0));
    assert forall|x: Family| #[trigger] more.contains(x) implies after.contains(x.0) by {
        if x == f {
            assert(after[k] == x.0);
        } else {
            assert(before.contains(x.0));
            let i = choose|i: int| 0 <= i < before.len() && before[i] == x.0;
            assert(after[i] == x.0);
        }
    }
    assert forall|i: int| 0 <= i < after.len() implies is_held(more, #[trigger] after[i]) by {
        if i == k {
            assert(more.contains(f) && f.0 == after[i]);
        } else {
            assert(before[i] == after[i]);
            let x = choose|x: Family| #[trigger] families.contains(x) && x.0 == before[i];
            assert(more.contains(x) && x.0 == after[i]);
        }
    }
    if prom::has_room(families, f.0) {
        assert forall|i: int, j: int| 0 <= i < j < after.len() implies prom::family_id(
            #[trigger] after[i],
        ) != prom::family_id(#[trigger] after[j]) by {
            assert(before[i] == after[i]);
            if j == k {
                let x = choose|x: Family| #[trigger] families.contains(x) && x.0 == before[i];
                assert(families.contains(x));
            } else {
                assert(before[j] == after[j]);
            }
        }
    } else {
        let x = choose|x: Family|
            families.contains(x) && prom::family_id(x.0) == prom::family_id(f.0);
        assert(before.contains(x.0));
        let i = choose|i: int| 0 <= i < before.len() && before[i] == x.0;
        assert(after[i] == x.0 && after[k] == f.0);
        assert(family_names()[i] == x.0);
    }
}

/// The numbers of the families, in the order of their names.
spec fn family_numbers() -> Seq<u64> {
    seq![
        0x271b_2d39_2047_5612,
        0x6977_fcae_a3be_50a4,
        0x96da_a479_5d24_d9fb,
        0x6f9d_7bec_f791_f8d5,
        0xa6d3_3934_85a2_a159,
        0x98b4_383c_19f4_3913,
        0x1f9e_0acf_e725_9280,
        0xec14_2b87_dc47_ee39,
        0x858d_0c2b_a29c_8d80,
        0xa969_e333_364b_0410,
        0x6baa_c79a_bab1_85dc,
        0xc88d_8016_a560_3f04,
        0x9f97_ad1b_a276_ceea,
        0x88df_cff5_9279_0adc,
        0xa7c8_0918_209f_7126,
        0xc994_c7d2_c33c_a436,
        0x4a56_39fa_e891_0a98,
        0xb8ae_4973_b771_b5b0,
    ]
}

/// The registry files every family of the service under a number of its own.
pub proof fn law_families_are_filed_apart()
    ensures
        filed_apart(family_names()),
{
    let names = family_names();
    let numbers = family_numbers();
    lemma_cache_hits_described();
    family_ids::lemma_cache_hits();
    lemma_cache_misses_described();
    family_ids::lemma_cache_misses();
    lemma_semantic_cache_hits_described();
    family_ids::lemma_semantic_cache_hits();
    lemma_semantic_cache_misses_described();
    family_ids::lemma_semantic_cache_misses();
    lemma_semantic_cache_rejections_described();
    family_ids::lemma_semantic_cache_rejections();
    lemma_query_duration_described();
    family_ids::lemma_query_duration();
    lemma_write_duration_described();
    family_ids::lemma_write_duration();
    lemma_active_namespaces_described();
    family_ids::lemma_active_namespaces();
    lemma_s3_requests_described();
    family_ids::lemma_s3_requests();
    lemma_index_build_duration_described();
    family_ids::lemma_index_build_duration();
    lemma_compaction_duration_described();
    family_ids::lemma_compaction_duration();
    lemma_cached_handles_described();
    family_ids::lemma_cached_handles();
    lemma_auth_rejections_described();
    family_ids::lemma_auth_rejections();
    lemma_object_hits_described();
    family_ids::lemma_object_hits();
    lemma_object_misses_described();
    family_ids::lemma_object_misses();
    lemma_object_inner_gets_described();
    family_ids::lemma_object_inner_gets();
    lemma_object_s3_bytes_described();
    family_ids::lemma_object_s3_bytes();
    lemma_object_evictions_described();
    family_ids::lemma_object_evictions();
    assert(names.len() == 18) by {
        reveal(family_names);
    }
    assert forall|i: int| 0 <= i < 18 implies prom::family_id(#[trigger] names[i]) == numbers[i] by {
        reveal(family_names);
    }
    assert forall|i: int, j: int| 0 <= i < j < 18 implies #[trigger] numbers[i]
        != #[trigger] numbers[j] by {}
    assert forall|i: int, j: int| 0 <= i < j < names.len() implies prom::family_id(
        #[trigger] names[i],
    ) != prom::family_id(#[trigger] names[j]) by {
        assert(numbers[i] != numbers[j]);
    }
}

fn metrics_err(e: &Error) -> (r: FirnflowError)
    ensures
        r@ is Metrics,
{
    FirnflowError::Metrics(prom::error_text(e))
}

/// Makes a family of counters and exposes it.
fn counters(registry: &mut Registry, Ghost(k): Ghost<int>, name: &str, help: &str, labels: &Vec<&str>) -> (r: Result<
    CounterFamily,
    FirnflowError,
>)
    requires
        stands(*old(registry), k),
        0 <= k < family_names().len(),
        name@ == family_names()[k],
        prom::describable(name@, help@, prom::texts(labels@)),
        labels@.len() > 0,
    ensures
        match r {
            Ok(f) => stands(*final(registry), k + 1) && prom::counter_family(f) == (name@, help@, prom::texts(labels@))
                && prom::counter_tally(f) == Map::<u64, u64>::empty() && prom::registered(
                *final(registry),
            ) == prom::registered(*old(registry)).insert(prom::counter_family(f)) && prom::cells(
                *final(registry),
            ) == prom::cells(*old(registry)).insert(prom::counter_cell(f)),
            Err(e) => e@ is Metrics && !filed_apart(family_names()),
        },
{
    proof {
        reveal(stands);
        lemma_one_more_family(
            prom::registered(*registry),
            k,
            (name@, help@, prom::texts(labels@)),
        );
    }
    match prom::new_counters(name, help, labels) {
        Ok(f) => match prom::register_counters(registry, &f) {
            Ok(()) => Ok(f),
            Err(e) => Err(metrics_err(&e)),
        },
        Err(e) => Err(metrics_err(&e)),
    }
}

/// Makes a family of histograms and exposes it.
fn histograms(
    registry: &mut Registry,
    Ghost(k): Ghost<int>,
    name: &str,
    help: &str,
    labels: &Vec<&str>,
    bounds: &Vec<u64>,
) -> (r: Result<HistogramFamily, FirnflowError>)
    requires
        stands(*old(registry), k),
        0 <= k < family_names().len(),
        name@ == family_names()[k],
        prom::describable(name@, help@, prom::texts(labels@)),
        labels@.len() > 0,
    ensures
        match r {
            Ok(f) => stands(*final(registry), k + 1) && prom::histogram_family(f) == (name@, help@, prom::texts(labels@))
                && prom::histogram_bounds(f) == bounds@ && prom::observed(f) == Map::<
                u64,
                Seq<u64>,
            >::empty() && prom::registered(*final(registry)) == prom::registered(
                *old(registry),
            ).insert(prom::histogram_family(f)) && prom::cells(*final(registry)) == prom::cells(
                *old(registry),
            ).insert(prom::histogram_cell(f)),
            Err(e) => e@ is Metrics && !filed_apart(family_names()),
        },
{
    proof {
        reveal(stands);
        lemma_one_more_family(
            prom::registered(*registry),
            k,
            (name@, help@, prom::texts(labels@)),
        );
    }
    match prom::new_histograms(name, help, labels, bounds) {
        Ok(f) => match prom::register_histograms(registry, &f) {
            Ok(()) => Ok(f),
            Err(e) => Err(metrics_err(&e)),
        },
        Err(e) => Err(metrics_err(&e)),
    }
}

/// Makes a gauge and exposes it.
fn gauge(registry: &mut Registry, Ghost(k): Ghost<int>, name: &str, help: &str) -> (r: Result<Gauge, FirnflowError>)
    requires
        stands(*old(registry), k),
        0 <= k < family_names().len(),
        name@ == family_names()[k],
        prom::describable(name@, help@, Seq::<Seq<char>>::empty()),
    ensures
        match r {
            Ok(g) => stands(*final(registry), k + 1) && prom::gauge_family(g) == (name@, help@, Seq::<Seq<char>>::empty())
                && prom::gauge_value(g) == 0 && prom::registered(*final(registry))
                == prom::registered(*old(registry)).insert(prom::gauge_family(g)) && prom::cells(
                *final(registry),
            ) == prom::cells(*old(registry)).insert(prom::gauge_cell(g)),
            Err(e) => e@ is Metrics && !filed_apart(family_names()),
        },
{
    proof {
        reveal(stands);
        lemma_one_more_family(
            prom::registered(*registry),
            k,
            (name@, help@, Seq::<Seq<char>>::empty()),
        );
    }
    match prom::new_gauge(name, help) {
        Ok(g) => match prom::register_gauge(registry, &g) {
            Ok(()) => Ok(g),
            Err(e) => Err(metrics_err(&e)),
        },
        Err(e) => Err(metrics_err(&e)),
    }
}

/// Makes a single counter and exposes it.
fn single(registry: &mut Registry, Ghost(k): Ghost<int>, name: &str, help: &str) -> (r: Result<
    SingleCounter,
    FirnflowError,
>)
    requires
        stands(*old(registry), k),
        0 <= k < family_names().len(),
        name@ == family_names()[k],
        prom::describable(name@, help@, Seq::<Seq<char>>::empty()),
    ensures
        match r {
            Ok(c) => stands(*final(registry), k + 1) && prom::single_family(c) == (name@, help@, Seq::<Seq<char>>::empty())
                && prom::single_value(c) == 0 && prom::registered(*final(registry))
                == prom::registered(*old(registry)).insert(prom::single_family(c)) && prom::cells(
                *final(registry),
            ) == prom::cells(*old(registry)).insert(prom::single_cell(c)),
            Err(e) => e@ is Metrics && !filed_apart(family_names()),
        },
{
    proof {
        reveal(stands);
        lemma_one_more_family(
            prom::registered(*registry),
            k,
            (name@, help@, Seq::<Seq<char>>::empty()),
        );
    }
    match prom::new_single(name, help) {
        Ok(c) => match prom::register_single(registry, &c) {
            Ok(()) => Ok(c),
            Err(e) => Err(metrics_err(&e)),
        },
        Err(e) => Err(metrics_err(&e)),
    }
}

impl ObjectCacheMetrics {
    /// The five counts: hits, misses, reads passed on, bytes read, evictions.
    pub closed spec fn counts(&self) -> (u64, u64, u64, u64, u64) {
        (
            prom::single_value(self.hits),
            prom::single_value(self.misses),
            prom::single_value(self.inner_gets),
            prom::single_value(self.s3_bytes),
            prom::single_value(self.evictions),
        )
    }

    /// Whether a registry exposes the five counters under their names.
    spec fn exposed_in(&self, registry: Registry) -> bool {
        &&& single_in(registry, self.hits, family_object_hits())
        &&& single_in(registry, self.misses, family_object_misses())
        &&& single_in(registry, self.inner_gets, family_object_inner_gets())
        &&& single_in(registry, self.s3_bytes, family_object_s3_bytes())
        &&& single_in(registry, self.evictions, family_object_evictions())
    }

    /// Makes the counters and exposes them.
    fn register(registry: &mut Registry) -> (r: Result<ObjectCacheMetrics, FirnflowError>)
        requires
            stands(*old(registry), 13),
        ensures
            r is Ok <==> filed_apart(family_names()),
            match r {
                Ok(m) => m.counts() == (0u64, 0u64, 0u64, 0u64, 0u64) && prom::registered(
                    *final(registry),
                ) == with_object_cache(prom::registered(*old(registry))) && m.exposed_in(
                    *final(registry),
                ) && prom::cells(*old(registry)).subset_of(prom::cells(*final(registry))) && named(
                    prom::registered(*final(registry)),
                ),
                Err(e) => e@ is Metrics,
            },
    {
        proof {
            lemma_object_hits_described();
        }
        let hits = match single(
            registry,
            Ghost(13),
            "firnflow_object_cache_hits_total",
            "Object-store reads served from the local cache.",
        ) {
            Ok(c) => c,
            Err(e) => {
                return Err(e);
            },
        };
        proof {
            lemma_object_misses_described();
        }
        let misses = match single(
            registry,
            Ghost(14),
            "firnflow_object_cache_misses_total",
            "Object-store reads that the local cache could not serve.",
        ) {
            Ok(c) => c,
            Err(e) => {
                return Err(e);
            },
        };
        proof {
            lemma_object_inner_gets_described();
        }
        let inner_gets = match single(
            registry,
            Ghost(15),
            "firnflow_object_cache_inner_gets_total",
            "Reads that went through to the object store.",
        ) {
            Ok(c) => c,
            Err(e) => {
                return Err(e);
            },
        };
        proof {
            lemma_object_s3_bytes_described();
        }
        let s3_bytes = match single(
            registry,
            Ghost(16),
            "firnflow_object_cache_s3_bytes_total",
            "Bytes read from the object store.",
        ) {
            Ok(c) => c,
            Err(e) => {
                return Err(e);
            },
        };
        proof {
            lemma_object_evictions_described();
        }
        let evictions = match single(
            registry,
            Ghost(17),
            "firnflow_object_cache_evictions_total",
            "Entries evicted from the local cache.",
        ) {
            Ok(c) => c,
            Err(e) => {
                return Err(e);
            },
        };
        proof {
            assert(named(prom::registered(*registry)) && filed_apart(family_names())) by {
                reveal(stands);
                reveal(family_names);
                assert(family_names().take(18) =~= family_names());
            }
        }
        Ok(ObjectCacheMetrics { hits, misses, inner_gets, s3_bytes, evictions })
    }
}

/// Whether a registry exposes a family of counters as this family.
spec fn counter_in(registry: Registry, f: CounterFamily, family: Family) -> bool {
    prom::counter_family(f) == family && prom::cells(registry).contains(prom::counter_cell(f))
}

/// Whether a registry exposes a family of histograms as this family.
spec fn histogram_in(registry: Registry, f: HistogramFamily, family: Family) -> bool {
    prom::histogram_family(f) == family && prom::cells(registry).contains(prom::histogram_cell(f))
}

/// Whether a registry exposes a gauge as this family.
spec fn gauge_in(registry: Registry, g: Gauge, family: Family) -> bool {
    prom::gauge_family(g) == family && prom::cells(registry).contains(prom::gauge_cell(g))
}

/// Whether a registry exposes a single counter as this family.
spec fn single_in(registry: Registry, c: SingleCounter, family: Family) -> bool {
    prom::single_family(c) == family && prom::cells(registry).contains(prom::single_cell(c))
}

/// Whether a text shows what the metrics have recorded.
pub open spec fn shows(text: Seq<char>, m: MetricsView) -> bool {
    &&& prom::counter_shown(text, family_cache_hits(), m.cache_hits)
    &&& prom::counter_shown(text, family_cache_misses(), m.cache_misses)
    &&& prom::counter_shown(text, family_semantic_cache_hits(), m.semantic_cache_hits)
    &&& prom::counter_shown(text, family_semantic_cache_misses(), m.semantic_cache_misses)
    &&& prom::counter_shown(text, family_semantic_cache_rejections(), m.semantic_cache_rejections)
    &&& prom::histogram_shown(text, family_query_duration(), m.query_duration)
    &&& prom::histogram_shown(text, family_write_duration(), m.write_duration)
    &&& prom::gauge_shown(text, family_active_namespaces(), m.active_namespaces)
    &&& prom::counter_shown(text, family_s3_requests(), m.s3_requests)
    &&& prom::histogram_shown(text, family_index_build_duration(), m.index_build_duration)
    &&& prom::histogram_shown(text, family_compaction_duration(), m.compaction_duration)
    &&& prom::gauge_shown(text, family_cached_handles(), m.cached_handles)
    &&& prom::counter_shown(text, family_auth_rejections(), m.auth_rejections)
    &&& shows_object_cache(text, m.object_cache)
}

/// Whether a text shows the five counts of the byte-range cache.
pub open spec fn shows_object_cache(text: Seq<char>, counts: (u64, u64, u64, u64, u64)) -> bool {
    &&& prom::single_shown(text, family_object_hits(), counts.0)
    &&& prom::single_shown(text, family_object_misses(), counts.1)
    &&& prom::single_shown(text, family_object_inner_gets(), counts.2)
    &&& prom::single_shown(text, family_object_s3_bytes(), counts.3)
    &&& prom::single_shown(text, family_object_evictions(), counts.4)
}

/// Whether a family of counters has this many labels.
spec fn labelled(f: CounterFamily, n: nat) -> bool {
    prom::counter_family(f).2.len() == n
}

/// Whether a family of histograms has this many labels and can be observed.
spec fn observable(f: HistogramFamily, n: nat) -> bool {
    &&& prom::histogram_family(f).2.len() == n
    &&& !prom::histogram_family(f).2.contains("le"@)
    &&& prom::increasing(prom::histogram_bounds(f))
}

impl View for CoreMetrics {
    type V = MetricsView;

    closed spec fn view(&self) -> MetricsView {
        MetricsView {
            cache_hits: prom::counter_tally(self.cache_hits),
            cache_misses: prom::counter_tally(self.cache_misses),
            semantic_cache_hits: prom::counter_tally(self.semantic_cache_hits),
            semantic_cache_misses: prom::counter_tally(self.semantic_cache_misses),
            semantic_cache_rejections: prom::counter_tally(self.semantic_cache_rejections),
            query_duration: prom::observed(self.query_duration),
            write_duration: prom::observed(self.write_duration),
            active_namespaces: prom::gauge_value(self.active_namespaces),
            s3_requests: prom::counter_tally(self.s3_requests),
            index_build_duration: prom::observed(self.index_build_duration),
            compaction_duration: prom::observed(self.compaction_duration),
            cached_handles: prom::gauge_value(self.cached_handles),
            auth_rejections: prom::counter_tally(self.auth_rejections),
            seen: shared::text_set(self.seen_namespaces),
            families: prom::registered(self.registry),
            bounds: Bounds {
                query: prom::histogram_bounds(self.query_duration),
                write: prom::histogram_bounds(self.write_duration),
                index_build: prom::histogram_bounds(self.index_build_duration),
                compaction: prom::histogram_bounds(self.compaction_duration),
            },
            object_cache: self.object_cache.counts(),
        }
    }
}

/// The gauge of active namespaces counts the namespaces seen, as far as it can
/// count them.
pub open spec fn counts_active(m: MetricsView) -> bool {
    m.seen.finite() && (m.seen.len() <= i64::MAX ==> m.active_namespaces == m.seen.len())
}

fn bounds_of_builds() -> (r: Vec<u64>)
    ensures
        r@ == seq![1u64, 5, 10, 30, 60, 120, 300, 600],
{
    vec![1, 5, 10, 30, 60, 120, 300, 600]
}

impl CoreMetrics {
    /// Whether the registry exposes every family under its name.
    spec fn exposed(&self) -> bool {
        &&& named(prom::registered(self.registry))
        &&& counter_in(self.registry, self.cache_hits, family_cache_hits())
        &&& counter_in(self.registry, self.cache_misses, family_cache_misses())
        &&& counter_in(self.registry, self.semantic_cache_hits, family_semantic_cache_hits())
        &&& counter_in(self.registry, self.semantic_cache_misses, family_semantic_cache_misses())
        &&& counter_in(
            self.registry,
            self.semantic_cache_rejections,
            family_semantic_cache_rejections(),
        )
        &&& histogram_in(self.registry, self.query_duration, family_query_duration())
        &&& histogram_in(self.registry, self.write_duration, family_write_duration())
        &&& gauge_in(self.registry, self.active_namespaces, family_active_namespaces())
        &&& counter_in(self.registry, self.s3_requests, family_s3_requests())
        &&& histogram_in(self.registry, self.index_build_duration, family_index_build_duration())
        &&& histogram_in(self.registry, self.compaction_duration, family_compaction_duration())
        &&& gauge_in(self.registry, self.cached_handles, family_cached_handles())
        &&& counter_in(self.registry, self.auth_rejections, family_auth_rejections())
        &&& self.object_cache.exposed_in(self.registry)
    }

    /// Every family has the labels that it is recorded with and is exposed under
    /// its name, and the gauge of active namespaces counts the namespaces seen.
    pub closed spec fn wf(&self) -> bool {
        &&& labelled(self.cache_hits, 1)
        &&& labelled(self.cache_misses, 1)
        &&& labelled(self.semantic_cache_hits, 1)
        &&& labelled(self.semantic_cache_misses, 1)
        &&& labelled(self.semantic_cache_rejections, 2)
        &&& observable(self.query_duration, 2)
        &&& observable(self.write_duration, 1)
        &&& labelled(self.s3_requests, 2)
        &&& observable(self.index_build_duration, 2)
        &&& observable(self.compaction_duration, 1)
        &&& labelled(self.auth_rejections, 1)
        &&& counts_active(self@)
        &&& self.exposed()
    }

    /// The gauge of active namespaces always shows how many namespaces were
    /// touched, as long as that number fits in it.
    pub proof fn law_active_gauge_counts_namespaces(&self)
        requires
            self.wf(),
        ensures
            counts_active(self@),
    {
    }

    /// Makes the registry and every family in it.
    pub fn new() -> (r: Result<CoreMetrics, FirnflowError>)
        ensures
            r is Ok,
            r matches Ok(m) ==> m.wf() && m@ == fresh_metrics(all_families()),
            r matches Ok(m) ==> m.object_cache().counts() == m@.object_cache,
    {
        proof {
            law_families_are_filed_apart();
        }
        let mut registry = prom::new_registry();
        let none: Vec<u64> = Vec::new();
        proof {
            lemma_no_label_is_le();
            reveal(stands);
            assert(stands(registry, 0));
        }
        let labels = vec!["namespace"];
        proof {
            assert(prom::texts(labels@) =~= family_cache_hits().2);
            lemma_cache_hits_described();
        }
        let cache_hits = match counters(
            &mut registry,
            Ghost(0),
            "firnflow_cache_hits_total",
            "Cache hits, keyed by namespace.",
            &labels,
        ) {
            Ok(f) => f,
            Err(e) => {
                return Err(e);
            },
        };
        let labels = vec!["namespace"];
        proof {
            assert(prom::texts(labels@) =~= family_cache_misses().2);
            lemma_cache_misses_described();
        }
        let cache_misses = match counters(
            &mut registry,
            Ghost(1),
            "firnflow_cache_misses_total",
            "Cache misses, keyed by namespace.",
            &labels,
        ) {
            Ok(f) => f,
            Err(e) => {
                return Err(e);
            },
        };
        let labels = vec!["namespace"];
        proof {
            assert(prom::texts(labels@) =~= family_semantic_cache_hits().2);
            lemma_semantic_cache_hits_described();
        }
        let semantic_cache_hits = match counters(
            &mut registry,
            Ghost(2),
            "firnflow_semantic_cache_hits_total",
            "Opt-in semantic-cache hits: a previously-cached result whose query vector was within the caller-supplied (or default) cosine threshold of the incoming request. Always preceded by an exact result-cache miss — exact hits never consult the semantic layer.",
            &labels,
        ) {
            Ok(f) => f,
            Err(e) => {
                return Err(e);
            },
        };
        let labels = vec!["namespace"];
        proof {
            assert(prom::texts(labels@) =~= family_semantic_cache_misses().2);
            lemma_semantic_cache_misses_described();
        }
        let semantic_cache_misses = match counters(
            &mut registry,
            Ghost(3),
            "firnflow_semantic_cache_misses_total",
            "Opt-in semantic-cache misses: semantic caching was enabled and eligible, but no cached query vector cleared the cosine threshold. Counted once per query, after the exact-cache miss.",
            &labels,
        ) {
            Ok(f) => f,
            Err(e) => {
                return Err(e);
            },
        };
        let labels = vec!["namespace", "reason"];
        proof {
            assert(prom::texts(labels@) =~= family_semantic_cache_rejections().2);
            lemma_semantic_cache_rejections_described();
        }
        let semantic_cache_rejections = match counters(
            &mut registry,
            Ghost(4),
            "firnflow_semantic_cache_rejections_total",
            "Opt-in semantic-cache lookups rejected before any similarity check. `reason` is one of: `unsupported_query_shape` (eligibility rule failed at lookup time — request shape mismatched the v1 single-vector constraints), `empty_index` (no cached entries for this namespace generation).",
            &labels,
        ) {
            Ok(f) => f,
            Err(e) => {
                return Err(e);
            },
        };
        let labels = vec!["namespace", "query_type"];
        proof {
            assert(prom::texts(labels@) =~= family_query_duration().2);
            lemma_query_duration_described();
        }
        let query_duration = match histograms(
            &mut registry,
            Ghost(5),
            "firnflow_query_duration_seconds",
            "End-to-end query latency, including cache lookup and any cache-miss backend round-trip.",
            &labels,
            &none,
        ) {
            Ok(f) => f,
            Err(e) => {
                return Err(e);
            },
        };
        let labels = vec!["namespace"];
        proof {
            assert(prom::texts(labels@) =~= family_write_duration().2);
            lemma_write_duration_described();
        }
        let write_duration = match histograms(
            &mut registry,
            Ghost(6),
            "firnflow_write_duration_seconds",
            "End-to-end upsert latency, including the cache invalidation step.",
            &labels,
            &none,
        ) {
            Ok(f) => f,
            Err(e) => {
                return Err(e);
            },
        };
        proof {
            lemma_active_namespaces_described();
        }
        let active_namespaces = match gauge(
            &mut registry,
            Ghost(7),
            "firnflow_active_namespaces",
            "Distinct namespaces touched by this process since startup.",
        ) {
            Ok(f) => f,
            Err(e) => {
                return Err(e);
            },
        };
        let labels = vec!["namespace", "operation"];
        proof {
            assert(prom::texts(labels@) =~= family_s3_requests().2);
            lemma_s3_requests_described();
        }
        let s3_requests = match counters(
            &mut registry,
            Ghost(8),
            "firnflow_s3_requests_total",
            "firnflow-initiated operations that bypassed the cache and would have issued S3 traffic. Counted at the service boundary (one per upsert, one per cache-miss query), not at raw `object_store` call granularity — this is the signal for 'did the cache save a round-trip', not a faithful count of HTTP requests to S3.",
            &labels,
        ) {
            Ok(f) => f,
            Err(e) => {
                return Err(e);
            },
        };
        let labels = vec!["namespace", "kind"];
        proof {
            assert(prom::texts(labels@) =~= family_index_build_duration().2);
            lemma_index_build_duration_described();
        }
        let index_build_duration = match histograms(
            &mut registry,
            Ghost(9),
            "firnflow_index_build_duration_seconds",
            "Time to build a vector index. The 'Index Tax' — operators pay this once per index build in exchange for dramatically faster queries.",
            &labels,
            &bounds_of_builds(),
        ) {
            Ok(f) => f,
            Err(e) => {
                return Err(e);
            },
        };
        let labels = vec!["namespace"];
        proof {
            assert(prom::texts(labels@) =~= family_compaction_duration().2);
            lemma_compaction_duration_described();
        }
        let compaction_duration = match histograms(
            &mut registry,
            Ghost(10),
            "firnflow_compaction_duration_seconds",
            "Time to compact a namespace's data files. Merges small fragments into fewer, larger files to reduce S3 round-trips on the read path.",
            &labels,
            &bounds_of_builds(),
        ) {
            Ok(f) => f,
            Err(e) => {
                return Err(e);
            },
        };
        proof {
            lemma_cached_handles_described();
        }
        let cached_handles = match gauge(
            &mut registry,
            Ghost(11),
            "firnflow_cached_handles",
            "Number of namespaces with a warm `lancedb::Connection` + `lancedb::Table` handle in the in-process pool. Compare against `firnflow_active_namespaces` — the delta is the number of active namespaces that will pay cold-open cost on their next request.",
        ) {
            Ok(f) => f,
            Err(e) => {
                return Err(e);
            },
        };
        let labels = vec!["reason"];
        proof {
            assert(prom::texts(labels@) =~= family_auth_rejections().2);
            lemma_auth_rejections_described();
        }
        let auth_rejections = match counters(
            &mut registry,
            Ghost(12),
            "firnflow_auth_rejections_total",
            "Requests rejected before reaching their handler. The `reason` label is one of: `missing` (no Authorization header), `invalid` (header present but token does not match a configured key), `forbidden` (valid token, insufficient scope for the route), `rate_limited` (rejected by either rate limiter). Use this to detect misconfigured keys after a rotation (spike in `missing`) or credential-stuffing pressure (spike in `invalid` or `rate_limited`).",
            &labels,
        ) {
            Ok(f) => f,
            Err(e) => {
                return Err(e);
            },
        };
        let object_cache = match ObjectCacheMetrics::register(&mut registry) {
            Ok(c) => c,
            Err(e) => {
                return Err(e);
            },
        };
        Ok(
            CoreMetrics {
                registry,
                cache_hits,
                cache_misses,
                semantic_cache_hits,
                semantic_cache_misses,
                semantic_cache_rejections,
                query_duration,
                write_duration,
                active_namespaces,
                s3_requests,
                index_build_duration,
                compaction_duration,
                cached_handles,
                auth_rejections,
                object_cache,
                seen_namespaces: shared::new_text_set(),
            },
        )
    }

    /// The registry, for exposing the metrics. A copy of it shares the families:
    /// what is registered or recorded through one shows in the other.
    pub fn registry(&self) -> (r: &Registry)
        ensures
            prom::registered(*r) == self@.families,
    {
        &self.registry
    }

    /// The counters of the byte-range cache.
    #[verifier::when_used_as_spec(spec_object_cache)]
    pub fn object_cache(&self) -> (r: &ObjectCacheMetrics)
        ensures
            r == self.object_cache(),
    {
        &self.object_cache
    }

    /// The counters of the byte-range cache.
    pub closed spec fn spec_object_cache(&self) -> &ObjectCacheMetrics {
        &self.object_cache
    }

    /// The metrics as an exposition text, which shows all that was recorded.
    pub fn encode(&self) -> (r: Result<String, FirnflowError>)
        ensures
            self.wf() ==> r is Ok,
            match r {
                Ok(s) => self.wf() ==> shows(s@, self@),
                Err(e) => e@ is Metrics,
            },
    {
        let counters = vec![
            &self.cache_hits,
            &self.cache_misses,
            &self.semantic_cache_hits,
            &self.semantic_cache_misses,
            &self.semantic_cache_rejections,
            &self.s3_requests,
            &self.auth_rejections,
        ];
        let histograms = vec![
            &self.query_duration,
            &self.write_duration,
            &self.index_build_duration,
            &self.compaction_duration,
        ];
        let gauges = vec![&self.active_namespaces, &self.cached_handles];
        let singles = vec![
            &self.object_cache.hits,
            &self.object_cache.misses,
            &self.object_cache.inner_gets,
            &self.object_cache.s3_bytes,
            &self.object_cache.evictions,
        ];
        match prom::exposition_bytes(&self.registry, &counters, &histograms, &gauges, &singles) {
            Ok(bytes) => {
                proof {
                    let text = vstd::utf8::decode_utf8(bytes@);
                    if self.wf() {
                        assert(counters@[0] == self.cache_hits);
                        assert(counters@[1] == self.cache_misses);
                        assert(counters@[2] == self.semantic_cache_hits);
                        assert(counters@[3] == self.semantic_cache_misses);
                        assert(counters@[4] == self.semantic_cache_rejections);
                        assert(counters@[5] == self.s3_requests);
                        assert(counters@[6] == self.auth_rejections);
                        assert(histograms@[0] == self.query_duration);
                        assert(histograms@[1] == self.write_duration);
                        assert(histograms@[2] == self.index_build_duration);
                        assert(histograms@[3] == self.compaction_duration);
                        assert(gauges@[0] == self.active_namespaces);
                        assert(gauges@[1] == self.cached_handles);
                        assert(singles@[0] == self.object_cache.hits);
                        assert(singles@[1] == self.object_cache.misses);
                        assert(singles@[2] == self.object_cache.inner_gets);
                        assert(singles@[3] == self.object_cache.s3_bytes);
                        assert(singles@[4] == self.object_cache.evictions);
                        assert(shows_object_cache(text, self@.object_cache));
                        assert(shows(text, self@));
                    }
                }
                exposition(bytes)
            },
            Err(e) => Err(metrics_err(&e)),
        }
    }

    /// Counts a namespace the first time it is seen.
    fn touch(&mut self, ns: &NamespaceId)
        requires
            old(self).wf(),
        ensures
            final(self).wf(),
            final(self)@ == touched(old(self)@, ns@),
            final(self).object_cache() == old(self).object_cache(),
    {
        if shared::set_insert(&mut self.seen_namespaces, ns.as_str()) {
            prom::gauge_inc(&mut self.active_namespaces);
        } else {
            assert(self@.seen =~= old(self)@.seen);
        }
    }

    /// Records a cache hit.
    pub fn record_cache_hit(&mut self, ns: &NamespaceId)
        requires
            old(self).wf(),
        ensures
            final(self).wf(),
            final(self)@ == (MetricsView {
                cache_hits: prom::bumped(old(self)@.cache_hits, slot1(ns@)),
                ..touched(old(self)@, ns@)
            }),
    {
        self.touch(ns);
        let values = vec![ns.as_str()];
        assert(prom::texts(values@) =~= seq![ns@]);
        prom::increment(&mut self.cache_hits, &values);
    }

    /// Records a cache miss.
    pub fn record_cache_miss(&mut self, ns: &NamespaceId)
        requires
            old(self).wf(),
        ensures
            final(self).wf(),
            final(self)@ == (MetricsView {
                cache_misses: prom::bumped(old(self)@.cache_misses, slot1(ns@)),
                ..touched(old(self)@, ns@)
            }),
    {
        self.touch(ns);
        let values = vec![ns.as_str()];
        assert(prom::texts(values@) =~= seq![ns@]);
        prom::increment(&mut self.cache_misses, &values);
    }

    /// Records a semantic-cache hit.
    pub fn record_semantic_cache_hit(&mut self, ns: &NamespaceId)
        requires
            old(self).wf(),
        ensures
            final(self).wf(),
            final(self)@ == (MetricsView {
                semantic_cache_hits: prom::bumped(old(self)@.semantic_cache_hits, slot1(ns@)),
                ..touched(old(self)@, ns@)
            }),
    {
        self.touch(ns);
        let values = vec![ns.as_str()];
        assert(prom::texts(values@) =~= seq![ns@]);
        prom::increment(&mut self.semantic_cache_hits, &values);
    }

    /// Records a semantic-cache miss: eligible, but no cached vector was close enough.
    pub fn record_semantic_cache_miss(&mut self, ns: &NamespaceId)
        requires
            old(self).wf(),
        ensures
            final(self).wf(),
            final(self)@ == (MetricsView {
                semantic_cache_misses: prom::bumped(old(self)@.semantic_cache_misses, slot1(ns@)),
                ..touched(old(self)@, ns@)
            }),
    {
        self.touch(ns);
        let values = vec![ns.as_str()];
        assert(prom::texts(values@) =~= seq![ns@]);
        prom::increment(&mut self.semantic_cache_misses, &values);
    }

    /// Records a semantic-cache rejection: `unsupported_query_shape` or `empty_index`.
    pub fn record_semantic_cache_rejection(&mut self, ns: &NamespaceId, reason: &str)
        requires
            old(self).wf(),
        ensures
            final(self).wf(),
            final(self)@ == (MetricsView {
                semantic_cache_rejections: prom::bumped(old(self)@.semantic_cache_rejections, slot2(ns@, reason@)),
                ..touched(old(self)@, ns@)
            }),
    {
        self.touch(ns);
        let values = vec![ns.as_str(), reason];
        assert(prom::texts(values@) =~= seq![ns@, reason@]);
        prom::increment(&mut self.semantic_cache_rejections, &values);
    }

    /// Semantic-cache hits of a namespace.
    pub fn semantic_cache_hits_value(&self, ns: &NamespaceId) -> (r: u64)
        requires
            self.wf(),
        ensures
            r == prom::count_in(self@.semantic_cache_hits, slot1(ns@)),
    {
        let values = vec![ns.as_str()];
        assert(prom::texts(values@) =~= seq![ns@]);
        prom::counter_value(&self.semantic_cache_hits, &values)
    }

    /// Semantic-cache misses of a namespace.
    pub fn semantic_cache_misses_value(&self, ns: &NamespaceId) -> (r: u64)
        requires
            self.wf(),
        ensures
            r == prom::count_in(self@.semantic_cache_misses, slot1(ns@)),
    {
        let values = vec![ns.as_str()];
        assert(prom::texts(values@) =~= seq![ns@]);
        prom::counter_value(&self.semantic_cache_misses, &values)
    }

    /// Semantic-cache rejections of a namespace for a reason.
    pub fn semantic_cache_rejections_value(&self, ns: &NamespaceId, reason: &str) -> (r: u64)
        requires
            self.wf(),
        ensures
            r == prom::count_in(self@.semantic_cache_rejections, slot2(ns@, reason@)),
    {
        let values = vec![ns.as_str(), reason];
        assert(prom::texts(values@) =~= seq![ns@, reason@]);
        prom::counter_value(&self.semantic_cache_rejections, &values)
    }

    /// Records the duration of a query.
    pub fn record_query(&mut self, ns: &NamespaceId, query_type: &str, nanos: u64)
        requires
            old(self).wf(),
        ensures
            final(self).wf(),
            final(self)@ == (MetricsView {
                query_duration: prom::noted(old(self)@.query_duration, slot2(ns@, query_type@), nanos),
                ..touched(old(self)@, ns@)
            }),
    {
        self.touch(ns);
        let values = vec![ns.as_str(), query_type];
        assert(prom::texts(values@) =~= seq![ns@, query_type@]);
        prom::observe(&mut self.query_duration, &values, nanos);
    }

    /// Records the duration of a write.
    pub fn record_write(&mut self, ns: &NamespaceId, nanos: u64)
        requires
            old(self).wf(),
        ensures
            final(self).wf(),
            final(self)@ == (MetricsView {
                write_duration: prom::noted(old(self)@.write_duration, slot1(ns@), nanos),
                ..touched(old(self)@, ns@)
            }),
    {
        self.touch(ns);
        let values = vec![ns.as_str()];
        assert(prom::texts(values@) =~= seq![ns@]);
        prom::observe(&mut self.write_duration, &values, nanos);
    }

    /// Records an operation that goes to storage.
    pub fn record_s3_request(&mut self, ns: &NamespaceId, operation: &str)
        requires
            old(self).wf(),
        ensures
            final(self).wf(),
            final(self)@ == storage_request(old(self)@, ns@, operation@),
    {
        self.touch(ns);
        let values = vec![ns.as_str(), operation];
        assert(prom::texts(values@) =~= seq![ns@, operation@]);
        prom::increment(&mut self.s3_requests, &values);
    }

    /// Records the duration of an index build.
    pub fn record_index_build(&mut self, ns: &NamespaceId, kind: &str, nanos: u64)
        requires
            old(self).wf(),
        ensures
            final(self).wf(),
            final(self)@ == (MetricsView {
                index_build_duration: prom::noted(old(self)@.index_build_duration, slot2(ns@, kind@), nanos),
                ..touched(old(self)@, ns@)
            }),
    {
        self.touch(ns);
        let values = vec![ns.as_str(), kind];
        assert(prom::texts(values@) =~= seq![ns@, kind@]);
        prom::observe(&mut self.index_build_duration, &values, nanos);
    }

    /// Records the duration of a compaction.
    pub fn record_compaction(&mut self, ns: &NamespaceId, nanos: u64)
        requires
            old(self).wf(),
        ensures
            final(self).wf(),
            final(self)@ == (MetricsView {
                compaction_duration: prom::noted(old(self)@.compaction_duration, slot1(ns@), nanos),
                ..touched(old(self)@, ns@)
            }),
    {
        self.touch(ns);
        let values = vec![ns.as_str()];
        assert(prom::texts(values@) =~= seq![ns@]);
        prom::observe(&mut self.compaction_duration, &values, nanos);
    }

    /// One more handle in the pool.
    pub fn inc_cached_handles(&mut self)
        requires
            old(self).wf(),
        ensures
            final(self).wf(),
            final(self)@ == handle_added(old(self)@),
    {
        prom::gauge_inc(&mut self.cached_handles);
    }

    /// One handle less in the pool.
    pub fn dec_cached_handles(&mut self)
        requires
            old(self).wf(),
        ensures
            final(self).wf(),
            final(self)@ == handle_dropped(old(self)@),
    {
        prom::gauge_dec(&mut self.cached_handles);
    }

    /// Handles in the pool.
    pub fn cached_handles_value(&self) -> (r: i64)
        ensures
            r == self@.cached_handles,
    {
        prom::gauge_get(&self.cached_handles)
    }

    /// Records a request that was turned away before its handler: `missing`,
    /// `invalid`, `forbidden` or `rate_limited`.
    pub fn record_auth_rejection(&mut self, reason: &str)
        requires
            old(self).wf(),
        ensures
            final(self).wf(),
            final(self)@ == (MetricsView {
                auth_rejections: prom::bumped(old(self)@.auth_rejections, slot1(reason@)),
                ..old(self)@
            }),
    {
        let values = vec![reason];
        assert(prom::texts(values@) =~= seq![reason@]);
        prom::increment(&mut self.auth_rejections, &values);
    }

    /// Requests turned away for a reason.
    pub fn auth_rejections_value(&self, reason: &str) -> (r: u64)
        requires
            self.wf(),
        ensures
            r == prom::count_in(self@.auth_rejections, slot1(reason@)),
    {
        let values = vec![reason];
        assert(prom::texts(values@) =~= seq![reason@]);
        prom::counter_value(&self.auth_rejections, &values)
    }
}

/// The exposition text of the bytes that the encoder wrote.
pub fn exposition(bytes: Vec<u8>) -> (r: Result<String, FirnflowError>)
    ensures
        match r {
            Ok(s) => vstd::utf8::valid_utf8(bytes@) && s@ == vstd::utf8::decode_utf8(bytes@),
            Err(e) => !vstd::utf8::valid_utf8(bytes@) && e@ == ErrorView::Metrics(
                prom::utf8_complaint(bytes@),
            ),
        },
{
    match prom::utf8_text(bytes) {
        Ok(s) => Ok(s),
        Err(m) => Err(FirnflowError::Metrics(m)),
    }
}

/// Metrics for tests and stand-alone tools.
pub fn test_metrics() -> (r: CoreMetrics)
    ensures
        r.wf(),
        r@ == fresh_metrics(all_families()),
{
    CoreMetrics::new().unwrap()
}

proof fn lemma_no_label_is_le()
    ensures
        "namespace"@ != "le"@,
        "query_type"@ != "le"@,
        "kind"@ != "le"@,
{
    reveal_strlit("le");
    reveal_strlit("namespace");
    reveal_strlit("query_type");
    reveal_strlit("kind");
    assert("le"@.len() == 2 && "namespace"@.len() == 9 && "query_type"@.len() == 10 && "kind"@.len()
        == 4);
}

/// The label names are names.
proof fn lemma_labels()
    ensures
        prom::is_name("kind"@, false),
        prom::is_name("namespace"@, false),
        prom::is_name("operation"@, false),
        prom::is_name("query_type"@, false),
        prom::is_name("reason"@, false),
        "namespace"@ != "reason"@,
        "namespace"@ != "query_type"@,
        "namespace"@ != "operation"@,
        "namespace"@ != "kind"@,
{
    reveal_with_fuel(prom::fits_up_to, 12);
    reveal_strlit("namespace");
    reveal_strlit("operation");
    assert("namespace"@[0] == 'n' && "operation"@[0] == 'o');
    reveal_strlit("kind");
    assert("kind"@.len() == 4);
    prom::lemma_name("kind"@, 4, false);
    reveal_strlit("namespace");
    assert("namespace"@.len() == 9);
    prom::lemma_name("namespace"@, 9, false);
    reveal_strlit("operation");
    assert("operation"@.len() == 9);
    prom::lemma_name("operation"@, 9, false);
    reveal_strlit("query_type");
    assert("query_type"@.len() == 10);
    prom::lemma_name("query_type"@, 10, false);
    reveal_strlit("reason");
    assert("reason"@.len() == 6);
    prom::lemma_name("reason"@, 6, false);
}

proof fn lemma_cache_hits_described()
    ensures
        prom::describable(family_cache_hits().0, family_cache_hits().1, family_cache_hits().2),
        family_names().len() > 0,
        family_names()[0] == family_cache_hits().0,
{
    reveal(family_names);
    lemma_labels();
    reveal_strlit("firnflow_cache_hits_total");
    reveal_strlit("Cache hits, keyed by namespace.");
    assert("firnflow_cache_hits_total"@.len() == 25);
    reveal_with_fuel(prom::fits_up_to, 26);
    prom::lemma_name("firnflow_cache_hits_total"@, 25, true);
}

proof fn lemma_cache_misses_described()
    ensures
        prom::describable(family_cache_misses().0, family_cache_misses().1, family_cache_misses().2),
        family_names().len() > 1,
        family_names()[1] == family_cache_misses().0,
{
    reveal(family_names);
    lemma_labels();
    reveal_strlit("firnflow_cache_misses_total");
    reveal_strlit("Cache misses, keyed by namespace.");
    assert("firnflow_cache_misses_total"@.len() == 27);
    reveal_with_fuel(prom::fits_up_to, 28);
    prom::lemma_name("firnflow_cache_misses_total"@, 27, true);
}

proof fn lemma_semantic_cache_hits_described()
    ensures
        prom::describable(family_semantic_cache_hits().0, family_semantic_cache_hits().1, family_semantic_cache_hits().2),
        family_names().len() > 2,
        family_names()[2] == family_semantic_cache_hits().0,
{
    reveal(family_names);
    lemma_labels();
    reveal_strlit("firnflow_semantic_cache_hits_total");
    reveal_strlit("Opt-in semantic-cache hits: a previously-cached result whose query vector was within the caller-supplied (or default) cosine threshold of the incoming request. Always preceded by an exact result-cache miss — exact hits never consult the semantic layer.");
    assert("firnflow_semantic_cache_hits_total"@.len() == 34);
    reveal_with_fuel(prom::fits_up_to, 35);
    prom::lemma_name("firnflow_semantic_cache_hits_total"@, 34, true);
}

proof fn lemma_semantic_cache_misses_described()
    ensures
        prom::describable(family_semantic_cache_misses().0, family_semantic_cache_misses().1, family_semantic_cache_misses().2),
        family_names().len() > 3,
        family_names()[3] == family_semantic_cache_misses().0,
{
    reveal(family_names);
    lemma_labels();
    reveal_strlit("firnflow_semantic_cache_misses_total");
    reveal_strlit("Opt-in semantic-cache misses: semantic caching was enabled and eligible, but no cached query vector cleared the cosine threshold. Counted once per query, after the exact-cache miss.");
    assert("firnflow_semantic_cache_misses_total"@.len() == 36);
    reveal_with_fuel(prom::fits_up_to, 37);
    prom::lemma_name("firnflow_semantic_cache_misses_total"@, 36, true);
}

proof fn lemma_semantic_cache_rejections_described()
    ensures
        prom::describable(family_semantic_cache_rejections().0, family_semantic_cache_rejections().1, family_semantic_cache_rejections().2),
        family_names().len() > 4,
        family_names()[4] == family_semantic_cache_rejections().0,
{
    reveal(family_names);
    lemma_labels();
    reveal_strlit("firnflow_semantic_cache_rejections_total");
    reveal_strlit("Opt-in semantic-cache lookups rejected before any similarity check. `reason` is one of: `unsupported_query_shape` (eligibility rule failed at lookup time — request shape mismatched the v1 single-vector constraints), `empty_index` (no cached entries for this namespace generation).");
    assert("firnflow_semantic_cache_rejections_total"@.len() == 40);
    reveal_with_fuel(prom::fits_up_to, 41);
    prom::lemma_name("firnflow_semantic_cache_rejections_total"@, 40, true);
}

proof fn lemma_query_duration_described()
    ensures
        prom::describable(family_query_duration().0, family_query_duration().1, family_query_duration().2),
        family_names().len() > 5,
        family_names()[5] == family_query_duration().0,
{
    reveal(family_names);
    lemma_labels();
    reveal_strlit("firnflow_query_duration_seconds");
    reveal_strlit("End-to-end query latency, including cache lookup and any cache-miss backend round-trip.");
    assert("firnflow_query_duration_seconds"@.len() == 31);
    reveal_with_fuel(prom::fits_up_to, 32);
    prom::lemma_name("firnflow_query_duration_seconds"@, 31, true);
}

proof fn lemma_write_duration_described()
    ensures
        prom::describable(family_write_duration().0, family_write_duration().1, family_write_duration().2),
        family_names().len() > 6,
        family_names()[6] == family_write_duration().0,
{
    reveal(family_names);
    lemma_labels();
    reveal_strlit("firnflow_write_duration_seconds");
    reveal_strlit("End-to-end upsert latency, including the cache invalidation step.");
    assert("firnflow_write_duration_seconds"@.len() == 31);
    reveal_with_fuel(prom::fits_up_to, 32);
    prom::lemma_name("firnflow_write_duration_seconds"@, 31, true);
}

proof fn lemma_active_namespaces_described()
    ensures
        prom::describable(family_active_namespaces().0, family_active_namespaces().1, family_active_namespaces().2),
        family_names().len() > 7,
        family_names()[7] == family_active_namespaces().0,
{
    reveal(family_names);
    lemma_labels();
    reveal_strlit("firnflow_active_namespaces");
    reveal_strlit("Distinct namespaces touched by this process since startup.");
    assert("firnflow_active_namespaces"@.len() == 26);
    reveal_with_fuel(prom::fits_up_to, 27);
    prom::lemma_name("firnflow_active_namespaces"@, 26, true);
}

proof fn lemma_s3_requests_described()
    ensures
        prom::describable(family_s3_requests().0, family_s3_requests().1, family_s3_requests().2),
        family_names().len() > 8,
        family_names()[8] == family_s3_requests().0,
{
    reveal(family_names);
    lemma_labels();
    reveal_strlit("firnflow_s3_requests_total");
    reveal_strlit("firnflow-initiated operations that bypassed the cache and would have issued S3 traffic. Counted at the service boundary (one per upsert, one per cache-miss query), not at raw `object_store` call granularity — this is the signal for 'did the cache save a round-trip', not a faithful count of HTTP requests to S3.");
    assert("firnflow_s3_requests_total"@.len() == 26);
    reveal_with_fuel(prom::fits_up_to, 27);
    prom::lemma_name("firnflow_s3_requests_total"@, 26, true);
}

proof fn lemma_index_build_duration_described()
    ensures
        prom::describable(family_index_build_duration().0, family_index_build_duration().1, family_index_build_duration().2),
        family_names().len() > 9,
        family_names()[9] == family_index_build_duration().0,
{
    reveal(family_names);
    lemma_labels();
    reveal_strlit("firnflow_index_build_duration_seconds");
    reveal_strlit("Time to build a vector index. The 'Index Tax' — operators pay this once per index build in exchange for dramatically faster queries.");
    assert("firnflow_index_build_duration_seconds"@.len() == 37);
    reveal_with_fuel(prom::fits_up_to, 38);
    prom::lemma_name("firnflow_index_build_duration_seconds"@, 37, true);
}

proof fn lemma_compaction_duration_described()
    ensures
        prom::describable(family_compaction_duration().0, family_compaction_duration().1, family_compaction_duration().2),
        family_names().len() > 10,
        family_names()[10] == family_compaction_duration().0,
{
    reveal(family_names);
    lemma_labels();
    reveal_strlit("firnflow_compaction_duration_seconds");
    reveal_strlit("Time to compact a namespace's data files. Merges small fragments into fewer, larger files to reduce S3 round-trips on the read path.");
    assert("firnflow_compaction_duration_seconds"@.len() == 36);
    reveal_with_fuel(prom::fits_up_to, 37);
    prom::lemma_name("firnflow_compaction_duration_seconds"@, 36, true);
}

proof fn lemma_cached_handles_described()
    ensures
        prom::describable(family_cached_handles().0, family_cached_handles().1, family_cached_handles().2),
        family_names().len() > 11,
        family_names()[11] == family_cached_handles().0,
{
    reveal(family_names);
    lemma_labels();
    reveal_strlit("firnflow_cached_handles");
    reveal_strlit("Number of namespaces with a warm `lancedb::Connection` + `lancedb::Table` handle in the in-process pool. Compare against `firnflow_active_namespaces` — the delta is the number of active namespaces that will pay cold-open cost on their next request.");
    assert("firnflow_cached_handles"@.len() == 23);
    reveal_with_fuel(prom::fits_up_to, 24);
    prom::lemma_name("firnflow_cached_handles"@, 23, true);
}

proof fn lemma_auth_rejections_described()
    ensures
        prom::describable(family_auth_rejections().0, family_auth_rejections().1, family_auth_rejections().2),
        family_names().len() > 12,
        family_names()[12] == family_auth_rejections().0,
{
    reveal(family_names);
    lemma_labels();
    reveal_strlit("firnflow_auth_rejections_total");
    reveal_strlit("Requests rejected before reaching their handler. The `reason` label is one of: `missing` (no Authorization header), `invalid` (header present but token does not match a configured key), `forbidden` (valid token, insufficient scope for the route), `rate_limited` (rejected by either rate limiter). Use this to detect misconfigured keys after a rotation (spike in `missing`) or credential-stuffing pressure (spike in `invalid` or `rate_limited`).");
    assert("firnflow_auth_rejections_total"@.len() == 30);
    reveal_with_fuel(prom::fits_up_to, 31);
    prom::lemma_name("firnflow_auth_rejections_total"@, 30, true);
}

proof fn lemma_object_hits_described()
    ensures
        prom::describable(family_object_hits().0, family_object_hits().1, family_object_hits().2),
        family_names().len() > 13,
        family_names()[13] == family_object_hits().0,
{
    reveal(family_names);
    lemma_labels();
    reveal_strlit("firnflow_object_cache_hits_total");
    reveal_strlit("Object-store reads served from the local cache.");
    assert("firnflow_object_cache_hits_total"@.len() == 32);
    reveal_with_fuel(prom::fits_up_to, 33);
    prom::lemma_name("firnflow_object_cache_hits_total"@, 32, true);
}

proof fn lemma_object_misses_described()
    ensures
        prom::describable(family_object_misses().0, family_object_misses().1, family_object_misses().2),
        family_names().len() > 14,
        family_names()[14] == family_object_misses().0,
{
    reveal(family_names);
    lemma_labels();
    reveal_strlit("firnflow_object_cache_misses_total");
    reveal_strlit("Object-store reads that the local cache could not serve.");
    assert("firnflow_object_cache_misses_total"@.len() == 34);
    reveal_with_fuel(prom::fits_up_to, 35);
    prom::lemma_name("firnflow_object_cache_misses_total"@, 34, true);
}

proof fn lemma_object_inner_gets_described()
    ensures
        prom::describable(family_object_inner_gets().0, family_object_inner_gets().1, family_object_inner_gets().2),
        family_names().len() > 15,
        family_names()[15] == family_object_inner_gets().0,
{
    reveal(family_names);
    lemma_labels();
    reveal_strlit("firnflow_object_cache_inner_gets_total");
    reveal_strlit("Reads that went through to the object store.");
    assert("firnflow_object_cache_inner_gets_total"@.len() == 38);
    reveal_with_fuel(prom::fits_up_to, 39);
    prom::lemma_name("firnflow_object_cache_inner_gets_total"@, 38, true);
}

proof fn lemma_object_s3_bytes_described()
    ensures
        prom::describable(family_object_s3_bytes().0, family_object_s3_bytes().1, family_object_s3_bytes().2),
        family_names().len() > 16,
        family_names()[16] == family_object_s3_bytes().0,
{
    reveal(family_names);
    lemma_labels();
    reveal_strlit("firnflow_object_cache_s3_bytes_total");
    reveal_strlit("Bytes read from the object store.");
    assert("firnflow_object_cache_s3_bytes_total"@.len() == 36);
    reveal_with_fuel(prom::fits_up_to, 37);
    prom::lemma_name("firnflow_object_cache_s3_bytes_total"@, 36, true);
}

proof fn lemma_object_evictions_described()
    ensures
        prom::describable(family_object_evictions().0, family_object_evictions().1, family_object_evictions().2),
        family_names().len() > 17,
        family_names()[17] == family_object_evictions().0,
{
    reveal(family_names);
    lemma_labels();
    reveal_strlit("firnflow_object_cache_evictions_total");
    reveal_strlit("Entries evicted from the local cache.");
    assert("firnflow_object_cache_evictions_total"@.len() == 37);
    reveal_with_fuel(prom::fits_up_to, 38);
    prom::lemma_name("firnflow_object_cache_evictions_total"@, 37, true);
}

// ------------------------------------------------------------------ laws
/// A metric of one label is kept in the slot of its value; one of two labels in the
/// slot of both, the first value before the second.
pub proof fn law_slots_go_by_every_label(a: Seq<char>, b: Seq<char>)
    ensures
        slot1(a) == prom::label_slot(a),
        slot2(a, b) == prom::label_slot(a + b),
{
    reveal_with_fuel(prom::joined, 3);
    assert(seq![a].drop_last() =~= Seq::<Seq<char>>::empty());
    assert(seq![a, b].drop_last() =~= seq![a]);
    assert(Seq::<char>::empty() + a =~= a);
}

/// A storage request is counted once, under its namespace and its operation, and is no
/// cache hit, no cache miss and no duration. It marks its namespace as seen.
pub proof fn law_storage_requests_are_counted(
    m: MetricsView,
    ns: Seq<char>,
    operation: Seq<char>,
    slot: u64,
)
    ensures
        ({
            let after = storage_request(m, ns, operation);
            &&& prom::count_in(after.s3_requests, prom::label_slot(ns + operation))
                == prom::one_more(prom::count_in(m.s3_requests, prom::label_slot(ns + operation)))
            &&& slot != prom::label_slot(ns + operation) ==> prom::count_in(after.s3_requests, slot)
                == prom::count_in(m.s3_requests, slot)
            &&& after.seen == m.seen.insert(ns)
            &&& after.cache_hits == m.cache_hits
            &&& after.cache_misses == m.cache_misses
            &&& after.query_duration == m.query_duration
            &&& after.write_duration == m.write_duration
            &&& after.cached_handles == m.cached_handles
        }),
{
    law_slots_go_by_every_label(ns, operation);
    assert(m.seen.contains(ns) ==> m.seen.insert(ns) =~= m.seen);
}

/// A namespace is counted as active the first time it is touched, and not again.
pub proof fn law_namespaces_are_active_once(m: MetricsView, ns: Seq<char>)
    ensures
        touched(m, ns).seen == m.seen.insert(ns),
        m.seen.contains(ns) ==> touched(m, ns) == m,
        !m.seen.contains(ns) && m.active_namespaces < i64::MAX ==> touched(m, ns).active_namespaces
            == m.active_namespaces + 1,
        touched(touched(m, ns), ns) == touched(m, ns),
        touched(m, ns).s3_requests == m.s3_requests,
        touched(m, ns).cache_hits == m.cache_hits,
        touched(m, ns).cache_misses == m.cache_misses,
{
    assert(m.seen.contains(ns) ==> m.seen.insert(ns) =~= m.seen);
}

/// Putting a handle into the pool moves the gauge up by one, taking one out moves it
/// down by one, and one after the other leaves everything as it was.
pub proof fn law_handles_move_the_gauge_by_one(m: MetricsView)
    ensures
        m.cached_handles < i64::MAX ==> handle_added(m).cached_handles == m.cached_handles + 1,
        m.cached_handles > i64::MIN ==> handle_dropped(m).cached_handles == m.cached_handles - 1,
        handle_dropped(handle_added(m)) == m,
        handle_added(m).active_namespaces == m.active_namespaces,
{
}

/// Index builds and compactions are measured from one second up to ten minutes.
pub proof fn law_builds_are_measured_up_to_minutes()
    ensures
        made_bounds().index_build == seq![1u64, 5, 10, 30, 60, 120, 300, 600],
        made_bounds().compaction == made_bounds().index_build,
        made_bounds().query.len() == 0 && made_bounds().write.len() == 0,
{
}

/// Whether a family has this name, and no labels.
pub open spec fn is_plain(f: Family, name: Seq<char>) -> bool {
    f.0 == name && f.2.len() == 0
}

/// Whether a family has this name, and this one label.
pub open spec fn has_label(f: Family, name: Seq<char>, label: Seq<char>) -> bool {
    f.0 == name && f.2.len() == 1 && f.2[0] == label
}

/// Whether a family has this name, and these two labels.
pub open spec fn has_labels(f: Family, name: Seq<char>, first: Seq<char>, second: Seq<char>) -> bool {
    f.0 == name && f.2.len() == 2 && f.2[0] == first && f.2[1] == second
}

/// What an exposition text shows, and under which names and labels: each count of the
/// metrics stands under the name that says what it counts.
pub proof fn law_metrics_are_shown_under_their_names(text: Seq<char>, m: MetricsView)
    requires
        shows(text, m),
    ensures
        exists|f: Family| #[trigger]
            has_label(f, "firnflow_cache_hits_total"@, "namespace"@) && prom::counter_shown(
                text,
                f,
                m.cache_hits,
            ),
        exists|f: Family| #[trigger]
            has_label(f, "firnflow_cache_misses_total"@, "namespace"@) && prom::counter_shown(
                text,
                f,
                m.cache_misses,
            ),
        exists|f: Family| #[trigger]
            has_label(f, "firnflow_semantic_cache_hits_total"@, "namespace"@)
                && prom::counter_shown(text, f, m.semantic_cache_hits),
        exists|f: Family| #[trigger]
            has_label(f, "firnflow_semantic_cache_misses_total"@, "namespace"@)
                && prom::counter_shown(text, f, m.semantic_cache_misses),
        exists|f: Family| #[trigger]
            has_labels(f, "firnflow_semantic_cache_rejections_total"@, "namespace"@, "reason"@) && prom::counter_shown(text, f, m.semantic_cache_rejections),
        exists|f: Family| #[trigger]
            has_labels(f, "firnflow_query_duration_seconds"@, "namespace"@, "query_type"@) && prom::histogram_shown(text, f, m.query_duration),
        exists|f: Family| #[trigger]
            has_label(f, "firnflow_write_duration_seconds"@, "namespace"@)
                && prom::histogram_shown(text, f, m.write_duration),
        exists|f: Family| #[trigger]
            is_plain(f, "firnflow_active_namespaces"@) && prom::gauge_shown(
                text,
                f,
                m.active_namespaces,
            ),
        exists|f: Family| #[trigger]
            has_labels(f, "firnflow_s3_requests_total"@, "namespace"@, "operation"@) && prom::counter_shown(text, f, m.s3_requests),
        exists|f: Family| #[trigger]
            has_labels(f, "firnflow_index_build_duration_seconds"@, "namespace"@, "kind"@) && prom::histogram_shown(text, f, m.index_build_duration),
        exists|f: Family| #[trigger]
            has_label(f, "firnflow_compaction_duration_seconds"@, "namespace"@)
                && prom::histogram_shown(text, f, m.compaction_duration),
        exists|f: Family| #[trigger]
            is_plain(f, "firnflow_cached_handles"@) && prom::gauge_shown(
                text,
                f,
                m.cached_handles,
            ),
        exists|f: Family| #[trigger]
            has_label(f, "firnflow_auth_rejections_total"@, "reason"@) && prom::counter_shown(
                text,
                f,
                m.auth_rejections,
            ),
{
    assert(has_label(family_cache_hits(), "firnflow_cache_hits_total"@, "namespace"@));
    assert(has_label(family_cache_misses(), "firnflow_cache_misses_total"@, "namespace"@));
    assert(has_label(family_semantic_cache_hits(), "firnflow_semantic_cache_hits_total"@, "namespace"@));
    assert(has_label(family_semantic_cache_misses(), "firnflow_semantic_cache_misses_total"@, "namespace"@));
    assert(has_labels(family_semantic_cache_rejections(), "firnflow_semantic_cache_rejections_total"@, "namespace"@, "reason"@));
    assert(has_labels(family_query_duration(), "firnflow_query_duration_seconds"@, "namespace"@, "query_type"@));
    assert(has_label(family_write_duration(), "firnflow_write_duration_seconds"@, "namespace"@));
    assert(is_plain(family_active_namespaces(), "firnflow_active_namespaces"@));
    assert(has_labels(family_s3_requests(), "firnflow_s3_requests_total"@, "namespace"@, "operation"@));
    assert(has_labels(family_index_build_duration(), "firnflow_index_build_duration_seconds"@, "namespace"@, "kind"@));
    assert(has_label(family_compaction_duration(), "firnflow_compaction_duration_seconds"@, "namespace"@));
    assert(is_plain(family_cached_handles(), "firnflow_cached_handles"@));
    assert(has_label(family_auth_rejections(), "firnflow_auth_rejections_total"@, "reason"@));
}
/// Metrics begin at nothing: no count, no duration, no namespace seen, no table open.
pub proof fn law_fresh_metrics_count_nothing(families: Set<Family>, slot: u64, ns: Seq<char>)
    ensures
        ({
            let m = fresh_metrics(families);
            &&& prom::count_in(m.cache_hits, slot) == 0 && prom::count_in(m.cache_misses, slot) == 0
            &&& prom::count_in(m.semantic_cache_hits, slot) == 0
            &&& prom::count_in(m.semantic_cache_misses, slot) == 0
            &&& prom::count_in(m.semantic_cache_rejections, slot) == 0
            &&& prom::count_in(m.s3_requests, slot) == 0
            &&& prom::count_in(m.auth_rejections, slot) == 0
            &&& prom::observations(m.query_duration, slot).len() == 0
            &&& prom::observations(m.write_duration, slot).len() == 0
            &&& prom::observations(m.index_build_duration, slot).len() == 0
            &&& prom::observations(m.compaction_duration, slot).len() == 0
            &&& m.active_namespaces == 0 && m.cached_handles == 0 && !m.seen.contains(ns)
            &&& m.families == families
            &&& m.object_cache.0 == 0 && m.object_cache.1 == 0 && m.object_cache.2 == 0
                && m.object_cache.3 == 0 && m.object_cache.4 == 0
        }),
{
}

} // verus!
