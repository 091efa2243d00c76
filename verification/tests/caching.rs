//! Caches, their keys, and the service that reads through them.
use std::collections::HashSet;

use firnflow::cache::{
    pick_best, store_failure, NamespaceCache, SemanticCache, SemanticEntry, SemanticLookup,
    StoreStage,
};
use firnflow::cachebackend::{
    hot_hit, CacheBackendCounters, EncodedKey, EntryKey, FoyerCacheBackend, HotRead, Lookup,
    NoOpCacheBackend, Payload,
};
use firnflow::codec::{decode_payload, encode_payload, hash_query_for_cache, QueryHash};
use firnflow::error::{ApiError, FirnflowError};
use firnflow::manager::{NamespaceManager, OpenReply, Outcome, Step, WorkReply};
use firnflow::metrics::{exposition, test_metrics, CoreMetrics};
use firnflow::namespace::NamespaceId;
use firnflow::query::{QueryRequest, SemanticCacheRequest, Similarity};
use firnflow::result::{QueryResult, QueryResultSet};
use firnflow::rows::UpsertRow;
use firnflow::service::{
    classify_query_type, semantic_eligible, NamespaceService, QueryCacheSource, QueryOutcome,
    QueryStep, WriteOp,
};
use firnflow::storage_root::StorageRoot;

fn request() -> QueryRequest {
    QueryRequest {
        vector: vec![1.0f32.to_bits(), 0.5f32.to_bits()],
        vectors: None,
        k: 2,
        nprobes: None,
        text: None,
        filter: None,
        include_vector: true,
        semantic_cache: None,
    }
}

fn semantic_request() -> QueryRequest {
    QueryRequest {
        semantic_cache: Some(SemanticCacheRequest {
            enabled: true,
            min_similarity: Some(Similarity { bits: 0.9f32.to_bits(), shown: "0.9".into() }),
        }),
        ..request()
    }
}

fn results() -> QueryResultSet {
    QueryResultSet {
        query_id: "q".into(),
        results: vec![
            QueryResult {
                id: 7,
                score: 0.25f32.to_bits(),
                vector: Some(vec![1.5f32.to_bits(), (-2.0f32).to_bits()]),
                text: Some("t\u{e9}xt".into()),
                ingested_at_micros: Some(-5),
            },
            QueryResult { id: 8, score: 0, vector: None, text: None, ingested_at_micros: None },
        ],
    }
}

// ------------------------------------------------------------- encoded keys
#[test]
fn encodes_three_fields_with_unit_separator() {
    let k = EntryKey::new("s3://bucket/dataset/", "42", "Vec<IndexMetadata>");
    let encoded = EncodedKey::from(&k);
    assert_eq!(encoded.as_str(), "s3://bucket/dataset/\x1fVec<IndexMetadata>\x1f42");
}

#[test]
fn distinct_keys_encode_distinctly() {
    let a = EntryKey::new("a/", "1", "T");
    let b = EntryKey::new("a/", "1", "U");
    let c = EntryKey::new("a/", "2", "T");
    let d = EntryKey::new("b/", "1", "T");
    let encoded: HashSet<EncodedKey> = [&a, &b, &c, &d].iter().map(|k| EncodedKey::from(*k)).collect();
    assert_eq!(encoded.len(), 4, "every distinct key must encode distinctly");
}

#[test]
fn backend_tiers_and_prefixes() {
    let mut b = FoyerCacheBackend::new(CacheBackendCounters::default());
    let hot = EntryKey::new("s3://a/", "1", "T");
    let cold = EntryKey::new("s3://a/x/", "1", "T");
    let other = EntryKey::new("s3://b/", "1", "T");
    assert_eq!(
        b.insert(&hot, Payload::Serialised).map(|k| k.as_str().to_string()),
        Some("s3://a/\x1fT\x1f1".to_string())
    );
    assert!(b.insert(&cold, Payload::Token(9)).is_none());
    assert!(b.insert(&cold, Payload::Token(10)).is_none());
    assert!(b.insert(&other, Payload::Token(11)).is_none());
    assert!(b.insert(&EntryKey::new("s3://c/", "1", "T"), Payload::Unserialisable).is_none());
    assert_eq!(b.num_entries(), 2);
    assert!(matches!(b.get(&cold, false), Lookup::Cold(Some(10))));
    assert!(matches!(b.get_or_insert(&hot, true), Lookup::Hot(_)));
    let gone: HashSet<String> =
        b.invalidate_prefix("s3://a/").iter().map(|k| k.as_str().to_string()).collect();
    assert_eq!(gone.len(), 2);
    assert!(gone.contains("s3://a/x/\x1fT\x1f1"));
    assert!(matches!(b.get(&cold, false), Lookup::Cold(None)));
    assert!(matches!(b.get(&other, false), Lookup::Cold(Some(11))));
    assert!(b.invalidate_prefix("s3://a/").is_empty());
    b.clear();
    assert_eq!(b.num_entries(), 0);
    let counts = b.counters().snapshot();
    assert_eq!(
        (counts.get, counts.insert, counts.get_or_insert, counts.invalidate_prefix, counts.clear),
        (4, 5, 1, 2, 1)
    );
    assert!(hot_hit(HotRead::Decoded));
    assert!(!hot_hit(HotRead::Undecodable) && !hot_hit(HotRead::Absent) && !hot_hit(HotRead::Failed));
}

#[test]
fn loaded_entries_are_stored_and_failures_are_not() {
    let mut b = FoyerCacheBackend::new(CacheBackendCounters::default());
    let key = EntryKey::new("p/", "k", "T");
    assert!(matches!(b.get_or_insert(&key, false), Lookup::Cold(None)));
    assert!(b.on_loaded(&key, None).is_none());
    assert!(matches!(b.get(&key, false), Lookup::Cold(None)));
    assert!(b.on_loaded(&key, Some(Payload::Token(4))).is_none());
    assert!(matches!(b.get_or_insert(&key, false), Lookup::Cold(Some(4))));
    let hot = b.on_loaded(&key, Some(Payload::Serialised)).unwrap();
    assert_eq!(hot.as_str(), "p/\x1fT\x1fk");
    let counts = b.counters().snapshot();
    assert_eq!((counts.get, counts.insert, counts.get_or_insert), (3, 2, 2));
}

#[test]
fn cold_tier_tells_awkward_keys_apart() {
    let mut b = FoyerCacheBackend::new(CacheBackendCounters::default());
    let x = EntryKey::new("p\x1fq", "k", "T");
    let y = EntryKey::new("p", "k", "q\x1fT");
    assert_eq!(EncodedKey::from(&x).as_str(), EncodedKey::from(&y).as_str());
    b.insert(&x, Payload::Token(1));
    assert!(matches!(b.get(&y, false), Lookup::Cold(None)));
}

#[test]
fn noop_backend_only_counts() {
    let mut b = NoOpCacheBackend::new(CacheBackendCounters::default());
    assert!(b.get().is_none());
    b.insert();
    assert!(b.get_or_insert().is_none());
    b.invalidate_prefix();
    b.clear();
    assert_eq!((b.num_entries(), b.size_bytes()), (0, 0));
    let s = b.counters().snapshot();
    assert_eq!((s.get, s.insert, s.get_or_insert, s.invalidate_prefix, s.clear), (1, 1, 1, 1, 1));
    for _ in 0..3 {
        assert!(b.get_or_insert().is_none());
        b.clear();
        b.clear();
    }
    b.insert();
    let s = b.counters().snapshot();
    assert_eq!((s.get, s.insert, s.get_or_insert, s.invalidate_prefix, s.clear), (1, 2, 4, 1, 7));
    assert_eq!(b.counters().snapshot(), s);
}

// -------------------------------------------------------------------- codec
#[test]
fn payloads_round_trip() {
    let set = results();
    let bytes = encode_payload(&set).unwrap();
    assert_eq!(decode_payload(&bytes).unwrap(), set);
    assert!(matches!(decode_payload(&vec![1, 2, 3]), Err(FirnflowError::Backend(_))));
}

#[test]
fn exact_keys_follow_the_result() {
    let base = hash_query_for_cache(&request()).unwrap();
    assert_eq!(base, hash_query_for_cache(&semantic_request()).unwrap());
    let mut others = HashSet::new();
    others.insert(base);
    let mut q = request();
    q.k = 3;
    others.insert(hash_query_for_cache(&q).unwrap());
    let mut q = request();
    q.filter = Some("id < 5".into());
    others.insert(hash_query_for_cache(&q).unwrap());
    let mut q = request();
    q.include_vector = false;
    others.insert(hash_query_for_cache(&q).unwrap());
    let mut q = request();
    q.text = Some("lazy".into());
    others.insert(hash_query_for_cache(&q).unwrap());
    let mut q = request();
    q.vector[0] = 0;
    others.insert(hash_query_for_cache(&q).unwrap());
    let mut q = request();
    q.vectors = Some(vec![q.vector.clone()]);
    q.vector.clear();
    others.insert(hash_query_for_cache(&q).unwrap());
    assert_eq!(others.len(), 7);
}

#[test]
fn hash_is_xxh3() {
    assert_eq!(QueryHash::of(&vec![]).0, 0x2d06_8005_38d3_94c2);
    assert_eq!(QueryHash::of(&vec![1, 2, 3]), QueryHash::of(&vec![1, 2, 3]));
    assert_ne!(QueryHash::of(&vec![1, 2, 3]), QueryHash::of(&vec![1, 2, 4]));
}

// -------------------------------------------------------------- exact cache
#[test]
fn generations_move_keys() {
    let ns = NamespaceId::new("books").unwrap();
    let other = NamespaceId::new("films").unwrap();
    let hash = hash_query_for_cache(&request()).unwrap();
    let mut c = NamespaceCache::new();
    assert_eq!(c.generation(&ns), 0);
    c.set_generation(&ns, 41);
    let key = c.try_get(&ns, hash);
    assert_eq!(key.generation, 41);
    assert_eq!(c.invalidate(&ns), 42);
    assert!(c.try_get(&ns, hash) != key);
    assert!(NamespaceCache::populate_with_generation(&ns, 41, hash) == key);
    assert_eq!(c.generation(&other), 0);
    c.generation_counter().set(&other, 5);
    assert_eq!(c.generation(&other), 5);
}

#[test]
fn get_or_populate_counts_before_it_computes() {
    let ns = NamespaceId::new("books").unwrap();
    let hash = hash_query_for_cache(&request()).unwrap();
    let c = NamespaceCache::new();
    let mut t = CoreMetrics::new().unwrap();
    let key = c.get_or_populate(&ns, hash);
    assert!(c.on_looked_up(&mut t, &ns, None).is_none());
    let (stored, value) = NamespaceCache::on_populated(key, Ok(vec![1, 2]));
    assert_eq!(stored.unwrap().1, vec![1, 2]);
    assert_eq!(value.unwrap(), vec![1, 2]);
    let key = c.get_or_populate(&ns, hash);
    let (stored, value) = NamespaceCache::on_populated(key, Err(FirnflowError::Backend("x".into())));
    assert!(stored.is_none() && value.is_err());
    assert_eq!(c.on_looked_up(&mut t, &ns, Some(vec![3])), Some(vec![3]));
    let text = t.encode().unwrap();
    assert!(text.contains("firnflow_cache_misses_total{namespace=\"books\"} 1"), "{text}");
    assert!(text.contains("firnflow_cache_hits_total{namespace=\"books\"} 1"), "{text}");
    match store_failure(StoreStage::IndexDevice, "no disk") {
        FirnflowError::Cache(m) => assert_eq!(m, "cachebackend device build: no disk"),
        other => panic!("{other:?}"),
    }
}

// ------------------------------------------------------------------ sidecar
fn entry(ns: &str, generation: u64, first: f32) -> SemanticEntry {
    SemanticEntry {
        namespace: ns.to_string(),
        generation,
        vector: vec![first.to_bits(), 0],
        k: 2,
        nprobes: 20,
        include_vector: true,
        bytes: vec![generation as u8, first as u8],
    }
}

#[test]
fn sidecar_is_bounded_and_forgets() {
    let ns = NamespaceId::new("books").unwrap();
    let other = NamespaceId::new("films").unwrap();
    let mut s = SemanticCache::new(2);
    s.insert(entry("films", 1, 9.0));
    s.insert(entry("books", 1, 1.0));
    s.insert(entry("books", 1, 2.0));
    s.insert(entry("books", 1, 3.0));
    assert_eq!(s.entry_count(&ns), 2);
    assert_eq!(s.entry_count(&other), 1);
    let found = s.candidates(&ns, 1, 2, 20, true, 2);
    assert_eq!(found.len(), 2);
    assert_eq!(s.vector_at(found[0])[0], 2.0f32.to_bits());
    assert!(s.candidates(&ns, 2, 2, 20, true, 2).is_empty());
    assert!(s.candidates(&ns, 1, 3, 20, true, 2).is_empty());
    assert!(s.candidates(&ns, 1, 2, 20, false, 2).is_empty());
    assert!(s.candidates(&ns, 1, 2, 20, true, 3).is_empty());
    let sims = vec![0.95f32.to_bits(), 0.99f32.to_bits()];
    match s.lookup(&found, &sims, 0.9f32.to_bits()) {
        SemanticLookup::Hit(bytes) => assert_eq!(bytes, vec![1, 3]),
        other => panic!("{other:?}"),
    }
    assert!(matches!(s.lookup(&found, &sims, 0.995f32.to_bits()), SemanticLookup::Miss));
    s.invalidate(&ns);
    assert_eq!(s.entry_count(&ns), 0);
    assert_eq!(s.entry_count(&other), 1);
}

#[test]
fn best_similarity_is_the_first_highest() {
    let v: Vec<u32> = [0.5f32, 0.9, 0.9, 0.1].iter().map(|x| x.to_bits()).collect();
    assert_eq!(pick_best(&v, 0.8f32.to_bits()), Some(1));
    assert_eq!(pick_best(&v, 0.91f32.to_bits()), None);
    assert_eq!(pick_best(&vec![], 1), None);
    let odd: Vec<u32> =
        [-1.0f32, f32::NAN, f32::INFINITY, -0.0, 0.95].iter().map(|x| x.to_bits()).collect();
    assert_eq!(pick_best(&odd, 0.9f32.to_bits()), Some(4));
    assert_eq!(pick_best(&odd[..4].to_vec(), 1), None);
    assert_eq!(pick_best(&vec![0xffff_ffff, 1.0000001f32.to_bits()], 1.0f32.to_bits()), Some(1));
}

// ------------------------------------------------------------------ service
fn service() -> (NamespaceService, NamespaceId) {
    let root = StorageRoot::s3_bucket("data").unwrap();
    let manager = NamespaceManager::new(root, Vec::new());
    let s = NamespaceService::new(manager, NamespaceCache::new(), CoreMetrics::new().unwrap());
    (s, NamespaceId::new("books").unwrap())
}

fn answer(s: &mut NamespaceService, ns: &NamespaceId, req: QueryRequest, found: Option<Vec<u8>>) -> QueryStep {
    let run = match s.query_with_cache_source(req) {
        QueryStep::Generation(run) => run,
        other => panic!("{other:?}"),
    };
    match s.on_generation(ns, run, Ok(17)) {
        QueryStep::LookupExact(key, run) => {
            assert_eq!(key.generation, 17);
            s.on_exact(ns, run, found, 1000)
        }
        other => panic!("{other:?}"),
    }
}

fn axis_row(id: u64, axis: usize) -> UpsertRow {
    UpsertRow::from((id, unit_axis(axis)))
}

#[test]
fn metrics_reflect_cache_hits_misses_and_s3_asymmetry() {
    let (mut s, _) = service();
    let ns = NamespaceId::new("metrics-test").unwrap();
    let rows = vec![axis_row(1, 0), axis_row(2, 1)];
    let mut step = s.upsert(&ns, rows);
    let end = loop {
        let (m, t) = (&mut s.manager, &mut s.metrics);
        step = match step {
            Step::OpenExisting(task) => m.on_opened(t, &ns, task, OpenReply::NotFound),
            Step::OpenTable(planned) => m.on_table(t, &ns, planned, Ok(1)),
            Step::Perform(h, planned) => m.on_worked(t, &ns, h, planned, Ok(WorkReply::Done)),
            Step::BuildIdIndex(_, info) => m.on_id_index(t, &ns, info, true),
            Step::Reopen(_) => m.on_reopened(t, &ns, Some(2)),
            Step::Finish(end) => break end,
            other => panic!("{other:?}"),
        };
    };
    assert!(matches!(end, Ok(Outcome::Done)));
    s.on_written(&ns, WriteOp::Upsert, 5_000_000);
    let query = || QueryRequest { vector: unit_axis(0), k: 3, ..request() };
    let run = match answer(&mut s, &ns, query(), None) {
        QueryStep::Search(run) => run,
        other => panic!("{other:?}"),
    };
    let bytes = match s.on_backend(&ns, run, Ok(results()), 2_000_000) {
        QueryStep::Store(key, bytes, outcome) => {
            assert_eq!(key.generation, 17);
            assert_eq!(outcome.cache_source, QueryCacheSource::Backend);
            assert_eq!(outcome.into_result(), results());
            bytes
        }
        other => panic!("{other:?}"),
    };
    match answer(&mut s, &ns, query(), Some(bytes)) {
        QueryStep::Finish(Ok(QueryOutcome { result, cache_source })) => {
            assert_eq!(result, results());
            assert_eq!(cache_source.as_str(), "exact_cache");
        }
        other => panic!("{other:?}"),
    }
    let text = s.metrics.encode().unwrap();
    for line in [
        "firnflow_cache_hits_total{namespace=\"metrics-test\"} 1",
        "firnflow_cache_misses_total{namespace=\"metrics-test\"} 1",
        "firnflow_s3_requests_total{namespace=\"metrics-test\",operation=\"upsert\"} 1",
        "firnflow_s3_requests_total{namespace=\"metrics-test\",operation=\"query\"} 1",
        "firnflow_query_duration_seconds_count{namespace=\"metrics-test\",query_type=\"vector\"} 2",
        "firnflow_write_duration_seconds_count{namespace=\"metrics-test\"} 1",
        "firnflow_active_namespaces 1",
    ] {
        assert!(text.contains(line), "{line} missing in\n{text}");
    }
}

#[test]
fn near_duplicates_are_answered_by_the_sidecar() {
    let (mut s, ns) = service();
    let run = match answer(&mut s, &ns, semantic_request(), None) {
        QueryStep::LookupSemantic(threshold, run) => {
            assert_eq!(threshold, 0.9f32.to_bits());
            run
        }
        other => panic!("{other:?}"),
    };
    let run = match s.on_semantic(&ns, run, SemanticLookup::EmptyIndex, 10) {
        QueryStep::Search(run) => run,
        other => panic!("{other:?}"),
    };
    assert!(matches!(s.on_backend(&ns, run, Ok(results()), 10), QueryStep::Store(_, _, _)));
    assert_eq!(s.semantic_cache().entry_count(&ns), 1);
    assert_eq!(s.metrics.semantic_cache_rejections_value(&ns, "empty_index"), 1);

    let mut near = semantic_request();
    near.vector[0] = 0.999f32.to_bits();
    let run = match answer(&mut s, &ns, near, None) {
        QueryStep::LookupSemantic(_, run) => run,
        other => panic!("{other:?}"),
    };
    let found = s.look_aside(&ns, &run).unwrap();
    assert_eq!(found, vec![0]);
    let opposite = s.semantic.lookup(&found, &vec![(-1.0f32).to_bits()], 0.9f32.to_bits());
    assert!(matches!(opposite, SemanticLookup::Miss));
    let hit = s.semantic.lookup(&found, &vec![0.99f32.to_bits()], 0.9f32.to_bits());
    match s.on_semantic(&ns, run, hit, 10) {
        QueryStep::Finish(Ok(outcome)) => {
            assert_eq!(outcome.cache_source, QueryCacheSource::SemanticCache);
            assert_eq!(outcome.result, results());
        }
        other => panic!("{other:?}"),
    }
    assert_eq!(s.metrics.semantic_cache_hits_value(&ns), 1);
    s.on_written(&ns, WriteOp::Upsert, 1);
    assert_eq!(s.semantic_cache().entry_count(&ns), 0);
    let run = match answer(&mut s, &ns, semantic_request(), None) {
        QueryStep::LookupSemantic(_, run) => run,
        other => panic!("{other:?}"),
    };
    assert!(s.look_aside(&ns, &run).is_none());
}

#[test]
fn bad_requests_never_reach_storage() {
    let (mut s, ns) = service();
    let mut req = semantic_request();
    req.filter = Some("id < 5".into());
    assert!(matches!(s.query(req), QueryStep::Finish(Err(FirnflowError::InvalidRequest(_)))));
    let run = match s.query(request()) {
        QueryStep::Generation(run) => run,
        other => panic!("{other:?}"),
    };
    let failed = s.on_generation(&ns, run, Err(FirnflowError::Backend("down".into())));
    assert!(matches!(failed, QueryStep::Finish(Err(FirnflowError::Backend(_)))));
    assert!(!s.metrics.encode().unwrap().contains("operation=\"query\""));
    let claims_too_much = [253u8, 255, 255, 255, 255, 255, 255, 255, 255].to_vec();
    assert!(matches!(decode_payload(&claims_too_much), Err(FirnflowError::Backend(_))));
    match answer(&mut s, &ns, request(), Some(vec![9])) {
        QueryStep::Finish(Err(FirnflowError::Backend(text))) => {
            assert!(text.starts_with("decode result: "), "{text}")
        }
        other => panic!("{other:?}"),
    }
}

#[test]
fn query_types_and_eligibility() {
    assert_eq!(classify_query_type(&request()), "vector");
    let mut q = request();
    q.text = Some("x".into());
    assert_eq!(classify_query_type(&q), "hybrid");
    q.vector.clear();
    assert_eq!(classify_query_type(&q), "fts");
    q.text = None;
    q.vectors = Some(vec![vec![0]]);
    assert_eq!(classify_query_type(&q), "multivector");
    assert!(semantic_eligible(&semantic_request()));
    assert!(!semantic_eligible(&request()));
}

#[test]
fn deletes_clear_everything_local() {
    let (mut s, ns) = service();
    assert_eq!(s.delete(&ns), "books");
    s.semantic_cache().insert(entry("books", 17, 1.0));
    assert_eq!(s.on_deleted(&ns, 6, 1), 6);
    assert_eq!(s.semantic_cache().entry_count(&ns), 0);
    assert!(s
        .metrics
        .encode()
        .unwrap()
        .contains("firnflow_s3_requests_total{namespace=\"books\",operation=\"delete\"} 1"));
}

fn unit_axis(axis: usize) -> Vec<u32> {
    let mut v = vec![0.0f32.to_bits(); 8];
    v[axis] = 1.0f32.to_bits();
    v
}

fn refusal(req: QueryRequest) -> (u16, String) {
    let (s, _) = service();
    match s.query_with_cache_source(req) {
        QueryStep::Finish(Err(e)) => {
            let reply = ApiError::from(e).into_response();
            (reply.status, reply.error)
        }
        other => panic!("{other:?}"),
    }
}

#[test]
fn api_semantic_cache_hybrid_returns_400() {
    let (status, error) = refusal(QueryRequest {
        vector: unit_axis(0),
        vectors: None,
        k: 4,
        nprobes: None,
        text: Some("anything".into()),
        filter: None,
        include_vector: true,
        semantic_cache: Some(SemanticCacheRequest { enabled: true, min_similarity: None }),
    });
    assert_eq!(status, 400);
    assert!(error.contains("FTS") || error.contains("hybrid"), "unexpected error payload: {error}");
}

#[test]
fn api_semantic_cache_threshold_range_returns_400() {
    let (status, error) = refusal(QueryRequest {
        vector: unit_axis(0),
        vectors: None,
        k: 4,
        nprobes: None,
        text: None,
        filter: None,
        include_vector: true,
        semantic_cache: Some(SemanticCacheRequest {
            enabled: true,
            min_similarity: Some(Similarity { bits: 1.5f32.to_bits(), shown: "1.5".into() }),
        }),
    });
    assert_eq!(status, 400);
    assert!(error.contains("min_similarity"));
}

#[test]
fn expositions_are_text() {
    assert_eq!(exposition("a \u{2014} b".as_bytes().to_vec()).unwrap(), "a \u{2014} b");
    match exposition(vec![b'a', 0xff]) {
        Err(FirnflowError::Metrics(m)) => {
            assert_eq!(m, "invalid utf-8 sequence of 1 bytes from index 1")
        }
        other => panic!("{other:?}"),
    }
    let text = test_metrics().encode().unwrap();
    assert!(text.contains("# TYPE firnflow_active_namespaces gauge\nfirnflow_active_namespaces 0\n"));
    assert!(text.contains("firnflow_object_cache_evictions_total 0\n"));
}

#[test]
fn expositions_show_what_was_recorded() {
    let books = NamespaceId::new("books").unwrap();
    let films = NamespaceId::new("films").unwrap();
    let mut t = CoreMetrics::new().unwrap();
    t.record_cache_hit(&books);
    t.record_cache_hit(&books);
    t.record_semantic_cache_rejection(&films, "say \"no\"\n\\");
    t.record_index_build(&books, "ivf_pq", 2_000_000_000);
    t.record_index_build(&books, "ivf_pq", 7_000_000_000);
    t.record_auth_rejection("missing");
    t.dec_cached_handles();
    let text = t.encode().unwrap();
    for part in [
        "# HELP firnflow_cache_hits_total Cache hits, keyed by namespace.\n\
         # TYPE firnflow_cache_hits_total counter\n",
        "\nfirnflow_cache_hits_total{namespace=\"books\"} 2\n",
        "\nfirnflow_semantic_cache_rejections_total{namespace=\"films\",\
         reason=\"say \\\"no\\\"\\n\\\\\"} 1\n",
        "# TYPE firnflow_index_build_duration_seconds histogram\n",
        "\nfirnflow_index_build_duration_seconds_count{kind=\"ivf_pq\",namespace=\"books\"} 2\n",
        "\nfirnflow_auth_rejections_total{reason=\"missing\"} 1\n",
        "# TYPE firnflow_active_namespaces gauge\nfirnflow_active_namespaces 2\n",
        "gauge\nfirnflow_cached_handles -1\n",
        "# TYPE firnflow_object_cache_hits_total counter\nfirnflow_object_cache_hits_total 0\n",
    ] {
        assert!(text.contains(part), "{part} in {text}");
    }
}
