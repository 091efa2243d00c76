//! Requests, rows, schema, batches, listings and the table manager.
use firnflow::batch::{batches_to_list_rows, batches_to_results, rows_to_batch, stamped_batch, Batch, Column, NamedColumn};
use firnflow::cursor::{decode_list_cursor, encode_list_cursor, finish_list, plan_list};
use firnflow::error::{ApiError, FirnflowError};
use firnflow::manager::{
    delete_failure, finish_generation, finish_info, gcs_setting, local_dir_failure, s3_setting,
    CompactResult, Failure, GcsSetting, NamespaceManager, OpenReply, Outcome, Probe, S3Setting,
    Stage, Step, Work, WorkReply,
};
use firnflow::metrics::CoreMetrics;
use firnflow::namespace::NamespaceId;
use firnflow::query::{
    effective_semantic_threshold, validate_facet_request, validate_ivf_pq_options,
    validate_semantic_cache_request, FacetRequest, QueryRequest, SemanticCacheRequest, Similarity,
    DEFAULT_FACET_TOP, DEFAULT_SEMANTIC_MIN_SIMILARITY,
};
use firnflow::result::{ListOrder, ListRow};
use firnflow::rows::{inspect_row_payload, validate_row_against, NamespaceSchemaInfo, UpsertRow};
use firnflow::schema::{
    classify_index_types, read_schema_info_from_table, schema_for_kind,
    validate_scalar_index_column, IndexType,
};
use firnflow::storage_root::{Scheme, StorageRoot};
use firnflow::vector::VectorKind;

fn bits(v: &[f32]) -> Vec<u32> {
    v.iter().map(|x| x.to_bits()).collect()
}

fn similarity(x: f32) -> Similarity {
    Similarity { bits: x.to_bits(), shown: x.to_string() }
}

fn row(id: u64, v: &[f32], text: Option<&str>) -> UpsertRow {
    UpsertRow { text: text.map(|t| t.to_string()), ..UpsertRow::from((id, bits(v))) }
}

fn bag(id: u64, subs: &[&[f32]]) -> UpsertRow {
    UpsertRow {
        vectors: Some(subs.iter().map(|s| bits(s)).collect()),
        ..UpsertRow::from((id, Vec::new()))
    }
}

fn message(e: FirnflowError) -> String {
    match e {
        FirnflowError::InvalidRequest(m) => m,
        other => panic!("expected InvalidRequest, got {other:?}"),
    }
}

// ---------------------------------------------------------------- cursors
#[test]
fn cursor_round_trip() {
    for (ts, id) in [
        (0_i64, 0_u64),
        (1, 1),
        (i64::MAX, u64::MAX),
        (1_700_000_000_000_000, 42),
    ] {
        let encoded = encode_list_cursor(ts, id);
        assert_eq!(encoded.len(), 32);
        let (ts2, id2) = decode_list_cursor(&encoded).expect("decode");
        assert_eq!((ts, id), (ts2, id2));
    }
}

#[test]
fn cursor_rejects_bad_length() {
    assert!(decode_list_cursor("").is_err());
    assert!(decode_list_cursor("abcd").is_err());
    assert!(decode_list_cursor(&"a".repeat(33)).is_err());
}

#[test]
fn cursor_rejects_non_hex() {
    assert!(decode_list_cursor(&"z".repeat(32)).is_err());
}

#[test]
fn cursor_text_is_fixed() {
    assert_eq!(encode_list_cursor(-1, 255), "ffffffffffffffff00000000000000ff");
    assert_eq!(decode_list_cursor("FFFFFFFFFFFFFFFF00000000000000FF").unwrap(), (-1, 255));
}

#[test]
fn pages_follow_on() {
    let rows = |n: u64| -> Vec<ListRow> {
        (0..n)
            .map(|i| ListRow { id: i, vector: Vec::new(), text: None, ingested_at_micros: 100 - i as i64 })
            .collect()
    };
    let scan = plan_list(2, ListOrder::Desc, Some((90, 7)));
    assert_eq!(scan.limit, 2);
    let filter = scan.filter.clone().unwrap();
    assert!(filter.contains("90") && filter.contains("7"), "{filter}");
    let page = finish_list(rows(3), 2);
    assert_eq!(page.rows.len(), 2);
    assert_eq!(page.next_cursor.as_deref(), Some(encode_list_cursor(99, 1).as_str()));
    let last = finish_list(rows(2), 2);
    assert!(last.next_cursor.is_none());
    assert!(plan_list(2, ListOrder::Asc, None).filter.is_none());
    assert_eq!(plan_list(9999, ListOrder::Asc, None).limit, 500);
}

/// The rows of a listing after a position, as a scan reads them.
fn scan(all: &[ListRow], at: Option<(i64, u64)>, fetch: i64) -> Vec<ListRow> {
    all.iter()
        .filter(|r| at.map_or(true, |p| (r.ingested_at_micros, r.id) < p))
        .take(fetch as usize)
        .map(|r| ListRow {
            id: r.id,
            vector: Vec::new(),
            text: None,
            ingested_at_micros: r.ingested_at_micros,
        })
        .collect()
}

#[test]
fn following_cursors_lists_every_row() {
    // Four writes of four rows each, newest first.
    let all: Vec<ListRow> = (0..16u64)
        .rev()
        .map(|i| ListRow {
            id: i,
            vector: Vec::new(),
            text: None,
            ingested_at_micros: 100 + (i / 4) as i64,
        })
        .collect();
    let (mut seen, mut at) = (Vec::new(), None);
    for _ in 0..=all.len() {
        let plan = plan_list(5, ListOrder::Desc, at);
        let page = finish_list(scan(&all, at, plan.fetch), plan.limit);
        seen.extend(page.rows.iter().map(|r| r.id));
        match page.next_cursor {
            Some(c) => at = Some(decode_list_cursor(&c).unwrap()),
            None => break,
        }
    }
    assert_eq!(seen, (0..16u64).rev().collect::<Vec<_>>());
}

// ----------------------------------------------------------------- schema
#[test]
fn scalar_index_column_validation() {
    assert!(validate_scalar_index_column("id").is_ok());
    assert!(validate_scalar_index_column("_ingested_at").is_ok());
    assert!(matches!(
        validate_scalar_index_column("vector"),
        Err(FirnflowError::InvalidRequest(_))
    ));
    assert!(matches!(
        validate_scalar_index_column("text"),
        Err(FirnflowError::InvalidRequest(_))
    ));
}

#[test]
fn classify_index_types_buckets_by_family() {
    assert_eq!(classify_index_types(&vec![]), (false, false, false));
    assert_eq!(
        classify_index_types(&vec![IndexType::IvfPq, IndexType::FTS, IndexType::BTree]),
        (true, true, true)
    );
    assert_eq!(classify_index_types(&vec![IndexType::IvfHnswSq]), (true, false, false));
    assert_eq!(
        classify_index_types(&vec![IndexType::Bitmap, IndexType::LabelList]),
        (false, false, true)
    );
}

#[test]
fn schema_reads_back() {
    for kind in [VectorKind::Single, VectorKind::Multivector] {
        for stamped in [true, false] {
            let fields = schema_for_kind(kind, 7, stamped);
            assert_eq!(fields.len(), if stamped { 4 } else { 3 });
            let info = read_schema_info_from_table(&fields).unwrap();
            assert_eq!(info, NamespaceSchemaInfo { dim: 7, kind, has_ingested_at: stamped });
        }
    }
    assert!(read_schema_info_from_table(&vec![]).is_err());
}

// --------------------------------------------------------------- requests
#[test]
fn validate_accepts_none_and_supported_widths() {
    assert!(validate_ivf_pq_options(None, None).is_ok());
    assert!(validate_ivf_pq_options(None, Some(63)).is_ok());
    assert!(validate_ivf_pq_options(Some(4), None).is_ok());
    assert!(validate_ivf_pq_options(Some(4), Some(64)).is_ok());
    assert!(validate_ivf_pq_options(Some(8), Some(63)).is_ok());
}

#[test]
fn validate_rejects_unsupported_bit_width() {
    let err = validate_ivf_pq_options(Some(7), None).unwrap_err();
    match err {
        FirnflowError::InvalidRequest(msg) => {
            assert!(msg.contains("num_bits=7"), "{msg}");
            assert!(msg.contains("4 or 8"), "{msg}");
        }
        other => panic!("expected InvalidRequest, got {other:?}"),
    }
}

#[test]
fn validate_rejects_4bit_with_odd_sub_vectors() {
    let err = validate_ivf_pq_options(Some(4), Some(63)).unwrap_err();
    match err {
        FirnflowError::InvalidRequest(msg) => {
            assert!(msg.contains("num_bits=4"), "{msg}");
            assert!(msg.contains("even"), "{msg}");
            assert!(msg.contains("63"), "{msg}");
        }
        other => panic!("expected InvalidRequest, got {other:?}"),
    }
}

#[test]
fn validate_allows_4bit_with_unspecified_sub_vectors() {
    assert!(validate_ivf_pq_options(Some(4), None).is_ok());
}

fn req_vector_only() -> QueryRequest {
    QueryRequest {
        vector: bits(&[0.1, 0.2, 0.3]),
        vectors: None,
        k: 10,
        nprobes: None,
        text: None,
        filter: None,
        include_vector: true,
        semantic_cache: None,
    }
}

fn semantic(min: Option<f32>) -> Option<SemanticCacheRequest> {
    Some(SemanticCacheRequest { enabled: true, min_similarity: min.map(similarity) })
}

#[test]
fn semantic_cache_absent_or_disabled_is_ok() {
    let mut req = req_vector_only();
    assert!(validate_semantic_cache_request(&req).is_ok());
    req.semantic_cache = Some(SemanticCacheRequest { enabled: false, min_similarity: None });
    assert!(validate_semantic_cache_request(&req).is_ok());
}

#[test]
fn semantic_cache_threshold_range_enforced() {
    let mut req = req_vector_only();
    req.semantic_cache = semantic(Some(0.0));
    let err = validate_semantic_cache_request(&req).unwrap_err();
    match err {
        FirnflowError::InvalidRequest(msg) => assert!(msg.contains("min_similarity"), "{msg}"),
        other => panic!("expected InvalidRequest, got {other:?}"),
    }
    let mut req = req_vector_only();
    req.semantic_cache = semantic(Some(1.5));
    assert!(matches!(
        validate_semantic_cache_request(&req).unwrap_err(),
        FirnflowError::InvalidRequest(_)
    ));
    let mut req = req_vector_only();
    req.semantic_cache = semantic(Some(f32::NAN));
    assert!(matches!(
        validate_semantic_cache_request(&req).unwrap_err(),
        FirnflowError::InvalidRequest(_)
    ));
}

#[test]
fn semantic_cache_rejects_fts_hybrid_and_multivector() {
    let mut req = req_vector_only();
    req.text = Some("hello".into());
    req.semantic_cache = semantic(None);
    let msg = message(validate_semantic_cache_request(&req).unwrap_err());
    assert!(msg.contains("FTS") || msg.contains("hybrid"), "{msg}");

    let mut req = req_vector_only();
    req.vector.clear();
    req.vectors = Some(vec![bits(&[0.1, 0.2])]);
    req.semantic_cache = semantic(None);
    let msg = message(validate_semantic_cache_request(&req).unwrap_err());
    assert!(msg.contains("multivector") || msg.contains("single-vector"), "{msg}");
}

#[test]
fn semantic_cache_rejects_an_empty_bag() {
    let mut req = req_vector_only();
    req.vectors = Some(Vec::new());
    req.semantic_cache = semantic(None);
    let msg = message(validate_semantic_cache_request(&req).unwrap_err());
    assert_eq!(msg, "semantic_cache is not supported for multivector queries in v1");
}

#[test]
fn semantic_cache_requires_a_vector_when_enabled() {
    let mut req = req_vector_only();
    req.vector.clear();
    req.semantic_cache = semantic(None);
    let msg = message(validate_semantic_cache_request(&req).unwrap_err());
    assert!(msg.contains("single-vector"), "{msg}");
}

#[test]
fn semantic_cache_rejects_filter() {
    let mut req = req_vector_only();
    req.filter = Some("id < 5".into());
    req.semantic_cache = semantic(None);
    let msg = message(validate_semantic_cache_request(&req).unwrap_err());
    assert!(msg.contains("filter"), "{msg}");
}

#[test]
fn semantic_threshold_defaults() {
    assert_eq!(DEFAULT_SEMANTIC_MIN_SIMILARITY, 0.995f32.to_bits());
    assert_eq!(effective_semantic_threshold(&semantic(None).unwrap()), 0.995f32.to_bits());
    assert_eq!(effective_semantic_threshold(&semantic(Some(0.9)).unwrap()), 0.9f32.to_bits());
    let mut req = req_vector_only();
    for x in [f32::MIN_POSITIVE, 1e-40, 0.5, 1.0] {
        req.semantic_cache = semantic(Some(x));
        assert!(validate_semantic_cache_request(&req).is_ok(), "{x}");
    }
    for x in [-0.0f32, -0.5, 1.0000001, f32::INFINITY, f32::NEG_INFINITY] {
        req.semantic_cache = semantic(Some(x));
        assert!(validate_semantic_cache_request(&req).is_err(), "{x}");
    }
}

#[test]
fn facet_request_validation() {
    let mut req = FacetRequest { filter: None, fields: vec!["section".into()], top: None };
    assert_eq!(validate_facet_request(&req).unwrap(), DEFAULT_FACET_TOP);

    req.fields.clear();
    assert!(matches!(validate_facet_request(&req), Err(FirnflowError::InvalidRequest(_))));

    req.fields.push("section".into());
    req.top = Some(0);
    assert!(matches!(validate_facet_request(&req), Err(FirnflowError::InvalidRequest(_))));

    req.top = Some(10);
    req.fields.push("section".into());
    assert!(matches!(validate_facet_request(&req), Err(FirnflowError::InvalidRequest(_))));
}

// ------------------------------------------------------------------- rows
/// Writes rows through every step, each of which goes well.
fn write(
    m: &mut NamespaceManager,
    t: &mut CoreMetrics,
    ns: &NamespaceId,
    rows: Vec<UpsertRow>,
) -> Result<Outcome, FirnflowError> {
    let mut step = m.upsert(ns, rows);
    loop {
        step = match step {
            Step::OpenExisting(task) => m.on_opened(t, ns, task, OpenReply::NotFound),
            Step::OpenTable(planned) => m.on_table(t, ns, planned, Ok(1)),
            Step::Perform(h, planned) => m.on_worked(t, ns, h, planned, Ok(WorkReply::Done)),
            Step::BuildIdIndex(_, info) => m.on_id_index(t, ns, info, true),
            Step::Reopen(_) => m.on_reopened(t, ns, Some(2)),
            Step::Finish(end) => return end,
            other => panic!("{other:?}"),
        };
    }
}

/// The status and the text that a client gets for an error.
fn answer(e: FirnflowError) -> (u16, String) {
    let reply = ApiError::Core(e).into_response();
    (reply.status, reply.error)
}

#[test]
fn single_payload_on_multivector_namespace_returns_400() {
    let (mut m, mut t) = manager();
    let ns = NamespaceId::new("mv-mismatch").unwrap();
    let first = bag(1, &[&[1.0, 0.0, 0.0, 0.0], &[0.0, 1.0, 0.0, 0.0]]);
    assert!(matches!(write(&mut m, &mut t, &ns, vec![first]), Ok(Outcome::Done)));

    let bad = vec![row(2, &[1.0, 0.0, 0.0, 0.0], None)];
    let (status, err) = answer(write(&mut m, &mut t, &ns, bad).unwrap_err());
    assert_eq!(status, 400, "wrong-shape upsert must 400; body: {err}");
    assert!(
        err.contains("multivector") && err.contains("vectors:"),
        "error must point at the multivector shape; got: {err}"
    );

    let mut bad_query = req_vector_only();
    bad_query.vector = bits(&[1.0, 0.0, 0.0, 0.0]);
    bad_query.k = 1;
    match m.query(&ns, bad_query) {
        Step::Finish(Err(e)) => assert_eq!(answer(e).0, 400, "wrong-shape query"),
        other => panic!("{other:?}"),
    }
}

#[test]
fn multi_payload_on_single_namespace_returns_400() {
    let (mut m, mut t) = manager();
    let ns = NamespaceId::new("single-mismatch").unwrap();
    let first = vec![row(1, &[1.0, 0.0, 0.0, 0.0], None)];
    assert!(matches!(write(&mut m, &mut t, &ns, first), Ok(Outcome::Done)));

    let bad = vec![bag(2, &[&[1.0, 0.0, 0.0, 0.0], &[0.0, 1.0, 0.0, 0.0]])];
    let (status, err) = answer(write(&mut m, &mut t, &ns, bad).unwrap_err());
    assert_eq!(status, 400, "wrong-shape upsert must 400; body: {err}");
    assert!(
        err.contains("single") && err.contains("vector:"),
        "error must point at the single-vector shape; got: {err}"
    );
}

#[test]
fn empty_inner_list_returns_400() {
    let (mut m, mut t) = manager();
    let ns = NamespaceId::new("mv-empty").unwrap();
    let (status, err) = answer(write(&mut m, &mut t, &ns, vec![bag(1, &[&[]])]).unwrap_err());
    assert_eq!(status, 400, "empty inner list body: {err}");
    assert!(err.contains("empty"), "error must mention the empty sub-vector; got: {err}");
}

#[test]
fn mixed_inner_dim_returns_400() {
    let (mut m, mut t) = manager();
    let ns = NamespaceId::new("mv-mixed").unwrap();
    let bad = vec![bag(1, &[&[1.0, 0.0, 0.0, 0.0], &[1.0, 0.0]])];
    let (status, err) = answer(write(&mut m, &mut t, &ns, bad).unwrap_err());
    assert_eq!(status, 400, "mixed-dim body: {err}");
    assert!(
        err.contains("sub-vector"),
        "error must mention the sub-vector dimension mismatch; got: {err}"
    );
}

#[test]
fn both_vector_fields_set_returns_400() {
    let (mut m, mut t) = manager();
    let ns = NamespaceId::new("mv-both").unwrap();
    let mut bad = bag(1, &[&[1.0, 0.0, 0.0, 0.0]]);
    bad.vector = bits(&[1.0, 0.0, 0.0, 0.0]);
    let (status, err) = answer(write(&mut m, &mut t, &ns, vec![bad]).unwrap_err());
    assert_eq!(status, 400, "both-fields body: {err}");
    assert!(
        err.contains("exactly one"),
        "error must explain the mutual-exclusion rule; got: {err}"
    );
}

#[test]
fn searches_with_both_vector_fields_are_refused_without_a_table() {
    let (mut m, mut t) = manager();
    let ns = NamespaceId::new("nowhere").unwrap();
    for bag in [vec![bits(&[1.0])], Vec::new()] {
        let mut both = req_vector_only();
        both.vectors = Some(bag);
        match m.query(&ns, both) {
            Step::OpenExisting(task) => match m.on_opened(&mut t, &ns, task, OpenReply::NotFound) {
                Step::Finish(Err(e)) => assert_eq!(
                    answer(e),
                    (400, "invalid request: query may set at most one of `vector` or `vectors`".to_string())
                ),
                other => panic!("{other:?}"),
            },
            other => panic!("{other:?}"),
        }
    }
}

#[test]
fn payload_shapes() {
    assert_eq!(inspect_row_payload(&row(1, &[0.0; 5], None)).unwrap(), (VectorKind::Single, 5));
    assert_eq!(
        inspect_row_payload(&bag(1, &[&[0.0, 1.0], &[1.0, 0.0]])).unwrap(),
        (VectorKind::Multivector, 2)
    );
    assert!(validate_row_against(&row(1, &[0.0; 5], None), VectorKind::Single, 4).is_err());
}

// ---------------------------------------------------------------- batches
#[test]
fn batches_read_back_what_was_written() {
    let rows = vec![row(3, &[1.0, 2.0], Some("a")), row(9, &[3.0, 4.0], None)];
    let b = rows_to_batch(VectorKind::Single, 2, &rows, Some(77)).unwrap();
    assert!(b.is_well_formed());
    let listed = batches_to_list_rows(&vec![b], VectorKind::Single).unwrap();
    assert_eq!(listed.len(), 2);
    assert_eq!(listed[0].id, 3);
    assert_eq!(listed[0].vector, bits(&[1.0, 2.0]));
    assert_eq!(listed[0].text.as_deref(), Some("a"));
    assert_eq!(listed[1].ingested_at_micros, 77);

    let info = NamespaceSchemaInfo { dim: 1, kind: VectorKind::Multivector, has_ingested_at: true };
    let b = stamped_batch(info, &vec![bag(1, &[&[0.5], &[0.25]])]).unwrap();
    let listed = batches_to_list_rows(&vec![b], VectorKind::Multivector).unwrap();
    assert!(listed[0].vector.is_empty());
    assert!(listed[0].ingested_at_micros > 1_600_000_000_000_000);
    let old = NamespaceSchemaInfo { has_ingested_at: false, ..info };
    let b = stamped_batch(old, &vec![bag(1, &[&[0.5]])]).unwrap();
    assert_eq!(b.columns.len(), 3);
}

#[test]
fn search_batches_become_hits() {
    let column = |name: &str, data: Column| NamedColumn { name: name.into(), data };
    let b = Batch {
        num_rows: 2,
        columns: vec![
            column("id", Column::UInt64(vec![5, 6])),
            column("vector", Column::Vectors(vec![bits(&[1.0]), bits(&[2.0])])),
            column("text", Column::Text(vec![Some("x".into()), None])),
            column("_distance", Column::Float32(bits(&[0.25, 0.5]))),
            column("_ingested_at", Column::Micros(vec![1, 2], vec![true, false])),
        ],
    };
    let hits = batches_to_results(&vec![b], VectorKind::Single, true).unwrap();
    assert_eq!(hits[0].score, 0.25f32.to_bits());
    assert_eq!(hits[0].vector, Some(bits(&[1.0])));
    assert_eq!(hits[0].ingested_at_micros, Some(1));
    assert_eq!(hits[1].text, None);
    let bad = Batch { num_rows: 3, columns: vec![column("id", Column::UInt64(vec![1]))] };
    assert!(!bad.is_well_formed());
}

// ---------------------------------------------------------------- manager
fn manager() -> (NamespaceManager, CoreMetrics) {
    let root = StorageRoot::s3_bucket("data").unwrap();
    (NamespaceManager::new(root, Vec::new()), CoreMetrics::new().unwrap())
}

#[test]
fn first_write_creates_the_table_and_its_id_index() {
    let (mut m, mut t) = manager();
    let ns = NamespaceId::new("books").unwrap();
    assert_eq!(m.uri(&ns), "s3://data/books/");
    assert_eq!(m.namespace_object_path(&ns), "books");
    let step = m.upsert(&ns, vec![row(1, &[0.0, 1.0], None)]);
    let step = match step {
        Step::OpenExisting(task) => m.on_opened(&mut t, &ns, task, OpenReply::NotFound),
        other => panic!("{other:?}"),
    };
    let step = match step {
        Step::OpenTable(planned) => {
            assert!(planned.fresh);
            assert_eq!(planned.info.dim, 2);
            m.on_table(&mut t, &ns, planned, Ok(11))
        }
        other => panic!("{other:?}"),
    };
    assert_eq!(m.pool_size(), 1);
    assert_eq!(t.cached_handles_value(), 1);
    let step = match step {
        Step::Perform(11, planned) => m.on_worked(&mut t, &ns, 11, planned, Ok(WorkReply::Done)),
        other => panic!("{other:?}"),
    };
    let step = match step {
        Step::BuildIdIndex(11, info) => m.on_id_index(&mut t, &ns, info, true),
        other => panic!("{other:?}"),
    };
    assert_eq!(t.cached_handles_value(), 0);
    let step = match step {
        Step::Reopen(_) => m.on_reopened(&mut t, &ns, Some(12)),
        other => panic!("{other:?}"),
    };
    assert!(matches!(step, Step::Finish(Ok(Outcome::Done))));
    assert_eq!(m.dim_for(&ns), Some(2));
    assert_eq!(m.kind_for(&ns), Some(VectorKind::Single));
    assert!(m.is_pooled(&ns));
    // The next write merges into the open table at once.
    assert!(matches!(
        m.upsert(&ns, vec![row(1, &[0.0, 1.0], None)]),
        Step::Perform(12, _)
    ));
    // The shape of a namespace is fixed.
    match m.upsert(&ns, vec![row(2, &[0.0], None)]) {
        Step::Finish(Err(FirnflowError::InvalidRequest(_))) => {}
        other => panic!("{other:?}"),
    }
    m.delete(&mut t, &ns, 4);
    assert_eq!(m.pool_size(), 0);
    assert_eq!(t.cached_handles_value(), 0);
    assert_eq!(m.dim_for(&ns), None);
}

#[test]
fn duplicate_ids_and_empty_writes() {
    let (m, _t) = manager();
    let ns = NamespaceId::new("books").unwrap();
    assert!(matches!(m.upsert(&ns, Vec::new()), Step::Finish(Ok(Outcome::Done))));
    match m.upsert(&ns, vec![row(7, &[0.0], None), row(7, &[1.0], None)]) {
        Step::Finish(Err(e)) => assert!(message(e).contains("7")),
        other => panic!("{other:?}"),
    }
}

#[test]
fn reads_of_a_missing_namespace_find_nothing() {
    let (mut m, mut t) = manager();
    let ns = NamespaceId::new("nowhere").unwrap();
    match m.query(&ns, req_vector_only()) {
        Step::OpenExisting(task) => match m.on_opened(&mut t, &ns, task, OpenReply::NotFound) {
            Step::Finish(Ok(Outcome::Hits(set))) => assert!(set.results.is_empty()),
            other => panic!("{other:?}"),
        },
        other => panic!("{other:?}"),
    }
    match m.compact(&ns) {
        Step::OpenExisting(task) => match m.on_opened(&mut t, &ns, task, OpenReply::NotFound) {
            Step::Finish(Err(e)) => assert_eq!(
                message(e),
                "cannot compact namespace nowhere: no data has been upserted yet"
            ),
            other => panic!("{other:?}"),
        },
        other => panic!("{other:?}"),
    }
    let failed = Failure { stage: Stage::OpenTable, text: "timeout".into() };
    match m.list(&mut t, &ns, 10, ListOrder::Desc, None) {
        Step::OpenExisting(task) => match m.on_opened(&mut t, &ns, task, OpenReply::Failed(failed)) {
            Step::Finish(Err(FirnflowError::Backend(text))) => {
                assert_eq!(text, "open table nowhere: timeout")
            }
            other => panic!("{other:?}"),
        },
        other => panic!("{other:?}"),
    }
    assert_eq!(m.generation(&ns), Probe::Absent);
    assert_eq!(finish_generation(None), 0);
}

#[test]
fn a_table_is_opened_searched_and_compacted() {
    let (mut m, mut t) = manager();
    let ns = NamespaceId::new("books").unwrap();
    let fields = schema_for_kind(VectorKind::Single, 3, true);
    let step = match m.query(&ns, req_vector_only()) {
        Step::OpenExisting(task) => m.on_opened(&mut t, &ns, task, OpenReply::Opened(5, fields)),
        other => panic!("{other:?}"),
    };
    match step {
        Step::Perform(5, planned) => {
            match &planned.work {
                Work::Search { nprobes, limit, projection, .. } => {
                    assert_eq!((*nprobes, *limit), (20, 10));
                    assert!(projection.columns().is_none());
                }
                other => panic!("{other:?}"),
            }
            let hits = m.on_worked(&mut t, &ns, 5, planned, Ok(WorkReply::Batches(Vec::new())));
            assert!(matches!(hits, Step::Finish(Ok(Outcome::Hits(_)))));
        }
        other => panic!("{other:?}"),
    }
    let step = match m.compact(&ns) {
        Step::Perform(5, planned) => {
            m.on_worked(&mut t, &ns, 5, planned, Ok(WorkReply::Compacted(Some((9, 1)))))
        }
        other => panic!("{other:?}"),
    };
    match step {
        Step::Finish(Ok(Outcome::Compacted(c))) => {
            assert_eq!(c, CompactResult { fragments_removed: 9, fragments_added: 1 })
        }
        other => panic!("{other:?}"),
    }
    assert!(!m.is_pooled(&ns));
    let info = NamespaceSchemaInfo { dim: 3, kind: VectorKind::Single, has_ingested_at: true };
    let meta = finish_info(&ns, info, 12, &vec![IndexType::BTree], 2, 8);
    assert_eq!((meta.row_count, meta.fragment_count, meta.table_version), (12, 2, 8));
    assert!(meta.has_scalar_index && !meta.has_vector_index);
}

#[test]
fn generations_differ_by_version_and_time() {
    let a = finish_generation(Some((1, 1000)));
    assert_eq!(a, finish_generation(Some((1, 1000))));
    assert_ne!(a, finish_generation(Some((2, 1000))));
    assert_ne!(a, finish_generation(Some((1, 1001))));
    let mut bytes = 1u64.to_le_bytes().to_vec();
    bytes.extend(1000u128.to_le_bytes());
    assert_eq!(a, xxhash_rust::xxh3::xxh3_64(&bytes));
}

#[test]
fn namespaces_have_plain_names() {
    assert!(NamespaceId::new("a-b_9").is_ok());
    for bad in ["", "NOT_LOWERCASE", "a/b", "a b", "\u{e9}"] {
        assert!(matches!(NamespaceId::new(bad), Err(FirnflowError::InvalidNamespace(_))), "{bad}");
    }
}

#[test]
fn storage_roots_place_namespaces_apart() {
    let a = NamespaceId::new("a").unwrap();
    let b = NamespaceId::new("b").unwrap();
    let root = StorageRoot::parse("gs://bucket//deep/prefix/").unwrap();
    assert_eq!(root.scheme(), Scheme::Gcs);
    assert_eq!(root.bucket(), "bucket");
    assert_eq!(root.to_uri(), "gs://bucket/deep/prefix");
    assert_eq!(root.namespace_uri(&a), "gs://bucket/deep/prefix/a/");
    assert_eq!(root.namespace_object_path(&a), "deep/prefix/a");
    assert_ne!(root.namespace_uri(&a), root.namespace_uri(&b));
    let plain = StorageRoot::s3_bucket("bucket").unwrap();
    assert_eq!(plain.namespace_object_path(&a), "a");
    assert!(plain.same_place(&StorageRoot::parse("s3://bucket/").unwrap()));
    assert!(!plain.same_place(&root));
    assert_eq!(StorageRoot::parse("file:///srv/firn/").unwrap().bucket(), "/srv/firn");
    for bad in ["", "bucket", "s3://", "gs:///x", "ftp://b"] {
        assert!(matches!(StorageRoot::parse(bad), Err(FirnflowError::InvalidRequest(_))), "{bad}");
    }
    assert!(StorageRoot::s3_bucket("a/b").is_err());
}

#[test]
fn storage_options_reach_their_setters() {
    assert_eq!(s3_setting("aws_access_key_id", "k"), Some(S3Setting::AccessKeyId));
    assert_eq!(s3_setting("aws_secret_access_key", "k"), Some(S3Setting::SecretAccessKey));
    assert_eq!(s3_setting("aws_region", "r"), Some(S3Setting::Region));
    assert_eq!(s3_setting("aws_endpoint", "e"), Some(S3Setting::Endpoint));
    assert_eq!(s3_setting("allow_http", "true"), Some(S3Setting::AllowHttp(true)));
    assert_eq!(
        s3_setting("aws_virtual_hosted_style_request", "True"),
        Some(S3Setting::VirtualHostedStyle(false))
    );
    assert_eq!(s3_setting("AWS_REGION", "r"), None);
    assert_eq!(gcs_setting("google_service_account"), Some(GcsSetting::ServiceAccountPath));
    assert_eq!(gcs_setting("google_service_account_path"), Some(GcsSetting::ServiceAccountPath));
    assert_eq!(gcs_setting("google_service_account_key"), Some(GcsSetting::ServiceAccountKey));
    assert_eq!(
        gcs_setting("google_application_credentials"),
        Some(GcsSetting::ApplicationCredentials)
    );
    assert_eq!(gcs_setting("aws_region"), None);
}

#[test]
fn storage_failures_name_their_call() {
    let ns = NamespaceId::new("books").unwrap();
    let backend = |e: FirnflowError| match e {
        FirnflowError::Backend(m) => m,
        other => panic!("expected Backend, got {other:?}"),
    };
    let text = |stage| backend(Failure { stage, text: "boom".to_string() }.into_error(&ns));
    assert_eq!(text(Stage::Connect), "lancedb connect: boom");
    assert_eq!(text(Stage::OpenTable), "open table books: boom");
    assert_eq!(text(Stage::MergeInsert), "table.merge_insert: boom");
    assert_eq!(text(Stage::ListObjects), "list books: boom");
    assert_eq!(text(Stage::ScanLimit), "scan.limit: boom");
    assert_eq!(text(Stage::ListNative), "list requires a native lance table");
    assert_eq!(backend(delete_failure("a/1.lance", "boom")), "delete a/1.lance: boom");
    assert_eq!(backend(local_dir_failure("/srv", "boom")), "create local storage dir /srv: boom");
}

#[test]
fn the_gauge_follows_the_pool() {
    let (mut m, mut t) = manager();
    let a = NamespaceId::new("a").unwrap();
    let b = NamespaceId::new("b").unwrap();
    m.cache_handle(&mut t, &a, 1);
    m.cache_handle(&mut t, &b, 2);
    m.cache_handle(&mut t, &a, 3);
    assert_eq!((m.pool_size(), t.cached_handles_value()), (2, 2));
    assert_eq!((m.handle_for(&a), m.handle_for(&b)), (Some(3), Some(2)));
    m.evict_handle(&mut t, &a);
    m.evict_handle(&mut t, &a);
    assert_eq!((m.pool_size(), t.cached_handles_value()), (1, 1));
    assert!(!m.is_pooled(&a) && m.is_pooled(&b));
}
