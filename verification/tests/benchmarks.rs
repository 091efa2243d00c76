//! What the benchmarks read and report.
use firnflow::bench::{
    counter_delta, default_num_sub_vectors, label_of, labelled_value, mebibytes, metric_value,
    needs_seeding, outcome_label, overlap_count, parse_usize_list, percentiles, row_batches,
    s3_request_values, sixteenth, sum_s3_requests, vector_query, warmup_count, BenchConfig,
    IndexBenchConfig, MetricDelta, MetricSnapshot, Mode, ProfileConfig,
};
use firnflow::bench_report::{
    render_cold_warm, render_index_report, ColdWarmReport, Gain, IndexReport, Latencies,
};
use firnflow::cachebackend::CacheBackendCountersSnapshot;
use firnflow::calendar::{chrono_today, civil_from_days, date_of, timestamp_of, utc_timestamp};
use firnflow::clock::{nanos_since_epoch, ts_nanos};
use firnflow::report::{
    push_case_row, render_report, traffic_section, CaseResult, ReportInput, ScanRow, ThresholdRow,
};
use firnflow::result::{QueryResult, QueryResultSet};

fn env(pairs: &[(&str, &str)]) -> Vec<(String, String)> {
    pairs.iter().map(|(k, v)| (k.to_string(), v.to_string())).collect()
}

#[test]
fn calendar_dates() {
    assert_eq!(civil_from_days(0), (1970, 1, 1));
    assert_eq!(civil_from_days(-1), (1969, 12, 31));
    assert_eq!(civil_from_days(11_016), (2000, 2, 29));
    assert_eq!(civil_from_days(11_017), (2000, 3, 1));
    assert_eq!(civil_from_days(19_723), (2024, 1, 1));
    assert_eq!(civil_from_days(-719_468), (0, 3, 1));
    assert_eq!(civil_from_days(-719_469), (0, 2, 29));
    assert_eq!(civil_from_days(47_540), (2100, 2, 28));
    assert_eq!(civil_from_days(47_541), (2100, 3, 1));
    assert_eq!(date_of(1_700_000_000), "2023-11-14");
    assert_eq!(timestamp_of(1_700_000_000), "2023-11-14T22:13:20Z");
    assert_eq!(timestamp_of(-1), "1969-12-31T23:59:59Z");
    assert_eq!(chrono_today().len(), 10);
    assert_eq!(utc_timestamp().len(), 20);
    assert!(ts_nanos().unwrap() > 1_600_000_000_000_000_000);
    assert_eq!(nanos_since_epoch(Some(std::time::Duration::new(2, 5))), Some(2_000_000_005));
    assert_eq!(nanos_since_epoch(None), None);
}

#[test]
fn days_follow_each_other() {
    let mut last = civil_from_days(-800_000);
    for day in -799_999..=800_000 {
        let next = civil_from_days(day);
        let same_month = next.0 == last.0 && next.1 == last.1 && next.2 == last.2 + 1;
        let next_month = next.2 == 1
            && (last.2 >= 28)
            && ((next.0 == last.0 && next.1 == last.1 + 1)
                || (next.0 == last.0 + 1 && next.1 == 1 && last.1 == 12));
        assert!(same_month || next_month, "{last:?} {next:?}");
        last = next;
    }
}

#[test]
fn modes_have_names() {
    for mode in [Mode::CurrentFirn, Mode::WarmIndexCache, Mode::CacheDisabledCold] {
        assert_eq!(Mode::parse(mode.slug()).unwrap(), mode);
    }
    assert_eq!(
        Mode::parse("x").unwrap_err().message,
        "unknown bench mode \"x\": expected one of current-firn, warm-index-cache, cache-disabled-cold"
    );
    assert_eq!(warmup_count(Mode::WarmIndexCache, 5), 5);
    assert_eq!(warmup_count(Mode::CurrentFirn, 5), 0);
}

#[test]
fn bench_configurations() {
    let c = BenchConfig::from_env(&env(&[("FIRNFLOW_STORAGE_URI", "s3://b"), ("FIRNFLOW_BENCH_DIM", "64")]))
        .ok()
        .unwrap();
    assert_eq!((c.dim, c.rows, c.queries, c.nprobes), (64, 100, 50, 20));
    assert_eq!((c.cache_ram_mb, c.cache_nvme_mb), (16, 256));
    assert_eq!(c.out_path, "bench/results/cold_vs_warm_realistic.md");
    assert_eq!(mebibytes(16), Some(16 * 1024 * 1024));
    assert_eq!(mebibytes(usize::MAX), None);
    // The URI wins; the two need not agree.
    let c = BenchConfig::from_env(&env(&[("FIRNFLOW_STORAGE_URI", "gs://b"), ("FIRNFLOW_S3_BUCKET", "x")]));
    assert_eq!(c.ok().unwrap().storage_root.to_uri(), "gs://b");
    let e = BenchConfig::from_env(&env(&[("FIRNFLOW_STORAGE_URI", "b")])).err().unwrap();
    assert!(e.message.starts_with("FIRNFLOW_STORAGE_URI (\"b\"): "), "{}", e.message);
    let e = BenchConfig::from_env(&env(&[])).err().unwrap();
    assert_eq!(
        e.message,
        "set FIRNFLOW_STORAGE_URI=s3://bucket or the legacy FIRNFLOW_S3_BUCKET=bucket"
    );
    let e = BenchConfig::from_env(&env(&[("FIRNFLOW_S3_BUCKET", "b"), ("FIRNFLOW_BENCH_ROWS", " 5")]));
    assert_eq!(e.err().unwrap().message, "FIRNFLOW_BENCH_ROWS");

    let c = IndexBenchConfig::from_env(&env(&[
        ("FIRNFLOW_S3_BUCKET", "b"),
        ("FIRNFLOW_BENCH_INDEX_CACHE_MODE", " warm-index-cache "),
        ("FIRNFLOW_BENCH_ROWS", " 5 "),
        ("FIRNFLOW_S3_REGION", "  "),
    ]))
    .ok()
    .unwrap();
    assert_eq!(c.mode, Mode::WarmIndexCache);
    assert_eq!((c.dim, c.rows, c.index_cache_nvme_mb), (1536, 5, 10240));
    assert_eq!(c.out_path, "bench/results/index_cache_warm-index-cache.md");
    assert_eq!(c.namespace, "index-cache-bench");
    assert_eq!(c.storage_options, env(&[("aws_region", "us-east-1")]));
    let e = IndexBenchConfig::from_env(&env(&[("FIRNFLOW_BENCH_INDEX_CACHE_MODE", "hot")]));
    assert!(e.err().unwrap().message.contains("unknown bench mode"));
}

#[test]
fn profile_configuration() {
    let threshold = || Ok(0.995f32.to_bits());
    let sweep = || Ok(vec![0.999f32.to_bits(), 0]);
    let base = [("FIRNFLOW_S3_BUCKET", "b")];
    let c = ProfileConfig::from_env(&env(&base), threshold(), sweep()).ok().unwrap();
    assert_eq!((c.dim, c.rows, c.reps, c.k, c.nprobes), (512, 10_000, 200, 10, 20));
    assert_eq!(c.fill_sizes, vec![1, 16, 128, 512, 1024]);
    let fault = |pairs: &[(&str, &str)], t: Result<u32, String>, s: Result<Vec<u32>, String>| {
        ProfileConfig::from_env(&env(pairs), t, s).err().unwrap().message
    };
    let with = |k: &'static str, v: &'static str| [("FIRNFLOW_S3_BUCKET", "b"), (k, v)];
    assert_eq!(
        fault(&with("FIRNFLOW_SEM_K", "x"), threshold(), sweep()),
        "FIRNFLOW_SEM_K=\"x\": invalid digit found in string"
    );
    assert_eq!(fault(&with("FIRNFLOW_BENCH_DIM", "0"), threshold(), sweep()), "FIRNFLOW_BENCH_DIM must be > 0");
    assert_eq!(fault(&with("FIRNFLOW_BENCH_ROWS", "0"), threshold(), sweep()), "FIRNFLOW_BENCH_ROWS must be > 0");
    assert_eq!(fault(&with("FIRNFLOW_SEM_REPS", "0"), threshold(), sweep()), "FIRNFLOW_SEM_REPS must be > 0");
    assert_eq!(fault(&with("FIRNFLOW_SEM_K", "0"), threshold(), sweep()), "FIRNFLOW_SEM_K must be > 0");
    assert_eq!(
        fault(&base, Ok(1.5f32.to_bits()), sweep()),
        "FIRNFLOW_SEM_THRESHOLD must be in (0.0, 1.0]"
    );
    assert_eq!(
        fault(&base, threshold(), Ok(vec![(-0.5f32).to_bits()])),
        "FIRNFLOW_SEM_COSINE_SWEEP values must be in [0.0, 1.0]"
    );
    assert_eq!(
        fault(&with("FIRNFLOW_SEM_FILL", " , "), threshold(), sweep()),
        "FIRNFLOW_SEM_FILL must contain at least one entry"
    );
    assert_eq!(
        fault(&with("FIRNFLOW_SEM_FILL", "1, two"), threshold(), sweep()),
        "FIRNFLOW_SEM_FILL entry \"two\": invalid digit found in string"
    );
    assert_eq!(fault(&base, Err("bad float".into()), sweep()), "bad float");
    assert_eq!(fault(&base, threshold(), Err("bad list".into())), "bad list");
    assert_eq!(parse_usize_list(&env(&[("L", " 3,,4 ,5")]), "L", "1").ok().unwrap(), vec![3, 4, 5]);
}

#[test]
fn percentiles_of_samples() {
    let p = percentiles((1..=100).rev().collect());
    assert_eq!((p.p50, p.p95, p.p99, p.max), (51, 96, 100, 100));
    let p = percentiles(vec![7]);
    assert_eq!((p.p50, p.p95, p.p99, p.max), (7, 7, 7, 7));
}

#[test]
fn rows_are_written_in_batches() {
    assert!(row_batches(0).is_empty());
    assert_eq!(row_batches(10_000), vec![(0, 10_000)]);
    assert_eq!(row_batches(25_000), vec![(0, 10_000), (10_000, 20_000), (20_000, 25_000)]);
}

const BODY: &str = "# HELP firnflow_cache_hits_total x\n\
firnflow_cache_hits_total{namespace=\"a\"} 3\r\n\
firnflow_cache_hits_total{namespace=\"b\"} 4\n\
firnflow_s3_requests_total{namespace=\"a\",operation=\"query\"} 5\n\
firnflow_s3_requests_total{namespace=\"a\",operation=\"upsert\"} 6\n\
firnflow_s3_requests_total{namespace=\"b\",operation=\"query\"} 7\n\
broken";

#[test]
fn metrics_are_read_from_their_text() {
    assert_eq!(metric_value(BODY, "firnflow_cache_hits_total", &label_of("b")).as_deref(), Some("4"));
    assert_eq!(metric_value(BODY, "firnflow_cache_hits_total", "").as_deref(), Some("3"));
    assert_eq!(metric_value(BODY, "firnflow_cache_hits_total", &label_of("c")), None);
    assert_eq!(metric_value(BODY, "broken", ""), None);
    let words = vec![label_of("a"), "operation=\"upsert\"".to_string()];
    assert_eq!(labelled_value(BODY, "firnflow_s3_requests_total", &words).as_deref(), Some("6"));
    assert_eq!(s3_request_values(BODY, "a"), vec!["5".to_string(), "6".to_string()]);
    assert_eq!(sum_s3_requests(&vec![5, 6]), 11);
    assert_eq!(sum_s3_requests(&vec![u64::MAX, 6]), u64::MAX);
}

fn delta(f: impl Fn(&mut MetricDelta)) -> MetricDelta {
    let mut d = MetricDelta {
        cache_hits: 0,
        cache_misses: 0,
        semantic_hits: 0,
        semantic_misses: 0,
        semantic_empty: 0,
        backend_queries: 0,
    };
    f(&mut d);
    d
}

#[test]
fn counters_are_compared() {
    let before = MetricSnapshot {
        cache_hits: 1,
        cache_misses: 2,
        semantic_hits: 3,
        semantic_misses: 4,
        semantic_empty: 5,
        backend_queries: 6,
    };
    let after = MetricSnapshot { cache_hits: 4, semantic_hits: 2, ..before };
    assert_eq!(after.diff(before), delta(|d| d.cache_hits = 3));
    assert_eq!(outcome_label(delta(|d| d.semantic_hits = 1)), "semantic-hit");
    assert_eq!(outcome_label(delta(|d| d.semantic_misses = 1)), "semantic-miss");
    assert_eq!(outcome_label(delta(|d| d.semantic_empty = 1)), "empty-index");
    assert_eq!(outcome_label(delta(|d| d.cache_hits = 1)), "exact-hit");
    assert_eq!(outcome_label(delta(|_| ())), "backend");
    let a = CacheBackendCountersSnapshot { get: 9, insert: 1, get_or_insert: 0, invalidate_prefix: 0, clear: 0 };
    let b = CacheBackendCountersSnapshot { get: 4, insert: 2, ..a };
    assert_eq!((counter_delta(a, b).get, counter_delta(a, b).insert), (5, 0));
}

#[test]
fn index_parameters_divide_the_width() {
    assert_eq!(default_num_sub_vectors(512), 32);
    assert_eq!(default_num_sub_vectors(100), 5);
    assert_eq!(default_num_sub_vectors(17), 1);
    assert_eq!(default_num_sub_vectors(0), 1);
    assert_eq!(sixteenth(1536), 96);
    assert_eq!(sixteenth(8), 1);
}

#[test]
fn overlaps_are_counted() {
    let set = |ids: &[u64]| QueryResultSet {
        query_id: String::new(),
        results: ids
            .iter()
            .map(|id| QueryResult { id: *id, score: 0, vector: None, text: None, ingested_at_micros: None })
            .collect(),
    };
    assert_eq!(overlap_count(&set(&[1, 2, 3]), &set(&[3, 3, 4, 1])), 3);
    assert_eq!(overlap_count(&set(&[]), &set(&[3])), 0);
    let q = vector_query(vec![1], 5, 7, None);
    assert_eq!((q.k, q.nprobes, q.include_vector), (5, Some(7), true));
    assert!(q.semantic_cache.is_none());
}

#[test]
fn seeding_is_decided_by_the_width() {
    assert!(needs_seeding("n", None, 4).ok().unwrap());
    assert!(!needs_seeding("n", Some(4), 4).ok().unwrap());
    assert_eq!(
        needs_seeding("n", Some(8), 4).err().unwrap().message,
        "namespace `n` already exists with dim=8, but the bench was invoked with FIRNFLOW_BENCH_DIM=4. \
         Pick a different FIRNFLOW_BENCH_INDEX_CACHE_NS or matching dim."
    );
}

fn case(n: usize) -> CaseResult {
    CaseResult {
        samples: n,
        p50: "1 us".into(),
        p95: "2 us".into(),
        p99: "3 us".into(),
        max: "4 us".into(),
        metrics: delta(|d| d.semantic_hits = n as u64),
    }
}

#[test]
fn reports_are_assembled() {
    let mut row = String::from(">");
    push_case_row(&mut row, "cold novel", &case(3));
    assert_eq!(row, ">| cold novel | 3 | 1 us | 2 us | 3 us | 4 us | 0 | 3 | 0 | 0 | 0 |\n");
    let input = ReportInput {
        start_utc: "S".into(),
        stop_utc: "E".into(),
        storage_root: "s3://b".into(),
        ns: "n".into(),
        dim: 1,
        rows: 2,
        reps: 3,
        k: 4,
        nprobes: 5,
        threshold: "0.995000".into(),
        storage_mb: "0.1".into(),
        cache_ram_mb: 6,
        cache_nvme_mb: 7,
        upsert_secs: "0.5".into(),
        num_partitions: 8,
        num_sub_vectors: 9,
        index_secs: "0.7".into(),
        cold_novel: case(1),
        foyer_hit: case(2),
        semantic_hit: case(3),
        semantic_miss_below: case(4),
        semantic_speedup: "10.0".into(),
        foyer_speedup: "20.0".into(),
        hit_cosine: "0.997000".into(),
        below_cosine: "0.994000".into(),
        hit_overlap: 3,
        threshold_rows: vec![ThresholdRow {
            target_cosine: "0.9".into(),
            observed_cosine: "0.91".into(),
            outcome: "semantic-hit".into(),
            overlap: 2,
        }],
        scan_rows: vec![ScanRow { entries: 16, result: case(5) }],
    };
    let report = render_report(&input);
    assert!(report.starts_with("# Semantic cache profile\n\n- **Start UTC**: S\n- **Stop UTC**: E\n"));
    assert!(report.contains("\n- **Config**: dim=1, rows=2, reps=3, k=4, nprobes=5, threshold=0.995000\n"));
    assert!(report.contains("(partitions=8, sub_vectors=9) in 0.7s\n"));
    assert!(report.contains("| semantic miss below threshold | 4 |"));
    assert!(report.contains("by 3/4 ids."));
    assert!(report.contains("| 0.9 | 0.91 | semantic-hit | 2/4 |\n"));
    assert!(report.contains("| 16 | 5 | 1 us | 2 us | 3 us | 4 us | 5 |\n"));
    assert!(report.ends_with("fresh backend query for the probe vector.\n"));
    let d = CacheBackendCountersSnapshot { get: 1, insert: 2, get_or_insert: 3, invalidate_prefix: 0, clear: 0 };
    assert!(traffic_section(&d).contains("| `get` | 1 |\n| `insert` | 2 |\n| `get_or_insert` | 3 |\n\n"));
}

fn latencies(p50: &str) -> Latencies {
    Latencies { p50: p50.into(), p95: "b".into(), p99: "c".into(), max: "d".into() }
}

fn gain(p50: &str) -> Gain {
    Gain { p50: p50.into(), p99: "9".into() }
}

#[test]
fn cold_and_warm_queries_are_reported() {
    let report = render_cold_warm(&ColdWarmReport {
        date: "2024-01-01".into(),
        dim: 1,
        rows: 2,
        queries: 3,
        nprobes: 4,
        storage_mb: "5".into(),
        cache_ram_mb: 6,
        cache_nvme_mb: 7,
        upsert_linear: "0.8".into(),
        upsert_indexed: "0.9".into(),
        num_partitions: 10,
        num_sub_vectors: 11,
        index_secs: "1.2".into(),
        linear_cold: latencies("lc"),
        linear_warm: latencies("lw"),
        indexed_cold: latencies("ic"),
        indexed_warm: latencies("iw"),
        linear_gain: gain("100"),
        indexed_gain: gain("50"),
        index_gain: gain("2.0"),
        linear_misses: 13,
        linear_hits: 14,
        indexed_misses: 15,
        indexed_hits: 16,
    });
    assert!(report.starts_with(
        "# Cold vs warm query latency \u{2014} realistic parameters\n\n- **Date**: 2024-01-01\n"
    ));
    assert!(report.contains("\n- **Config**: dim=1, rows=2, queries=3, nprobes=4\n"));
    assert!(report.contains("(partitions=10, sub_vectors=11) in **1.2s**\n"));
    assert!(report.contains("\n| linear scan | cold | lc | b | c | d |\n"));
    assert!(report.contains("\n| IVF_PQ      | warm | iw | b | c | d |\n"));
    assert!(report.contains("\n| linear cold \u{2192} indexed cold | 2.0x | 9x |\n"));
    assert!(report.contains("\n| linear    | 13 | 14 | 3 cold queries \u{2192} 13 S3 trips; 3 warm \u{2192} 0 |\n"));
    assert!(report.ends_with("paid once, amortised across all subsequent queries.\n"));
}

#[test]
fn index_cache_runs_are_reported() {
    let input = |mode, seed_secs: Option<&str>| IndexReport {
        mode,
        date: "2024-01-01".into(),
        ns: "n".into(),
        dim: 1,
        rows: 2,
        storage_mb: "3".into(),
        queries: 4,
        warmup: 5,
        k: 6,
        nprobes: 7,
        seed_secs: seed_secs.map(String::from),
        index_cache_ram_mb: 8,
        index_cache_nvme_mb: 9,
        result_cache_ram_mb: 10,
        result_cache_nvme_mb: 11,
        latency: latencies("a"),
        traffic: CacheBackendCountersSnapshot {
            get: 12,
            insert: 13,
            get_or_insert: 14,
            invalidate_prefix: 0,
            clear: 0,
        },
        s3_before: 15,
        s3_after: 18,
    };
    let warm = render_index_report(&input(Mode::WarmIndexCache, Some("1.5")));
    assert!(warm.starts_with("# Index cache bench: warm-index-cache\n\n- **Date**: 2024-01-01\n"));
    assert!(warm.contains("\n- **Seed**: 1.5s\n"));
    assert!(warm.contains("\n| a | b | c | d |\n\n## Cache-backend traffic (measure window)\n"));
    assert!(warm.contains("| `firnflow_s3_requests_total` for this namespace | 3 |\n"));
    let cold = render_index_report(&input(Mode::CurrentFirn, None));
    assert!(cold.contains("\n- **Seed**: skipped (namespace reused)\n"));
    assert!(cold.contains("\n| a | b | c | d |\n\n## Firn-level S3 requests (delta)\n"));
    assert!(cold.ends_with("the aggregate is sufficient to read the warm-vs-cold signal.\n"));
}
