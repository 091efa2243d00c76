//! Reports of the latency benchmarks. Figures come as text, formatted already.
use vstd::prelude::*;
use crate::bench::{self, Mode};
use crate::cachebackend::CacheBackendCountersSnapshot;
use crate::report;
use crate::text;

verus! {

/// Latencies of one phase.
#[derive(Debug)]
pub struct Latencies {
    pub p50: String,
    pub p95: String,
    pub p99: String,
    pub max: String,
}

/// How many times faster one phase is than another.
#[derive(Debug)]
pub struct Gain {
    pub p50: String,
    pub p99: String,
}

/// What the report on cold and warm queries is made of.
#[derive(Debug)]
pub struct ColdWarmReport {
    pub date: String,
    pub dim: usize,
    pub rows: usize,
    pub queries: usize,
    pub nprobes: usize,
    pub storage_mb: String,
    pub cache_ram_mb: usize,
    pub cache_nvme_mb: usize,
    pub upsert_linear: String,
    pub upsert_indexed: String,
    pub num_partitions: u32,
    pub num_sub_vectors: u32,
    pub index_secs: String,
    pub linear_cold: Latencies,
    pub linear_warm: Latencies,
    pub indexed_cold: Latencies,
    pub indexed_warm: Latencies,
    /// Linear scan, cold over warm.
    pub linear_gain: Gain,
    /// Indexed, cold over warm.
    pub indexed_gain: Gain,
    /// Linear scan over indexed, both cold.
    pub index_gain: Gain,
    pub linear_misses: u64,
    pub linear_hits: u64,
    pub indexed_misses: u64,
    pub indexed_hits: u64,
}

/// What the cold and warm report says above its latencies.
pub open spec fn cold_warm_head_text(r: ColdWarmReport) -> Seq<char> {
    "# Cold vs warm query latency — realistic parameters\n\n- **Date**: "@
        + r.date@
        + "\n- **Harness**: `./scripts/cargo run --release -p firnflow-bench`\n- **Backend**: MinIO (see `docs/provider-support.md` for the pinned digest)\n- **Config**: dim="@
        + text::dec(r.dim as nat)
        + ", rows="@
        + text::dec(r.rows as nat)
        + ", queries="@
        + text::dec(r.queries as nat)
        + ", nprobes="@
        + text::dec(r.nprobes as nat)
        + "\n- **Storage**: ~"@
        + r.storage_mb@
        + " MB raw vector data\n- **Cache**: RAM="@
        + text::dec(r.cache_ram_mb as nat)
        + "MB, NVMe="@
        + text::dec(r.cache_nvme_mb as nat)
        + "MB\n- **Upsert**: linear="@
        + r.upsert_linear@
        + "s, indexed="@
        + r.upsert_indexed@
        + "s\n- **Index build**: IVF_PQ (partitions="@
        + text::dec(r.num_partitions as nat)
        + ", sub_vectors="@
        + text::dec(r.num_sub_vectors as nat)
        + ") in **"@
        + r.index_secs@
}

fn write_cold_warm_head(r: &ColdWarmReport) -> (out: String)
    ensures
        out@ == cold_warm_head_text(*r),
{
    let mut out = "# Cold vs warm query latency — realistic parameters\n\n- **Date**: ".to_string();
    out.append(r.date.as_str());
    out.append("\n- **Harness**: `./scripts/cargo run --release -p firnflow-bench`\n- **Backend**: MinIO (see `docs/provider-support.md` for the pinned digest)\n- **Config**: dim=");
    out.append(text::dec_text(r.dim as u64).as_str());
    out.append(", rows=");
    out.append(text::dec_text(r.rows as u64).as_str());
    out.append(", queries=");
    out.append(text::dec_text(r.queries as u64).as_str());
    out.append(", nprobes=");
    out.append(text::dec_text(r.nprobes as u64).as_str());
    out.append("\n- **Storage**: ~");
    out.append(r.storage_mb.as_str());
    out.append(" MB raw vector data\n- **Cache**: RAM=");
    out.append(text::dec_text(r.cache_ram_mb as u64).as_str());
    out.append("MB, NVMe=");
    out.append(text::dec_text(r.cache_nvme_mb as u64).as_str());
    out.append("MB\n- **Upsert**: linear=");
    out.append(r.upsert_linear.as_str());
    out.append("s, indexed=");
    out.append(r.upsert_indexed.as_str());
    out.append("s\n- **Index build**: IVF_PQ (partitions=");
    out.append(text::dec_text(r.num_partitions as u64).as_str());
    out.append(", sub_vectors=");
    out.append(text::dec_text(r.num_sub_vectors as u64).as_str());
    out.append(") in **");
    out.append(r.index_secs.as_str());
    out
}

/// Its latencies.
pub open spec fn cold_warm_latencies_text(r: ColdWarmReport) -> Seq<char> {
    "s**\n\n## Four-phase latency comparison\n\n| phase       | path |    p50     |    p95     |    p99     |    max     |\n| ----------- | ---- | ----------:| ----------:| ----------:| ----------:|\n| linear scan | cold | "@
        + r.linear_cold.p50@
        + " | "@
        + r.linear_cold.p95@
        + " | "@
        + r.linear_cold.p99@
        + " | "@
        + r.linear_cold.max@
        + " |\n| linear scan | warm | "@
        + r.linear_warm.p50@
        + " | "@
        + r.linear_warm.p95@
        + " | "@
        + r.linear_warm.p99@
        + " | "@
        + r.linear_warm.max@
        + " |\n| IVF_PQ      | cold | "@
        + r.indexed_cold.p50@
        + " | "@
        + r.indexed_cold.p95@
        + " | "@
        + r.indexed_cold.p99@
        + " | "@
        + r.indexed_cold.max@
        + " |\n| IVF_PQ      | warm | "@
        + r.indexed_warm.p50@
        + " | "@
        + r.indexed_warm.p95@
        + " | "@
        + r.indexed_warm.p99@
        + " | "@
        + r.indexed_warm.max@
}

fn write_cold_warm_latencies(r: &ColdWarmReport) -> (out: String)
    ensures
        out@ == cold_warm_latencies_text(*r),
{
    let mut out = "s**\n\n## Four-phase latency comparison\n\n| phase       | path |    p50     |    p95     |    p99     |    max     |\n| ----------- | ---- | ----------:| ----------:| ----------:| ----------:|\n| linear scan | cold | ".to_string();
    out.append(r.linear_cold.p50.as_str());
    out.append(" | ");
    out.append(r.linear_cold.p95.as_str());
    out.append(" | ");
    out.append(r.linear_cold.p99.as_str());
    out.append(" | ");
    out.append(r.linear_cold.max.as_str());
    out.append(" |\n| linear scan | warm | ");
    out.append(r.linear_warm.p50.as_str());
    out.append(" | ");
    out.append(r.linear_warm.p95.as_str());
    out.append(" | ");
    out.append(r.linear_warm.p99.as_str());
    out.append(" | ");
    out.append(r.linear_warm.max.as_str());
    out.append(" |\n| IVF_PQ      | cold | ");
    out.append(r.indexed_cold.p50.as_str());
    out.append(" | ");
    out.append(r.indexed_cold.p95.as_str());
    out.append(" | ");
    out.append(r.indexed_cold.p99.as_str());
    out.append(" | ");
    out.append(r.indexed_cold.max.as_str());
    out.append(" |\n| IVF_PQ      | warm | ");
    out.append(r.indexed_warm.p50.as_str());
    out.append(" | ");
    out.append(r.indexed_warm.p95.as_str());
    out.append(" | ");
    out.append(r.indexed_warm.p99.as_str());
    out.append(" | ");
    out.append(r.indexed_warm.max.as_str());
    out
}

/// Its ratios.
pub open spec fn cold_warm_ratios_text(r: ColdWarmReport) -> Seq<char> {
    " |\n\n## Speedup ratios\n\n| comparison | p50 | p99 |\n| ---------- | ---:| ---:|\n| linear cold → warm | "@
        + r.linear_gain.p50@
        + "x | "@
        + r.linear_gain.p99@
        + "x |\n| indexed cold → warm | "@
        + r.indexed_gain.p50@
        + "x | "@
        + r.indexed_gain.p99@
        + "x |\n| linear cold → indexed cold | "@
        + r.index_gain.p50@
        + "x | "@
        + r.index_gain.p99@
}

fn write_cold_warm_ratios(r: &ColdWarmReport) -> (out: String)
    ensures
        out@ == cold_warm_ratios_text(*r),
{
    let mut out = " |\n\n## Speedup ratios\n\n| comparison | p50 | p99 |\n| ---------- | ---:| ---:|\n| linear cold → warm | ".to_string();
    out.append(r.linear_gain.p50.as_str());
    out.append("x | ");
    out.append(r.linear_gain.p99.as_str());
    out.append("x |\n| indexed cold → warm | ");
    out.append(r.indexed_gain.p50.as_str());
    out.append("x | ");
    out.append(r.indexed_gain.p99.as_str());
    out.append("x |\n| linear cold → indexed cold | ");
    out.append(r.index_gain.p50.as_str());
    out.append("x | ");
    out.append(r.index_gain.p99.as_str());
    out
}

/// Its cache counts, and what it says at its end.
pub open spec fn cold_warm_requests_text(r: ColdWarmReport) -> Seq<char> {
    "x |\n\n## Cache + S3 request asymmetry\n\n| namespace | cache misses | cache hits | observation |\n| --------- | -----------: | ---------: | ----------- |\n| linear    | "@
        + text::dec(r.linear_misses as nat)
        + " | "@
        + text::dec(r.linear_hits as nat)
        + " | "@
        + text::dec(r.queries as nat)
        + " cold queries → "@
        + text::dec(r.linear_misses as nat)
        + " S3 trips; "@
        + text::dec(r.queries as nat)
        + " warm → 0 |\n| indexed   | "@
        + text::dec(r.indexed_misses as nat)
        + " | "@
        + text::dec(r.indexed_hits as nat)
        + " | same pattern, but cold queries are dramatically faster |\n\n## The thesis\n\n1. **The cache without the index is a liability.** It hides the underlying linear-scan cost, which surfaces on every cache miss.\n2. **The index without the cache leaves money on the table.** Repeat queries still pay the (now-fast) S3 round-trip.\n3. **Together, the ANN index and the tiered cache make each other more valuable.** Removing either is strictly worse.\n\n## Notes\n\n- Each run starts cold: fresh `tempfile::tempdir` for the foyer NVMe tier, fresh namespace timestamps.\n- `s3_requests_total` counts firnflow-initiated operations at the service boundary, not raw HTTP requests to S3.\n- Index build time is the \"Index Tax\" — paid once, amortised across all subsequent queries.\n"@
}

fn write_cold_warm_requests(r: &ColdWarmReport) -> (out: String)
    ensures
        out@ == cold_warm_requests_text(*r),
{
    let mut out = "x |\n\n## Cache + S3 request asymmetry\n\n| namespace | cache misses | cache hits | observation |\n| --------- | -----------: | ---------: | ----------- |\n| linear    | ".to_string();
    out.append(text::dec_text(r.linear_misses as u64).as_str());
    out.append(" | ");
    out.append(text::dec_text(r.linear_hits as u64).as_str());
    out.append(" | ");
    out.append(text::dec_text(r.queries as u64).as_str());
    out.append(" cold queries → ");
    out.append(text::dec_text(r.linear_misses as u64).as_str());
    out.append(" S3 trips; ");
    out.append(text::dec_text(r.queries as u64).as_str());
    out.append(" warm → 0 |\n| indexed   | ");
    out.append(text::dec_text(r.indexed_misses as u64).as_str());
    out.append(" | ");
    out.append(text::dec_text(r.indexed_hits as u64).as_str());
    out.append(" | same pattern, but cold queries are dramatically faster |\n\n## The thesis\n\n1. **The cache without the index is a liability.** It hides the underlying linear-scan cost, which surfaces on every cache miss.\n2. **The index without the cache leaves money on the table.** Repeat queries still pay the (now-fast) S3 round-trip.\n3. **Together, the ANN index and the tiered cache make each other more valuable.** Removing either is strictly worse.\n\n## Notes\n\n- Each run starts cold: fresh `tempfile::tempdir` for the foyer NVMe tier, fresh namespace timestamps.\n- `s3_requests_total` counts firnflow-initiated operations at the service boundary, not raw HTTP requests to S3.\n- Index build time is the \"Index Tax\" — paid once, amortised across all subsequent queries.\n");
    out
}

/// The whole report on cold and warm queries.
pub open spec fn cold_warm_text(r: ColdWarmReport) -> Seq<char> {
    cold_warm_head_text(r) + cold_warm_latencies_text(r) + cold_warm_ratios_text(r)
        + cold_warm_requests_text(r)
}

/// The whole report on cold and warm queries.
pub fn render_cold_warm(r: &ColdWarmReport) -> (out: String)
    ensures
        out@ == cold_warm_text(*r),
{
    let mut out = write_cold_warm_head(r);
    out.append(write_cold_warm_latencies(r).as_str());
    out.append(write_cold_warm_ratios(r).as_str());
    out.append(write_cold_warm_requests(r).as_str());
    out
}

/// What the report on the index cache is made of.
#[derive(Debug)]
pub struct IndexReport {
    pub mode: Mode,
    pub date: String,
    pub ns: String,
    pub dim: usize,
    pub rows: usize,
    pub storage_mb: String,
    pub queries: usize,
    pub warmup: usize,
    pub k: usize,
    pub nprobes: usize,
    /// How many seconds the seeding took; none where rows were there already.
    pub seed_secs: Option<String>,
    pub index_cache_ram_mb: usize,
    pub index_cache_nvme_mb: usize,
    pub result_cache_ram_mb: usize,
    pub result_cache_nvme_mb: usize,
    pub latency: Latencies,
    pub traffic: CacheBackendCountersSnapshot,
    /// Requests counted before and after the measured queries.
    pub s3_before: u64,
    pub s3_after: u64,
}

/// What the report says of the seeding.
pub open spec fn seed_text(secs: Option<String>) -> Seq<char> {
    match secs {
        Some(secs) => secs@ + "s"@,
        None => "skipped (namespace reused)"@,
    }
}

fn write_seed(secs: &Option<String>) -> (out: String)
    ensures
        out@ == seed_text(*secs),
{
    match secs {
        Some(secs) => text::cat2(secs.as_str(), "s"),
        None => "skipped (namespace reused)".to_string(),
    }
}

/// What the report says of the traffic of the index cache, where there is one.
pub open spec fn traffic_of(mode: Mode, delta: CacheBackendCountersSnapshot) -> Seq<char> {
    if mode == Mode::WarmIndexCache {
        report::traffic_text(delta)
    } else {
        Seq::empty()
    }
}

fn write_traffic(mode: Mode, delta: &CacheBackendCountersSnapshot) -> (out: String)
    ensures
        out@ == traffic_of(mode, *delta),
{
    if mode == Mode::WarmIndexCache {
        report::traffic_section(delta)
    } else {
        String::new()
    }
}

/// What the index-cache report says above its latencies.
pub open spec fn index_head_text(r: IndexReport) -> Seq<char> {
    "# Index cache bench: "@
        + bench::mode_name(r.mode)
        + "\n\n- **Date**: "@
        + r.date@
        + "\n- **Mode**: `"@
        + bench::mode_name(r.mode)
        + "`\n- **Backend**: see `FIRNFLOW_STORAGE_URI` / `FIRNFLOW_S3_ENDPOINT`\n- **Namespace**: `"@
        + r.ns@
        + "` (re-used across modes; seed is amortised)\n- **Workload**: dim="@
        + text::dec(r.dim as nat)
        + ", rows="@
        + text::dec(r.rows as nat)
        + " (~"@
        + r.storage_mb@
        + " MB raw), queries="@
        + text::dec(r.queries as nat)
        + " (+"@
        + text::dec(r.warmup as nat)
        + " warmup), k="@
        + text::dec(r.k as nat)
        + ", nprobes="@
        + text::dec(r.nprobes as nat)
        + "\n- **Seed**: "@
        + seed_text(r.seed_secs)
        + "\n- **Index cache (mode=warm-index-cache only)**: RAM="@
        + text::dec(r.index_cache_ram_mb as nat)
        + "MB, NVMe="@
        + text::dec(r.index_cache_nvme_mb as nat)
        + "MB\n- **Result cache**: RAM="@
        + text::dec(r.result_cache_ram_mb as nat)
        + "MB, NVMe="@
        + text::dec(r.result_cache_nvme_mb as nat)
}

fn write_index_head(r: &IndexReport) -> (out: String)
    ensures
        out@ == index_head_text(*r),
{
    let mut out = "# Index cache bench: ".to_string();
    out.append(r.mode.slug());
    out.append("\n\n- **Date**: ");
    out.append(r.date.as_str());
    out.append("\n- **Mode**: `");
    out.append(r.mode.slug());
    out.append("`\n- **Backend**: see `FIRNFLOW_STORAGE_URI` / `FIRNFLOW_S3_ENDPOINT`\n- **Namespace**: `");
    out.append(r.ns.as_str());
    out.append("` (re-used across modes; seed is amortised)\n- **Workload**: dim=");
    out.append(text::dec_text(r.dim as u64).as_str());
    out.append(", rows=");
    out.append(text::dec_text(r.rows as u64).as_str());
    out.append(" (~");
    out.append(r.storage_mb.as_str());
    out.append(" MB raw), queries=");
    out.append(text::dec_text(r.queries as u64).as_str());
    out.append(" (+");
    out.append(text::dec_text(r.warmup as u64).as_str());
    out.append(" warmup), k=");
    out.append(text::dec_text(r.k as u64).as_str());
    out.append(", nprobes=");
    out.append(text::dec_text(r.nprobes as u64).as_str());
    out.append("\n- **Seed**: ");
    out.append(write_seed(&r.seed_secs).as_str());
    out.append("\n- **Index cache (mode=warm-index-cache only)**: RAM=");
    out.append(text::dec_text(r.index_cache_ram_mb as u64).as_str());
    out.append("MB, NVMe=");
    out.append(text::dec_text(r.index_cache_nvme_mb as u64).as_str());
    out.append("MB\n- **Result cache**: RAM=");
    out.append(text::dec_text(r.result_cache_ram_mb as u64).as_str());
    out.append("MB, NVMe=");
    out.append(text::dec_text(r.result_cache_nvme_mb as u64).as_str());
    out
}

/// Its latencies, and the traffic of the index cache.
pub open spec fn index_latencies_text(r: IndexReport) -> Seq<char> {
    "MB\n\n## Latency (1000-query window)\n\n| p50 | p95 | p99 | max |\n| ---: | ---: | ---: | ---: |\n| "@
        + r.latency.p50@
        + " | "@
        + r.latency.p95@
        + " | "@
        + r.latency.p99@
        + " | "@
        + r.latency.max@
        + " |\n\n"@
        + traffic_of(r.mode, r.traffic)
}

fn write_index_latencies(r: &IndexReport) -> (out: String)
    ensures
        out@ == index_latencies_text(*r),
{
    let mut out = "MB\n\n## Latency (1000-query window)\n\n| p50 | p95 | p99 | max |\n| ---: | ---: | ---: | ---: |\n| ".to_string();
    out.append(r.latency.p50.as_str());
    out.append(" | ");
    out.append(r.latency.p95.as_str());
    out.append(" | ");
    out.append(r.latency.p99.as_str());
    out.append(" | ");
    out.append(r.latency.max.as_str());
    out.append(" |\n\n");
    out.append(write_traffic(r.mode, &r.traffic).as_str());
    out
}

/// Its request count, and what it says at its end.
pub open spec fn index_requests_text(r: IndexReport) -> Seq<char> {
    "## Firn-level S3 requests (delta)\n\n| counter | delta |\n| --- | ---: |\n| `firnflow_s3_requests_total` for this namespace | "@
        + text::dec(bench::gained(r.s3_after, r.s3_before) as nat)
        + " |\n\nCaveat: this counter is recorded at Firn's service boundary, not at Lance's internal object-store reads. It tracks how many queries were issued, not how many S3 GETs they triggered. A foyer-warmed index cache reduces Lance's internal reads without changing this number. The right S3-reduction signal for the warm-index-cache run is the cache-backend `insert` delta above (a low `insert` count on a 1000-query warm window implies Lance found most of what it needed without re-fetching it from S3).\n\n## Notes\n\n- The same "@
        + text::dec(r.queries as nat)
        + " measure-window query vectors are used across modes (stable seed). Each is freshly generated and disjoint from the seeded corpus, so every query is novel and the service-level result cache never hits.\n- The warmup pass ("@
        + text::dec(r.warmup as nat)
        + " queries on the warm-index-cache mode, zero on the other modes) runs against the manager directly to populate the foyer index cache before the measure window. Other modes deliberately skip the warmup so the baseline does not warm Lance's default in-memory session cache, which would contaminate the comparison.\n- Cache-backend invocation counters are aggregate across Lance type names and key prefixes. A per-(type_name, prefix) breakdown is a follow-up; the aggregate is sufficient to read the warm-vs-cold signal.\n"@
}

fn write_index_requests(r: &IndexReport) -> (out: String)
    ensures
        out@ == index_requests_text(*r),
{
    let mut out = "## Firn-level S3 requests (delta)\n\n| counter | delta |\n| --- | ---: |\n| `firnflow_s3_requests_total` for this namespace | ".to_string();
    out.append(text::dec_text(r.s3_after.saturating_sub(r.s3_before)).as_str());
    out.append(" |\n\nCaveat: this counter is recorded at Firn's service boundary, not at Lance's internal object-store reads. It tracks how many queries were issued, not how many S3 GETs they triggered. A foyer-warmed index cache reduces Lance's internal reads without changing this number. The right S3-reduction signal for the warm-index-cache run is the cache-backend `insert` delta above (a low `insert` count on a 1000-query warm window implies Lance found most of what it needed without re-fetching it from S3).\n\n## Notes\n\n- The same ");
    out.append(text::dec_text(r.queries as u64).as_str());
    out.append(" measure-window query vectors are used across modes (stable seed). Each is freshly generated and disjoint from the seeded corpus, so every query is novel and the service-level result cache never hits.\n- The warmup pass (");
    out.append(text::dec_text(r.warmup as u64).as_str());
    out.append(" queries on the warm-index-cache mode, zero on the other modes) runs against the manager directly to populate the foyer index cache before the measure window. Other modes deliberately skip the warmup so the baseline does not warm Lance's default in-memory session cache, which would contaminate the comparison.\n- Cache-backend invocation counters are aggregate across Lance type names and key prefixes. A per-(type_name, prefix) breakdown is a follow-up; the aggregate is sufficient to read the warm-vs-cold signal.\n");
    out
}

/// The whole report on the index cache.
pub open spec fn index_report_text(r: IndexReport) -> Seq<char> {
    index_head_text(r) + index_latencies_text(r) + index_requests_text(r)
}

/// The whole report on the index cache.
pub fn render_index_report(r: &IndexReport) -> (out: String)
    ensures
        out@ == index_report_text(*r),
{
    let mut out = write_index_head(r);
    out.append(write_index_latencies(r).as_str());
    out.append(write_index_requests(r).as_str());
    out
}
// ------------------------------------------------------------------ laws
/// The words of the head of the cold and warm report.
pub open spec fn cold_warm_head_words() -> Seq<Seq<char>> {
    seq![
        "# Cold vs warm query latency — realistic parameters\n\n- **Date**: "@,
        "\n- **Harness**: `./scripts/cargo run --release -p firnflow-bench`\n- **Backend**: MinIO (see `docs/provider-support.md` for the pinned digest)\n- **Config**: dim="@,
        ", rows="@,
        ", queries="@,
        ", nprobes="@,
        "\n- **Storage**: ~"@,
        " MB raw vector data\n- **Cache**: RAM="@,
        "MB, NVMe="@,
        "MB\n- **Upsert**: linear="@,
        "s, indexed="@,
        "s\n- **Index build**: IVF_PQ (partitions="@,
        ", sub_vectors="@,
        ") in **"@,
    ]
}

/// The head of the cold and warm report has the facts of the run between its words,
/// in this order.
#[verifier::spinoff_prover]
pub proof fn law_cold_warm_facts_stand_in_their_places(r: ColdWarmReport)
    ensures
        cold_warm_head_text(r) == text::woven(
            cold_warm_head_words(),
            seq![
                r.date@,
                text::dec(r.dim as nat),
                text::dec(r.rows as nat),
                text::dec(r.queries as nat),
                text::dec(r.nprobes as nat),
                r.storage_mb@,
                text::dec(r.cache_ram_mb as nat),
                text::dec(r.cache_nvme_mb as nat),
                r.upsert_linear@,
                r.upsert_indexed@,
                text::dec(r.num_partitions as nat),
                text::dec(r.num_sub_vectors as nat),
                r.index_secs@,
            ],
        ),
{
    let w = cold_warm_head_words();
    let w0 = Seq::<Seq<char>>::empty();
    let x0 = Seq::<Seq<char>>::empty();
    let w1 = w0.push(w[0]);
    let x1 = x0.push(r.date@);
    text::lemma_woven(w0, x0, w[0], r.date@);
    let w2 = w1.push(w[1]);
    let x2 = x1.push(text::dec(r.dim as nat));
    text::lemma_woven(w1, x1, w[1], text::dec(r.dim as nat));
    let w3 = w2.push(w[2]);
    let x3 = x2.push(text::dec(r.rows as nat));
    text::lemma_woven(w2, x2, w[2], text::dec(r.rows as nat));
    let w4 = w3.push(w[3]);
    let x4 = x3.push(text::dec(r.queries as nat));
    text::lemma_woven(w3, x3, w[3], text::dec(r.queries as nat));
    let w5 = w4.push(w[4]);
    let x5 = x4.push(text::dec(r.nprobes as nat));
    text::lemma_woven(w4, x4, w[4], text::dec(r.nprobes as nat));
    let w6 = w5.push(w[5]);
    let x6 = x5.push(r.storage_mb@);
    text::lemma_woven(w5, x5, w[5], r.storage_mb@);
    let w7 = w6.push(w[6]);
    let x7 = x6.push(text::dec(r.cache_ram_mb as nat));
    text::lemma_woven(w6, x6, w[6], text::dec(r.cache_ram_mb as nat));
    let w8 = w7.push(w[7]);
    let x8 = x7.push(text::dec(r.cache_nvme_mb as nat));
    text::lemma_woven(w7, x7, w[7], text::dec(r.cache_nvme_mb as nat));
    let w9 = w8.push(w[8]);
    let x9 = x8.push(r.upsert_linear@);
    text::lemma_woven(w8, x8, w[8], r.upsert_linear@);
    let w10 = w9.push(w[9]);
    let x10 = x9.push(r.upsert_indexed@);
    text::lemma_woven(w9, x9, w[9], r.upsert_indexed@);
    let w11 = w10.push(w[10]);
    let x11 = x10.push(text::dec(r.num_partitions as nat));
    text::lemma_woven(w10, x10, w[10], text::dec(r.num_partitions as nat));
    let w12 = w11.push(w[11]);
    let x12 = x11.push(text::dec(r.num_sub_vectors as nat));
    text::lemma_woven(w11, x11, w[11], text::dec(r.num_sub_vectors as nat));
    let w13 = w12.push(w[12]);
    let x13 = x12.push(r.index_secs@);
    text::lemma_woven(w12, x12, w[12], r.index_secs@);
    assert(w13 =~= w);
    assert(x13 =~= seq![
        r.date@,
        text::dec(r.dim as nat),
        text::dec(r.rows as nat),
        text::dec(r.queries as nat),
        text::dec(r.nprobes as nat),
        r.storage_mb@,
        text::dec(r.cache_ram_mb as nat),
        text::dec(r.cache_nvme_mb as nat),
        r.upsert_linear@,
        r.upsert_indexed@,
        text::dec(r.num_partitions as nat),
        text::dec(r.num_sub_vectors as nat),
        r.index_secs@,
    ]);
}

/// The words round its latencies.
pub open spec fn cold_warm_latencies_words() -> Seq<Seq<char>> {
    seq![
        "s**\n\n## Four-phase latency comparison\n\n| phase       | path |    p50     |    p95     |    p99     |    max     |\n| ----------- | ---- | ----------:| ----------:| ----------:| ----------:|\n| linear scan | cold | "@,
        " | "@,
        " | "@,
        " | "@,
        " |\n| linear scan | warm | "@,
        " | "@,
        " | "@,
        " | "@,
        " |\n| IVF_PQ      | cold | "@,
        " | "@,
        " | "@,
        " | "@,
        " |\n| IVF_PQ      | warm | "@,
        " | "@,
        " | "@,
        " | "@,
    ]
}

/// Its latencies stand between its words: linear scan before index, cold before
/// warm, and of each the percentiles as they rise.
#[verifier::spinoff_prover]
pub proof fn law_cold_warm_latencies_stand_in_their_places(r: ColdWarmReport)
    ensures
        cold_warm_latencies_text(r) == text::woven(
            cold_warm_latencies_words(),
            seq![
                r.linear_cold.p50@,
                r.linear_cold.p95@,
                r.linear_cold.p99@,
                r.linear_cold.max@,
                r.linear_warm.p50@,
                r.linear_warm.p95@,
                r.linear_warm.p99@,
                r.linear_warm.max@,
                r.indexed_cold.p50@,
                r.indexed_cold.p95@,
                r.indexed_cold.p99@,
                r.indexed_cold.max@,
                r.indexed_warm.p50@,
                r.indexed_warm.p95@,
                r.indexed_warm.p99@,
                r.indexed_warm.max@,
            ],
        ),
{
    let w = cold_warm_latencies_words();
    let w0 = Seq::<Seq<char>>::empty();
    let x0 = Seq::<Seq<char>>::empty();
    let w1 = w0.push(w[0]);
    let x1 = x0.push(r.linear_cold.p50@);
    text::lemma_woven(w0, x0, w[0], r.linear_cold.p50@);
    let w2 = w1.push(w[1]);
    let x2 = x1.push(r.linear_cold.p95@);
    text::lemma_woven(w1, x1, w[1], r.linear_cold.p95@);
    let w3 = w2.push(w[2]);
    let x3 = x2.push(r.linear_cold.p99@);
    text::lemma_woven(w2, x2, w[2], r.linear_cold.p99@);
    let w4 = w3.push(w[3]);
    let x4 = x3.push(r.linear_cold.max@);
    text::lemma_woven(w3, x3, w[3], r.linear_cold.max@);
    let w5 = w4.push(w[4]);
    let x5 = x4.push(r.linear_warm.p50@);
    text::lemma_woven(w4, x4, w[4], r.linear_warm.p50@);
    let w6 = w5.push(w[5]);
    let x6 = x5.push(r.linear_warm.p95@);
    text::lemma_woven(w5, x5, w[5], r.linear_warm.p95@);
    let w7 = w6.push(w[6]);
    let x7 = x6.push(r.linear_warm.p99@);
    text::lemma_woven(w6, x6, w[6], r.linear_warm.p99@);
    let w8 = w7.push(w[7]);
    let x8 = x7.push(r.linear_warm.max@);
    text::lemma_woven(w7, x7, w[7], r.linear_warm.max@);
    let w9 = w8.push(w[8]);
    let x9 = x8.push(r.indexed_cold.p50@);
    text::lemma_woven(w8, x8, w[8], r.indexed_cold.p50@);
    let w10 = w9.push(w[9]);
    let x10 = x9.push(r.indexed_cold.p95@);
    text::lemma_woven(w9, x9, w[9], r.indexed_cold.p95@);
    let w11 = w10.push(w[10]);
    let x11 = x10.push(r.indexed_cold.p99@);
    text::lemma_woven(w10, x10, w[10], r.indexed_cold.p99@);
    let w12 = w11.push(w[11]);
    let x12 = x11.push(r.indexed_cold.max@);
    text::lemma_woven(w11, x11, w[11], r.indexed_cold.max@);
    let w13 = w12.push(w[12]);
    let x13 = x12.push(r.indexed_warm.p50@);
    text::lemma_woven(w12, x12, w[12], r.indexed_warm.p50@);
    let w14 = w13.push(w[13]);
    let x14 = x13.push(r.indexed_warm.p95@);
    text::lemma_woven(w13, x13, w[13], r.indexed_warm.p95@);
    let w15 = w14.push(w[14]);
    let x15 = x14.push(r.indexed_warm.p99@);
    text::lemma_woven(w14, x14, w[14], r.indexed_warm.p99@);
    let w16 = w15.push(w[15]);
    let x16 = x15.push(r.indexed_warm.max@);
    text::lemma_woven(w15, x15, w[15], r.indexed_warm.max@);
    assert(w16 =~= w);
    assert(x16 =~= seq![
        r.linear_cold.p50@,
        r.linear_cold.p95@,
        r.linear_cold.p99@,
        r.linear_cold.max@,
        r.linear_warm.p50@,
        r.linear_warm.p95@,
        r.linear_warm.p99@,
        r.linear_warm.max@,
        r.indexed_cold.p50@,
        r.indexed_cold.p95@,
        r.indexed_cold.p99@,
        r.indexed_cold.max@,
        r.indexed_warm.p50@,
        r.indexed_warm.p95@,
        r.indexed_warm.p99@,
        r.indexed_warm.max@,
    ]);
}

/// The words round its ratios.
pub open spec fn cold_warm_ratios_words() -> Seq<Seq<char>> {
    seq![
        " |\n\n## Speedup ratios\n\n| comparison | p50 | p99 |\n| ---------- | ---:| ---:|\n| linear cold → warm | "@,
        "x | "@,
        "x |\n| indexed cold → warm | "@,
        "x | "@,
        "x |\n| linear cold → indexed cold | "@,
        "x | "@,
    ]
}

/// Its ratios stand between its words, in this order.
#[verifier::spinoff_prover]
pub proof fn law_cold_warm_ratios_stand_in_their_places(r: ColdWarmReport)
    ensures
        cold_warm_ratios_text(r) == text::woven(
            cold_warm_ratios_words(),
            seq![
                r.linear_gain.p50@,
                r.linear_gain.p99@,
                r.indexed_gain.p50@,
                r.indexed_gain.p99@,
                r.index_gain.p50@,
                r.index_gain.p99@,
            ],
        ),
{
    let w = cold_warm_ratios_words();
    let w0 = Seq::<Seq<char>>::empty();
    let x0 = Seq::<Seq<char>>::empty();
    let w1 = w0.push(w[0]);
    let x1 = x0.push(r.linear_gain.p50@);
    text::lemma_woven(w0, x0, w[0], r.linear_gain.p50@);
    let w2 = w1.push(w[1]);
    let x2 = x1.push(r.linear_gain.p99@);
    text::lemma_woven(w1, x1, w[1], r.linear_gain.p99@);
    let w3 = w2.push(w[2]);
    let x3 = x2.push(r.indexed_gain.p50@);
    text::lemma_woven(w2, x2, w[2], r.indexed_gain.p50@);
    let w4 = w3.push(w[3]);
    let x4 = x3.push(r.indexed_gain.p99@);
    text::lemma_woven(w3, x3, w[3], r.indexed_gain.p99@);
    let w5 = w4.push(w[4]);
    let x5 = x4.push(r.index_gain.p50@);
    text::lemma_woven(w4, x4, w[4], r.index_gain.p50@);
    let w6 = w5.push(w[5]);
    let x6 = x5.push(r.index_gain.p99@);
    text::lemma_woven(w5, x5, w[5], r.index_gain.p99@);
    assert(w6 =~= w);
    assert(x6 =~= seq![
        r.linear_gain.p50@,
        r.linear_gain.p99@,
        r.indexed_gain.p50@,
        r.indexed_gain.p99@,
        r.index_gain.p50@,
        r.index_gain.p99@,
    ]);
}

/// The words round its cache counts.
pub open spec fn cold_warm_requests_words() -> Seq<Seq<char>> {
    seq![
        "x |\n\n## Cache + S3 request asymmetry\n\n| namespace | cache misses | cache hits | observation |\n| --------- | -----------: | ---------: | ----------- |\n| linear    | "@,
        " | "@,
        " | "@,
        " cold queries → "@,
        " S3 trips; "@,
        " warm → 0 |\n| indexed   | "@,
        " | "@,
        " | same pattern, but cold queries are dramatically faster |\n\n## The thesis\n\n1. **The cache without the index is a liability.** It hides the underlying linear-scan cost, which surfaces on every cache miss.\n2. **The index without the cache leaves money on the table.** Repeat queries still pay the (now-fast) S3 round-trip.\n3. **Together, the ANN index and the tiered cache make each other more valuable.** Removing either is strictly worse.\n\n## Notes\n\n- Each run starts cold: fresh `tempfile::tempdir` for the foyer NVMe tier, fresh namespace timestamps.\n- `s3_requests_total` counts firnflow-initiated operations at the service boundary, not raw HTTP requests to S3.\n- Index build time is the \"Index Tax\" — paid once, amortised across all subsequent queries.\n"@,
    ]
}

/// Its cache counts stand between its words, in this order.
#[verifier::spinoff_prover]
pub proof fn law_cold_warm_counts_stand_in_their_places(r: ColdWarmReport)
    ensures
        cold_warm_requests_text(r) == text::woven(
            cold_warm_requests_words(),
            seq![
                text::dec(r.linear_misses as nat),
                text::dec(r.linear_hits as nat),
                text::dec(r.queries as nat),
                text::dec(r.linear_misses as nat),
                text::dec(r.queries as nat),
                text::dec(r.indexed_misses as nat),
                text::dec(r.indexed_hits as nat),
            ],
        ),
{
    let w = cold_warm_requests_words();
    let w0 = Seq::<Seq<char>>::empty();
    let x0 = Seq::<Seq<char>>::empty();
    let w1 = w0.push(w[0]);
    let x1 = x0.push(text::dec(r.linear_misses as nat));
    text::lemma_woven(w0, x0, w[0], text::dec(r.linear_misses as nat));
    let w2 = w1.push(w[1]);
    let x2 = x1.push(text::dec(r.linear_hits as nat));
    text::lemma_woven(w1, x1, w[1], text::dec(r.linear_hits as nat));
    let w3 = w2.push(w[2]);
    let x3 = x2.push(text::dec(r.queries as nat));
    text::lemma_woven(w2, x2, w[2], text::dec(r.queries as nat));
    let w4 = w3.push(w[3]);
    let x4 = x3.push(text::dec(r.linear_misses as nat));
    text::lemma_woven(w3, x3, w[3], text::dec(r.linear_misses as nat));
    let w5 = w4.push(w[4]);
    let x5 = x4.push(text::dec(r.queries as nat));
    text::lemma_woven(w4, x4, w[4], text::dec(r.queries as nat));
    let w6 = w5.push(w[5]);
    let x6 = x5.push(text::dec(r.indexed_misses as nat));
    text::lemma_woven(w5, x5, w[5], text::dec(r.indexed_misses as nat));
    let w7 = w6.push(w[6]);
    let x7 = x6.push(text::dec(r.indexed_hits as nat));
    text::lemma_woven(w6, x6, w[6], text::dec(r.indexed_hits as nat));
    let w8 = w7.push(w[7]);
    text::lemma_woven_end(w7, x7, w[7]);
    assert(w8 =~= w);
    assert(x7 =~= seq![
        text::dec(r.linear_misses as nat),
        text::dec(r.linear_hits as nat),
        text::dec(r.queries as nat),
        text::dec(r.linear_misses as nat),
        text::dec(r.queries as nat),
        text::dec(r.indexed_misses as nat),
        text::dec(r.indexed_hits as nat),
    ]);
}

/// The words of the head of the index-cache report.
pub open spec fn index_head_words() -> Seq<Seq<char>> {
    seq![
        "# Index cache bench: "@,
        "\n\n- **Date**: "@,
        "\n- **Mode**: `"@,
        "`\n- **Backend**: see `FIRNFLOW_STORAGE_URI` / `FIRNFLOW_S3_ENDPOINT`\n- **Namespace**: `"@,
        "` (re-used across modes; seed is amortised)\n- **Workload**: dim="@,
        ", rows="@,
        " (~"@,
        " MB raw), queries="@,
        " (+"@,
        " warmup), k="@,
        ", nprobes="@,
        "\n- **Seed**: "@,
        "\n- **Index cache (mode=warm-index-cache only)**: RAM="@,
        "MB, NVMe="@,
        "MB\n- **Result cache**: RAM="@,
        "MB, NVMe="@,
    ]
}

/// The head of the index-cache report has the facts of the run between its words,
/// in this order.
#[verifier::spinoff_prover]
pub proof fn law_index_facts_stand_in_their_places(r: IndexReport)
    ensures
        index_head_text(r) == text::woven(
            index_head_words(),
            seq![
                bench::mode_name(r.mode),
                r.date@,
                bench::mode_name(r.mode),
                r.ns@,
                text::dec(r.dim as nat),
                text::dec(r.rows as nat),
                r.storage_mb@,
                text::dec(r.queries as nat),
                text::dec(r.warmup as nat),
                text::dec(r.k as nat),
                text::dec(r.nprobes as nat),
                seed_text(r.seed_secs),
                text::dec(r.index_cache_ram_mb as nat),
                text::dec(r.index_cache_nvme_mb as nat),
                text::dec(r.result_cache_ram_mb as nat),
                text::dec(r.result_cache_nvme_mb as nat),
            ],
        ),
{
    let w = index_head_words();
    let w0 = Seq::<Seq<char>>::empty();
    let x0 = Seq::<Seq<char>>::empty();
    let w1 = w0.push(w[0]);
    let x1 = x0.push(bench::mode_name(r.mode));
    text::lemma_woven(w0, x0, w[0], bench::mode_name(r.mode));
    let w2 = w1.push(w[1]);
    let x2 = x1.push(r.date@);
    text::lemma_woven(w1, x1, w[1], r.date@);
    let w3 = w2.push(w[2]);
    let x3 = x2.push(bench::mode_name(r.mode));
    text::lemma_woven(w2, x2, w[2], bench::mode_name(r.mode));
    let w4 = w3.push(w[3]);
    let x4 = x3.push(r.ns@);
    text::lemma_woven(w3, x3, w[3], r.ns@);
    let w5 = w4.push(w[4]);
    let x5 = x4.push(text::dec(r.dim as nat));
    text::lemma_woven(w4, x4, w[4], text::dec(r.dim as nat));
    let w6 = w5.push(w[5]);
    let x6 = x5.push(text::dec(r.rows as nat));
    text::lemma_woven(w5, x5, w[5], text::dec(r.rows as nat));
    let w7 = w6.push(w[6]);
    let x7 = x6.push(r.storage_mb@);
    text::lemma_woven(w6, x6, w[6], r.storage_mb@);
    let w8 = w7.push(w[7]);
    let x8 = x7.push(text::dec(r.queries as nat));
    text::lemma_woven(w7, x7, w[7], text::dec(r.queries as nat));
    let w9 = w8.push(w[8]);
    let x9 = x8.push(text::dec(r.warmup as nat));
    text::lemma_woven(w8, x8, w[8], text::dec(r.warmup as nat));
    let w10 = w9.push(w[9]);
    let x10 = x9.push(text::dec(r.k as nat));
    text::lemma_woven(w9, x9, w[9], text::dec(r.k as nat));
    let w11 = w10.push(w[10]);
    let x11 = x10.push(text::dec(r.nprobes as nat));
    text::lemma_woven(w10, x10, w[10], text::dec(r.nprobes as nat));
    let w12 = w11.push(w[11]);
    let x12 = x11.push(seed_text(r.seed_secs));
    text::lemma_woven(w11, x11, w[11], seed_text(r.seed_secs));
    let w13 = w12.push(w[12]);
    let x13 = x12.push(text::dec(r.index_cache_ram_mb as nat));
    text::lemma_woven(w12, x12, w[12], text::dec(r.index_cache_ram_mb as nat));
    let w14 = w13.push(w[13]);
    let x14 = x13.push(text::dec(r.index_cache_nvme_mb as nat));
    text::lemma_woven(w13, x13, w[13], text::dec(r.index_cache_nvme_mb as nat));
    let w15 = w14.push(w[14]);
    let x15 = x14.push(text::dec(r.result_cache_ram_mb as nat));
    text::lemma_woven(w14, x14, w[14], text::dec(r.result_cache_ram_mb as nat));
    let w16 = w15.push(w[15]);
    let x16 = x15.push(text::dec(r.result_cache_nvme_mb as nat));
    text::lemma_woven(w15, x15, w[15], text::dec(r.result_cache_nvme_mb as nat));
    assert(w16 =~= w);
    assert(x16 =~= seq![
        bench::mode_name(r.mode),
        r.date@,
        bench::mode_name(r.mode),
        r.ns@,
        text::dec(r.dim as nat),
        text::dec(r.rows as nat),
        r.storage_mb@,
        text::dec(r.queries as nat),
        text::dec(r.warmup as nat),
        text::dec(r.k as nat),
        text::dec(r.nprobes as nat),
        seed_text(r.seed_secs),
        text::dec(r.index_cache_ram_mb as nat),
        text::dec(r.index_cache_nvme_mb as nat),
        text::dec(r.result_cache_ram_mb as nat),
        text::dec(r.result_cache_nvme_mb as nat),
    ]);
}

/// The words round its latencies.
pub open spec fn index_latencies_words() -> Seq<Seq<char>> {
    seq![
        "MB\n\n## Latency (1000-query window)\n\n| p50 | p95 | p99 | max |\n| ---: | ---: | ---: | ---: |\n| "@,
        " | "@,
        " | "@,
        " | "@,
        " |\n\n"@,
    ]
}

/// Its percentiles stand between its words as they rise; behind them comes what is
/// said of the traffic.
#[verifier::spinoff_prover]
pub proof fn law_index_latencies_stand_in_their_places(r: IndexReport)
    ensures
        index_latencies_text(r) == text::woven(
            index_latencies_words(),
            seq![
                r.latency.p50@,
                r.latency.p95@,
                r.latency.p99@,
                r.latency.max@,
                traffic_of(r.mode, r.traffic),
            ],
        ),
{
    let w = index_latencies_words();
    let w0 = Seq::<Seq<char>>::empty();
    let x0 = Seq::<Seq<char>>::empty();
    let w1 = w0.push(w[0]);
    let x1 = x0.push(r.latency.p50@);
    text::lemma_woven(w0, x0, w[0], r.latency.p50@);
    let w2 = w1.push(w[1]);
    let x2 = x1.push(r.latency.p95@);
    text::lemma_woven(w1, x1, w[1], r.latency.p95@);
    let w3 = w2.push(w[2]);
    let x3 = x2.push(r.latency.p99@);
    text::lemma_woven(w2, x2, w[2], r.latency.p99@);
    let w4 = w3.push(w[3]);
    let x4 = x3.push(r.latency.max@);
    text::lemma_woven(w3, x3, w[3], r.latency.max@);
    let w5 = w4.push(w[4]);
    let x5 = x4.push(traffic_of(r.mode, r.traffic));
    text::lemma_woven(w4, x4, w[4], traffic_of(r.mode, r.traffic));
    assert(w5 =~= w);
    assert(x5 =~= seq![
        r.latency.p50@,
        r.latency.p95@,
        r.latency.p99@,
        r.latency.max@,
        traffic_of(r.mode, r.traffic),
    ]);
}

/// The words round its request count.
pub open spec fn index_requests_words() -> Seq<Seq<char>> {
    seq![
        "## Firn-level S3 requests (delta)\n\n| counter | delta |\n| --- | ---: |\n| `firnflow_s3_requests_total` for this namespace | "@,
        " |\n\nCaveat: this counter is recorded at Firn's service boundary, not at Lance's internal object-store reads. It tracks how many queries were issued, not how many S3 GETs they triggered. A foyer-warmed index cache reduces Lance's internal reads without changing this number. The right S3-reduction signal for the warm-index-cache run is the cache-backend `insert` delta above (a low `insert` count on a 1000-query warm window implies Lance found most of what it needed without re-fetching it from S3).\n\n## Notes\n\n- The same "@,
        " measure-window query vectors are used across modes (stable seed). Each is freshly generated and disjoint from the seeded corpus, so every query is novel and the service-level result cache never hits.\n- The warmup pass ("@,
        " queries on the warm-index-cache mode, zero on the other modes) runs against the manager directly to populate the foyer index cache before the measure window. Other modes deliberately skip the warmup so the baseline does not warm Lance's default in-memory session cache, which would contaminate the comparison.\n- Cache-backend invocation counters are aggregate across Lance type names and key prefixes. A per-(type_name, prefix) breakdown is a follow-up; the aggregate is sufficient to read the warm-vs-cold signal.\n"@,
    ]
}

/// Its request count is what the counter gained; with it stand the numbers of
/// queries and of warmup queries.
#[verifier::spinoff_prover]
pub proof fn law_index_counts_stand_in_their_places(r: IndexReport)
    ensures
        index_requests_text(r) == text::woven(
            index_requests_words(),
            seq![
                text::dec(bench::gained(r.s3_after, r.s3_before) as nat),
                text::dec(r.queries as nat),
                text::dec(r.warmup as nat),
            ],
        ),
{
    let w = index_requests_words();
    let w0 = Seq::<Seq<char>>::empty();
    let x0 = Seq::<Seq<char>>::empty();
    let w1 = w0.push(w[0]);
    let x1 = x0.push(text::dec(bench::gained(r.s3_after, r.s3_before) as nat));
    text::lemma_woven(w0, x0, w[0], text::dec(bench::gained(r.s3_after, r.s3_before) as nat));
    let w2 = w1.push(w[1]);
    let x2 = x1.push(text::dec(r.queries as nat));
    text::lemma_woven(w1, x1, w[1], text::dec(r.queries as nat));
    let w3 = w2.push(w[2]);
    let x3 = x2.push(text::dec(r.warmup as nat));
    text::lemma_woven(w2, x2, w[2], text::dec(r.warmup as nat));
    let w4 = w3.push(w[3]);
    text::lemma_woven_end(w3, x3, w[3]);
    assert(w4 =~= w);
    assert(x3 =~= seq![
        text::dec(bench::gained(r.s3_after, r.s3_before) as nat),
        text::dec(r.queries as nat),
        text::dec(r.warmup as nat),
    ]);
}

/// Seeding that took some seconds is told by them; seeding that did not happen is
/// told apart from any.
pub proof fn law_seeding_is_told(secs: Option<String>)
    ensures
        secs matches Some(s) ==> seed_text(secs).len() == s@.len() + 1 && s@.is_prefix_of(
            seed_text(secs),
        ) && seed_text(secs).last() == 's',
        secs is None ==> seed_text(secs) == "skipped (namespace reused)"@,
{
    reveal_strlit("s");
    assert("s"@.len() == 1 && "s"@[0] == 's');
    if let Some(s) = secs {
        assert(s@ =~= seed_text(secs).subrange(0, s@.len() as int));
    }
}

/// Only a run with a warm index cache tells of its traffic.
pub proof fn law_only_warm_runs_tell_of_traffic(mode: Mode, delta: CacheBackendCountersSnapshot)
    ensures
        mode is WarmIndexCache ==> traffic_of(mode, delta) == report::traffic_text(delta),
        !(mode is WarmIndexCache) ==> traffic_of(mode, delta).len() == 0,
{
}

/// A report holds its parts one behind the other.
pub proof fn law_reports_hold_their_parts(c: ColdWarmReport, i: IndexReport)
    ensures
        cold_warm_text(c) == cold_warm_head_text(c) + cold_warm_latencies_text(c)
            + cold_warm_ratios_text(c) + cold_warm_requests_text(c),
        index_report_text(i) == index_head_text(i) + index_latencies_text(i) + index_requests_text(
            i,
        ),
{
}

} // verus!
