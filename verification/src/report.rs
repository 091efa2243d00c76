//! The report of the semantic-cache profile.
//!
//! Durations, ratios and similarities come as the texts in which they are shown.
use vstd::prelude::*;
use crate::bench::MetricDelta;
use crate::cachebackend::CacheBackendCountersSnapshot;
use crate::text;

verus! {

/// A measured case.
#[derive(Debug)]
pub struct CaseResult {
    /// Queries timed.
    pub samples: usize,
    /// Median.
    pub p50: String,
    /// 95th percentile.
    pub p95: String,
    /// 99th percentile.
    pub p99: String,
    /// Longest.
    pub max: String,
    /// How far the counters went.
    pub metrics: MetricDelta,
}

/// A probe of the threshold sweep.
#[derive(Debug)]
pub struct ThresholdRow {
    /// Similarity asked for.
    pub target_cosine: String,
    /// Similarity reached.
    pub observed_cosine: String,
    /// How the query was answered.
    pub outcome: String,
    /// Hits shared with a fresh search.
    pub overlap: usize,
}

/// A measured size of the sidecar.
#[derive(Debug)]
pub struct ScanRow {
    /// Entries of the sidecar.
    pub entries: usize,
    /// What was measured.
    pub result: CaseResult,
}

/// Everything that the report tells.
#[derive(Debug)]
pub struct ReportInput {
    pub start_utc: String,
    pub stop_utc: String,
    pub storage_root: String,
    pub ns: String,
    pub dim: usize,
    pub rows: usize,
    pub reps: usize,
    pub k: usize,
    pub nprobes: usize,
    pub threshold: String,
    pub storage_mb: String,
    pub cache_ram_mb: usize,
    pub cache_nvme_mb: usize,
    pub upsert_secs: String,
    pub num_partitions: u32,
    pub num_sub_vectors: u32,
    pub index_secs: String,
    pub cold_novel: CaseResult,
    pub foyer_hit: CaseResult,
    pub semantic_hit: CaseResult,
    pub semantic_miss_below: CaseResult,
    pub semantic_speedup: String,
    pub foyer_speedup: String,
    pub hit_cosine: String,
    pub below_cosine: String,
    pub hit_overlap: usize,
    pub threshold_rows: Vec<ThresholdRow>,
    pub scan_rows: Vec<ScanRow>,
}

/// What the report says before its first table has rows.
pub open spec fn head_text(r: ReportInput) -> Seq<char> {
    "# Semantic cache profile\n\n- **Start UTC**: "@
        + r.start_utc@
        + "\n- **Stop UTC**: "@
        + r.stop_utc@
        + "\n- **Harness**: `./scripts/cargo run --release -p firnflow-bench --bin semantic_cache_profile -j 1`\n- **Backend**: `"@
        + r.storage_root@
        + "`\n- **Namespace**: `"@
        + r.ns@
        + "`\n- **Config**: dim="@
        + text::dec(r.dim as nat)
        + ", rows="@
        + text::dec(r.rows as nat)
        + ", reps="@
        + text::dec(r.reps as nat)
        + ", k="@
        + text::dec(r.k as nat)
        + ", nprobes="@
        + text::dec(r.nprobes as nat)
        + ", threshold="@
        + r.threshold@
        + "\n- **Storage**: ~"@
        + r.storage_mb@
        + " MB raw vector data\n- **Cache**: RAM="@
        + text::dec(r.cache_ram_mb as nat)
        + "MB, NVMe="@
        + text::dec(r.cache_nvme_mb as nat)
        + "MB\n- **Upsert**: "@
        + r.upsert_secs@
        + "s\n- **Index build**: IVF_PQ (partitions="@
        + text::dec(r.num_partitions as nat)
        + ", sub_vectors="@
        + text::dec(r.num_sub_vectors as nat)
        + ") in "@
        + r.index_secs@
        + "s\n\nThe benchmark uses deterministic normalized synthetic vectors and drives `NamespaceService` in-process. Semantic-hit cases seed the sidecar with a real encoded top-k result, then issue a near-duplicate query whose exact-cache key is different.\n\n## Latency by tier\n\n| case | samples | p50 | p95 | p99 | max | backend queries | semantic hits | semantic misses | exact hits | exact misses |\n| --- | ---: | ---: | ---: | ---: | ---: | ---: | ---: | ---: | ---: | ---: |\n"@
}

/// The row of a case in the first table.
pub open spec fn case_row(label: Seq<char>, c: CaseResult) -> Seq<char> {
    "| "@ + label + " | "@ + text::dec(c.samples as nat) + " | "@ + c.p50@ + " | "@ + c.p95@ + " | "@ + c.p99@ + " | "@ + c.max@ + " | "@ + text::dec(c.metrics.backend_queries as nat) + " | "@ + text::dec(c.metrics.semantic_hits as nat) + " | "@ + text::dec(c.metrics.semantic_misses as nat) + " | "@ + text::dec(c.metrics.cache_hits as nat) + " | "@ + text::dec(c.metrics.cache_misses as nat) + " |\n"@
}

/// What the report says between the first two tables.
pub open spec fn comparison_text(r: ReportInput) -> Seq<char> {
    "\n## Primary comparison\n\n| comparison | p50 ratio |\n| --- | ---: |\n| cold novel / semantic hit | "@
        + r.semantic_speedup@
        + "x |\n| cold novel / foyer hit | "@
        + r.foyer_speedup@
        + "x |\n\nThe semantic-hit probe was generated at cosine "@
        + r.hit_cosine@
        + " against the cached query. Its true backend top-k overlapped the reused cached top-k by "@
        + text::dec(r.hit_overlap as nat)
        + "/"@
        + text::dec(r.k as nat)
        + " ids.\n\nThe below-threshold miss probe was generated at cosine "@
        + r.below_cosine@
        + ". It should fall through to LanceDB at threshold "@
        + r.threshold@
        + "; backend query counts in the latency table confirm that behavior.\n\n## Threshold cliff\n\n| target cosine | observed cosine | outcome | overlap vs true top-k |\n| ---: | ---: | --- | ---: |\n"@
}

/// The row of a probe in the table of the threshold sweep.
pub open spec fn threshold_row(row: ThresholdRow, k: usize) -> Seq<char> {
    "| "@ + row.target_cosine@ + " | "@ + row.observed_cosine@ + " | "@ + row.outcome@ + " | "@
        + text::dec(row.overlap as nat) + "/"@ + text::dec(k as nat) + " |\n"@
}

/// The rows of the threshold sweep.
pub open spec fn threshold_table(rows: Seq<ThresholdRow>, k: usize) -> Seq<char>
    decreases rows.len(),
{
    if rows.len() == 0 {
        Seq::empty()
    } else {
        threshold_table(rows.drop_last(), k) + threshold_row(rows.last(), k)
    }
}

/// The row of a size in the table of scan costs.
pub open spec fn scan_row(row: ScanRow) -> Seq<char> {
    "| "@ + text::dec(row.entries as nat) + " | "@ + text::dec(row.result.samples as nat) + " | "@
        + row.result.p50@ + " | "@ + row.result.p95@ + " | "@ + row.result.p99@ + " | "@
        + row.result.max@ + " | "@ + text::dec(row.result.metrics.semantic_hits as nat) + " |\n"@
}

/// The rows of the scan costs.
pub open spec fn scan_table(rows: Seq<ScanRow>) -> Seq<char>
    decreases rows.len(),
{
    if rows.len() == 0 {
        Seq::empty()
    } else {
        scan_table(rows.drop_last()) + scan_row(rows.last())
    }
}

/// What the report says above the table of scan costs.
pub open spec fn scan_head() -> Seq<char> {
    "\n## Scan cost\n\n| sidecar entries | samples | p50 | p95 | p99 | max | semantic hits |\n| ---: | ---: | ---: | ---: | ---: | ---: | ---: |\n"@
}

/// What the report says at its end.
pub open spec fn notes() -> Seq<char> {
    "\n## Notes\n\n- The semantic sidecar is a linear scan over at most 1024 entries per namespace generation.\n- `backend queries` is the service-level S3-bound query counter, not raw HTTP request count.\n- Semantic hits return the cached neighbour's serialized top-k bytes. The overlap number is the quality check against a fresh backend query for the probe vector.\n"@
}

/// The whole report.
pub open spec fn report_text(r: ReportInput) -> Seq<char> {
    head_text(r) + case_row("cold novel"@, r.cold_novel) + case_row("foyer hit"@, r.foyer_hit)
        + case_row("semantic hit"@, r.semantic_hit) + case_row(
        "semantic miss below threshold"@,
        r.semantic_miss_below,
    ) + comparison_text(r) + threshold_table(r.threshold_rows@, r.k) + scan_head() + scan_table(
        r.scan_rows@,
    ) + notes()
}

fn write_head(r: &ReportInput) -> (out: String)
    ensures
        out@ == head_text(*r),
{
    let mut out = "# Semantic cache profile\n\n- **Start UTC**: ".to_string();
    out.append(r.start_utc.as_str());
    out.append("\n- **Stop UTC**: ");
    out.append(r.stop_utc.as_str());
    out.append("\n- **Harness**: `./scripts/cargo run --release -p firnflow-bench --bin semantic_cache_profile -j 1`\n- **Backend**: `");
    out.append(r.storage_root.as_str());
    out.append("`\n- **Namespace**: `");
    out.append(r.ns.as_str());
    out.append("`\n- **Config**: dim=");
    out.append(text::dec_text(r.dim as u64).as_str());
    out.append(", rows=");
    out.append(text::dec_text(r.rows as u64).as_str());
    out.append(", reps=");
    out.append(text::dec_text(r.reps as u64).as_str());
    out.append(", k=");
    out.append(text::dec_text(r.k as u64).as_str());
    out.append(", nprobes=");
    out.append(text::dec_text(r.nprobes as u64).as_str());
    out.append(", threshold=");
    out.append(r.threshold.as_str());
    out.append("\n- **Storage**: ~");
    out.append(r.storage_mb.as_str());
    out.append(" MB raw vector data\n- **Cache**: RAM=");
    out.append(text::dec_text(r.cache_ram_mb as u64).as_str());
    out.append("MB, NVMe=");
    out.append(text::dec_text(r.cache_nvme_mb as u64).as_str());
    out.append("MB\n- **Upsert**: ");
    out.append(r.upsert_secs.as_str());
    out.append("s\n- **Index build**: IVF_PQ (partitions=");
    out.append(text::dec_text(r.num_partitions as u64).as_str());
    out.append(", sub_vectors=");
    out.append(text::dec_text(r.num_sub_vectors as u64).as_str());
    out.append(") in ");
    out.append(r.index_secs.as_str());
    out.append("s\n\nThe benchmark uses deterministic normalized synthetic vectors and drives `NamespaceService` in-process. Semantic-hit cases seed the sidecar with a real encoded top-k result, then issue a near-duplicate query whose exact-cache key is different.\n\n## Latency by tier\n\n| case | samples | p50 | p95 | p99 | max | backend queries | semantic hits | semantic misses | exact hits | exact misses |\n| --- | ---: | ---: | ---: | ---: | ---: | ---: | ---: | ---: | ---: | ---: |\n");
    out
}

/// Adds the row of a case.
pub fn push_case_row(out: &mut String, label: &str, c: &CaseResult)
    ensures
        final(out)@ == old(out)@ + case_row(label@, *c),
{
    let mut row = "| ".to_string();
    row.append(label);
    row.append(" | ");
    row.append(text::dec_text(c.samples as u64).as_str());
    row.append(" | ");
    row.append(c.p50.as_str());
    row.append(" | ");
    row.append(c.p95.as_str());
    row.append(" | ");
    row.append(c.p99.as_str());
    row.append(" | ");
    row.append(c.max.as_str());
    row.append(" | ");
    row.append(text::dec_text(c.metrics.backend_queries as u64).as_str());
    row.append(" | ");
    row.append(text::dec_text(c.metrics.semantic_hits as u64).as_str());
    row.append(" | ");
    row.append(text::dec_text(c.metrics.semantic_misses as u64).as_str());
    row.append(" | ");
    row.append(text::dec_text(c.metrics.cache_hits as u64).as_str());
    row.append(" | ");
    row.append(text::dec_text(c.metrics.cache_misses as u64).as_str());
    row.append(" |\n");
    out.append(row.as_str());
}

fn write_comparison(r: &ReportInput) -> (out: String)
    ensures
        out@ == comparison_text(*r),
{
    let mut out = "\n## Primary comparison\n\n| comparison | p50 ratio |\n| --- | ---: |\n| cold novel / semantic hit | ".to_string();
    out.append(r.semantic_speedup.as_str());
    out.append("x |\n| cold novel / foyer hit | ");
    out.append(r.foyer_speedup.as_str());
    out.append("x |\n\nThe semantic-hit probe was generated at cosine ");
    out.append(r.hit_cosine.as_str());
    out.append(" against the cached query. Its true backend top-k overlapped the reused cached top-k by ");
    out.append(text::dec_text(r.hit_overlap as u64).as_str());
    out.append("/");
    out.append(text::dec_text(r.k as u64).as_str());
    out.append(" ids.\n\nThe below-threshold miss probe was generated at cosine ");
    out.append(r.below_cosine.as_str());
    out.append(". It should fall through to LanceDB at threshold ");
    out.append(r.threshold.as_str());
    out.append("; backend query counts in the latency table confirm that behavior.\n\n## Threshold cliff\n\n| target cosine | observed cosine | outcome | overlap vs true top-k |\n| ---: | ---: | --- | ---: |\n");
    out
}

fn push_threshold_rows(out: &mut String, rows: &Vec<ThresholdRow>, k: usize)
    ensures
        final(out)@ == old(out)@ + threshold_table(rows@, k),
{
    let ghost start = out@;
    let mut i: usize = 0;
    assert(out@ =~= start + threshold_table(rows@.take(0), k));
    while i < rows.len()
        invariant
            i <= rows@.len(),
            out@ == start + threshold_table(rows@.take(i as int), k),
        decreases rows@.len() - i,
    {
        let ghost done = out@;
        let mut row = text::cat7(
            "| ",
            rows[i].target_cosine.as_str(),
            " | ",
            rows[i].observed_cosine.as_str(),
            " | ",
            rows[i].outcome.as_str(),
            " | ",
        );
        row.append(text::dec_text(rows[i].overlap as u64).as_str());
        row.append("/");
        row.append(text::dec_text(k as u64).as_str());
        row.append(" |\n");
        out.append(row.as_str());
        proof {
            assert(rows@.take(i + 1).drop_last() =~= rows@.take(i as int));
            assert(out@ =~= start + (threshold_table(rows@.take(i as int), k) + threshold_row(
                rows@[i as int],
                k,
            )));
        }
        i = i + 1;
    }
    assert(rows@.take(i as int) =~= rows@);
}

fn push_scan_rows(out: &mut String, rows: &Vec<ScanRow>)
    ensures
        final(out)@ == old(out)@ + scan_table(rows@),
{
    let ghost start = out@;
    let mut i: usize = 0;
    assert(out@ =~= start + scan_table(rows@.take(0)));
    while i < rows.len()
        invariant
            i <= rows@.len(),
            out@ == start + scan_table(rows@.take(i as int)),
        decreases rows@.len() - i,
    {
        let c = &rows[i].result;
        let mut row = text::cat9(
            "| ",
            text::dec_text(rows[i].entries as u64).as_str(),
            " | ",
            text::dec_text(c.samples as u64).as_str(),
            " | ",
            c.p50.as_str(),
            " | ",
            c.p95.as_str(),
            " | ",
        );
        row.append(c.p99.as_str());
        row.append(" | ");
        row.append(c.max.as_str());
        row.append(" | ");
        row.append(text::dec_text(c.metrics.semantic_hits).as_str());
        row.append(" |\n");
        out.append(row.as_str());
        proof {
            assert(rows@.take(i + 1).drop_last() =~= rows@.take(i as int));
            assert(out@ =~= start + (scan_table(rows@.take(i as int)) + scan_row(rows@[i as int])));
        }
        i = i + 1;
    }
    assert(rows@.take(i as int) =~= rows@);
}

/// The whole report.
pub fn render_report(r: &ReportInput) -> (out: String)
    ensures
        out@ == report_text(*r),
{
    let mut out = write_head(r);
    push_case_row(&mut out, "cold novel", &r.cold_novel);
    push_case_row(&mut out, "foyer hit", &r.foyer_hit);
    push_case_row(&mut out, "semantic hit", &r.semantic_hit);
    push_case_row(&mut out, "semantic miss below threshold", &r.semantic_miss_below);
    out.append(write_comparison(r).as_str());
    push_threshold_rows(&mut out, &r.threshold_rows, r.k);
    out.append("\n## Scan cost\n\n| sidecar entries | samples | p50 | p95 | p99 | max | semantic hits |\n| ---: | ---: | ---: | ---: | ---: | ---: | ---: |\n");
    push_scan_rows(&mut out, &r.scan_rows);
    out.append("\n## Notes\n\n- The semantic sidecar is a linear scan over at most 1024 entries per namespace generation.\n- `backend queries` is the service-level S3-bound query counter, not raw HTTP request count.\n- Semantic hits return the cached neighbour's serialized top-k bytes. The overlap number is the quality check against a fresh backend query for the probe vector.\n");
    out
}

/// What the report of the index-cache benchmark says of the traffic of a warm
/// index cache.
pub open spec fn traffic_text(delta: CacheBackendCountersSnapshot) -> Seq<char> {
    "## Cache-backend traffic (measure window)\n\n| counter | delta |\n| --- | ---: |\n| `get` | "@
            + text::dec(delta.get as nat) + " |\n| `insert` | "@ + text::dec(delta.insert as nat)
            + " |\n| `get_or_insert` | "@ + text::dec(delta.get_or_insert as nat)
            + " |\n\nHit-rate signal: `insert` deltas approach zero as Lance finds its index state already cached. A non-trivial `insert` count after a warmup pass would mean Lance is still opening fresh state under load, which is worth a second look.\n\n"@
}

/// What the report of the index-cache benchmark says of the traffic of a warm
/// index cache.
pub fn traffic_section(delta: &CacheBackendCountersSnapshot) -> (r: String)
    ensures
        r@ == traffic_text(*delta),
{
    text::cat7(
        "## Cache-backend traffic (measure window)\n\n| counter | delta |\n| --- | ---: |\n| `get` | ",
        text::dec_text(delta.get).as_str(),
        " |\n| `insert` | ",
        text::dec_text(delta.insert).as_str(),
        " |\n| `get_or_insert` | ",
        text::dec_text(delta.get_or_insert).as_str(),
        " |\n\nHit-rate signal: `insert` deltas approach zero as Lance finds its index state already cached. A non-trivial `insert` count after a warmup pass would mean Lance is still opening fresh state under load, which is worth a second look.\n\n",
    )
}
// ------------------------------------------------------------------ laws
/// A row of a table with these cells.
pub open spec fn row_of(cells: Seq<Seq<char>>) -> Seq<char>
    decreases cells.len(),
{
    if cells.len() == 0 {
        "|\n"@
    } else {
        "| "@ + cells[0] + " "@ + row_of(cells.drop_first())
    }
}

proof fn lemma_bars()
    ensures
        " | "@ == " "@ + "| "@,
        " |\n"@ == " "@ + "|\n"@,
{
    reveal_strlit(" | ");
    reveal_strlit(" ");
    reveal_strlit("| ");
    reveal_strlit(" |\n");
    reveal_strlit("|\n");
    assert(" | "@ =~= " "@ + "| "@);
    assert(" |\n"@ =~= " "@ + "|\n"@);
}

/// One more cell at the end of a row: what stood before it stays.
spec fn row_start(cells: Seq<Seq<char>>) -> Seq<char>
    decreases cells.len(),
{
    if cells.len() == 0 {
        "| "@
    } else {
        row_start(cells.drop_last()) + cells.last() + " | "@
    }
}

proof fn lemma_row_start(cells: Seq<Seq<char>>, last: Seq<char>)
    ensures
        row_of(cells.push(last)) == row_start(cells) + last + " |\n"@,
    decreases cells.len(),
{
    lemma_bars();
    reveal_with_fuel(row_of, 2);
    if cells.len() == 0 {
        assert(cells.push(last).drop_first() =~= Seq::<Seq<char>>::empty());
        assert(row_of(cells.push(last)) =~= "| "@ + last + " |\n"@);
    } else {
        let rest = cells.drop_first();
        lemma_row_start(rest, last);
        lemma_row_front(cells);
        assert(cells.push(last).drop_first() =~= rest.push(last));
        assert(row_of(cells.push(last)) =~= row_start(cells) + last + " |\n"@);
    }
}

proof fn lemma_row_front(cells: Seq<Seq<char>>)
    requires
        cells.len() > 0,
    ensures
        row_start(cells) == "| "@ + cells[0] + " "@ + row_start(cells.drop_first()),
    decreases cells.len(),
{
    lemma_bars();
    reveal_with_fuel(row_start, 2);
    if cells.len() == 1 {
        assert(cells.drop_last() =~= Seq::<Seq<char>>::empty());
        assert(cells.drop_first() =~= Seq::<Seq<char>>::empty());
        assert(row_start(cells) =~= "| "@ + cells[0] + " "@ + "| "@);
    } else {
        lemma_row_front(cells.drop_last());
        assert(cells.drop_last().drop_first() =~= cells.drop_first().drop_last());
        assert(cells.drop_first().last() == cells.last());
        assert(row_start(cells) =~= "| "@ + cells[0] + " "@ + (row_start(
            cells.drop_first().drop_last(),
        ) + cells.last() + " | "@));
    }
}

/// The row of a case has its label, how many queries were timed, their median,
/// 95th and 99th percentile and longest, and then how far the counters went:
/// backend queries, semantic hits and misses, exact hits and misses.
#[verifier::spinoff_prover]
pub proof fn law_case_rows_follow_their_heads(label: Seq<char>, c: CaseResult)
    ensures
        case_row(label, c) == row_of(
            seq![
                label,
                text::dec(c.samples as nat),
                c.p50@,
                c.p95@,
                c.p99@,
                c.max@,
                text::dec(c.metrics.backend_queries as nat),
                text::dec(c.metrics.semantic_hits as nat),
                text::dec(c.metrics.semantic_misses as nat),
                text::dec(c.metrics.cache_hits as nat),
                text::dec(c.metrics.cache_misses as nat),
            ],
        ),
{
    let e = Seq::<Seq<char>>::empty();
    let a = e.push(label);
    let b = a.push(text::dec(c.samples as nat));
    let d = b.push(c.p50@);
    let f = d.push(c.p95@);
    let g = f.push(c.p99@);
    let h = g.push(c.max@);
    let i = h.push(text::dec(c.metrics.backend_queries as nat));
    let j = i.push(text::dec(c.metrics.semantic_hits as nat));
    let k = j.push(text::dec(c.metrics.semantic_misses as nat));
    let l = k.push(text::dec(c.metrics.cache_hits as nat));
    let m = text::dec(c.metrics.cache_misses as nat);
    lemma_row_start(l, m);
    lemma_pushed(e, label);
    lemma_pushed(a, text::dec(c.samples as nat));
    lemma_pushed(b, c.p50@);
    lemma_pushed(d, c.p95@);
    lemma_pushed(f, c.p99@);
    lemma_pushed(g, c.max@);
    lemma_pushed(h, text::dec(c.metrics.backend_queries as nat));
    lemma_pushed(i, text::dec(c.metrics.semantic_hits as nat));
    lemma_pushed(j, text::dec(c.metrics.semantic_misses as nat));
    lemma_pushed(k, text::dec(c.metrics.cache_hits as nat));
    assert(l.push(m) =~= seq![
        label,
        text::dec(c.samples as nat),
        c.p50@,
        c.p95@,
        c.p99@,
        c.max@,
        text::dec(c.metrics.backend_queries as nat),
        text::dec(c.metrics.semantic_hits as nat),
        text::dec(c.metrics.semantic_misses as nat),
        text::dec(c.metrics.cache_hits as nat),
        text::dec(c.metrics.cache_misses as nat),
    ]);
}

proof fn lemma_pushed(cells: Seq<Seq<char>>, cell: Seq<char>)
    ensures
        row_start(cells.push(cell)) == row_start(cells) + cell + " | "@,
        row_start(Seq::empty()) == "| "@,
{
    assert(cells.push(cell).drop_last() =~= cells);
}

/// The row of a probe has the similarity asked for, the one reached, how the query
/// was answered, and how many hits of so many it shares with a fresh search.
#[verifier::spinoff_prover]
pub proof fn law_threshold_rows_follow_their_heads(row: ThresholdRow, k: usize)
    ensures
        threshold_row(row, k) == row_of(
            seq![
                row.target_cosine@,
                row.observed_cosine@,
                row.outcome@,
                text::dec(row.overlap as nat) + "/"@ + text::dec(k as nat),
            ],
        ),
{
    let e = Seq::<Seq<char>>::empty();
    let a = e.push(row.target_cosine@);
    let b = a.push(row.observed_cosine@);
    let c = b.push(row.outcome@);
    let d = text::dec(row.overlap as nat) + "/"@ + text::dec(k as nat);
    lemma_row_start(c, d);
    lemma_pushed(e, row.target_cosine@);
    lemma_pushed(a, row.observed_cosine@);
    lemma_pushed(b, row.outcome@);
    assert(c.push(d) =~= seq![row.target_cosine@, row.observed_cosine@, row.outcome@, d]);
    assert(threshold_row(row, k) =~= row_start(c) + d + " |\n"@);
}

/// The row of a size has the entries of the sidecar, how many queries were timed,
/// their median, 95th and 99th percentile and longest, and the semantic hits.
#[verifier::spinoff_prover]
pub proof fn law_scan_rows_follow_their_heads(row: ScanRow)
    ensures
        scan_row(row) == row_of(
            seq![
                text::dec(row.entries as nat),
                text::dec(row.result.samples as nat),
                row.result.p50@,
                row.result.p95@,
                row.result.p99@,
                row.result.max@,
                text::dec(row.result.metrics.semantic_hits as nat),
            ],
        ),
{
    let e = Seq::<Seq<char>>::empty();
    let a = e.push(text::dec(row.entries as nat));
    let b = a.push(text::dec(row.result.samples as nat));
    let c = b.push(row.result.p50@);
    let d = c.push(row.result.p95@);
    let f = d.push(row.result.p99@);
    let g = f.push(row.result.max@);
    let h = text::dec(row.result.metrics.semantic_hits as nat);
    lemma_row_start(g, h);
    lemma_pushed(e, text::dec(row.entries as nat));
    lemma_pushed(a, text::dec(row.result.samples as nat));
    lemma_pushed(b, row.result.p50@);
    lemma_pushed(c, row.result.p95@);
    lemma_pushed(d, row.result.p99@);
    lemma_pushed(f, row.result.max@);
    assert(g.push(h) =~= seq![
        text::dec(row.entries as nat),
        text::dec(row.result.samples as nat),
        row.result.p50@,
        row.result.p95@,
        row.result.p99@,
        row.result.max@,
        h,
    ]);
}

/// A table holds the row of each of its measurements, in their order, and nothing
/// else.
pub proof fn law_tables_hold_every_row(
    probes: Seq<ThresholdRow>,
    probe: ThresholdRow,
    k: usize,
    scans: Seq<ScanRow>,
    scan: ScanRow,
)
    ensures
        threshold_table(Seq::empty(), k).len() == 0,
        threshold_table(probes.push(probe), k) == threshold_table(probes, k) + threshold_row(
            probe,
            k,
        ),
        scan_table(Seq::empty()).len() == 0,
        scan_table(scans.push(scan)) == scan_table(scans) + scan_row(scan),
{
    assert(probes.push(probe).drop_last() =~= probes);
    assert(scans.push(scan).drop_last() =~= scans);
}

/// The words of the head of a report.
pub open spec fn head_words() -> Seq<Seq<char>> {
    seq![
        "# Semantic cache profile\n\n- **Start UTC**: "@,
        "\n- **Stop UTC**: "@,
        "\n- **Harness**: `./scripts/cargo run --release -p firnflow-bench --bin semantic_cache_profile -j 1`\n- **Backend**: `"@,
        "`\n- **Namespace**: `"@,
        "`\n- **Config**: dim="@,
        ", rows="@,
        ", reps="@,
        ", k="@,
        ", nprobes="@,
        ", threshold="@,
        "\n- **Storage**: ~"@,
        " MB raw vector data\n- **Cache**: RAM="@,
        "MB, NVMe="@,
        "MB\n- **Upsert**: "@,
        "s\n- **Index build**: IVF_PQ (partitions="@,
        ", sub_vectors="@,
        ") in "@,
        "s\n\nThe benchmark uses deterministic normalized synthetic vectors and drives `NamespaceService` in-process. Semantic-hit cases seed the sidecar with a real encoded top-k result, then issue a near-duplicate query whose exact-cache key is different.\n\n## Latency by tier\n\n| case | samples | p50 | p95 | p99 | max | backend queries | semantic hits | semantic misses | exact hits | exact misses |\n| --- | ---: | ---: | ---: | ---: | ---: | ---: | ---: | ---: | ---: | ---: |\n"@,
    ]
}

/// The head of a report has the facts of the run between its words, in this order.
#[verifier::spinoff_prover]
pub proof fn law_profile_facts_stand_in_their_places(r: ReportInput)
    ensures
        head_text(r) == text::woven(
            head_words(),
            seq![
                r.start_utc@,
                r.stop_utc@,
                r.storage_root@,
                r.ns@,
                text::dec(r.dim as nat),
                text::dec(r.rows as nat),
                text::dec(r.reps as nat),
                text::dec(r.k as nat),
                text::dec(r.nprobes as nat),
                r.threshold@,
                r.storage_mb@,
                text::dec(r.cache_ram_mb as nat),
                text::dec(r.cache_nvme_mb as nat),
                r.upsert_secs@,
                text::dec(r.num_partitions as nat),
                text::dec(r.num_sub_vectors as nat),
                r.index_secs@,
            ],
        ),
{
    let w = head_words();
    let w0 = Seq::<Seq<char>>::empty();
    let x0 = Seq::<Seq<char>>::empty();
    let w1 = w0.push(w[0]);
    let x1 = x0.push(r.start_utc@);
    text::lemma_woven(w0, x0, w[0], r.start_utc@);
    let w2 = w1.push(w[1]);
    let x2 = x1.push(r.stop_utc@);
    text::lemma_woven(w1, x1, w[1], r.stop_utc@);
    let w3 = w2.push(w[2]);
    let x3 = x2.push(r.storage_root@);
    text::lemma_woven(w2, x2, w[2], r.storage_root@);
    let w4 = w3.push(w[3]);
    let x4 = x3.push(r.ns@);
    text::lemma_woven(w3, x3, w[3], r.ns@);
    let w5 = w4.push(w[4]);
    let x5 = x4.push(text::dec(r.dim as nat));
    text::lemma_woven(w4, x4, w[4], text::dec(r.dim as nat));
    let w6 = w5.push(w[5]);
    let x6 = x5.push(text::dec(r.rows as nat));
    text::lemma_woven(w5, x5, w[5], text::dec(r.rows as nat));
    let w7 = w6.push(w[6]);
    let x7 = x6.push(text::dec(r.reps as nat));
    text::lemma_woven(w6, x6, w[6], text::dec(r.reps as nat));
    let w8 = w7.push(w[7]);
    let x8 = x7.push(text::dec(r.k as nat));
    text::lemma_woven(w7, x7, w[7], text::dec(r.k as nat));
    let w9 = w8.push(w[8]);
    let x9 = x8.push(text::dec(r.nprobes as nat));
    text::lemma_woven(w8, x8, w[8], text::dec(r.nprobes as nat));
    let w10 = w9.push(w[9]);
    let x10 = x9.push(r.threshold@);
    text::lemma_woven(w9, x9, w[9], r.threshold@);
    let w11 = w10.push(w[10]);
    let x11 = x10.push(r.storage_mb@);
    text::lemma_woven(w10, x10, w[10], r.storage_mb@);
    let w12 = w11.push(w[11]);
    let x12 = x11.push(text::dec(r.cache_ram_mb as nat));
    text::lemma_woven(w11, x11, w[11], text::dec(r.cache_ram_mb as nat));
    let w13 = w12.push(w[12]);
    let x13 = x12.push(text::dec(r.cache_nvme_mb as nat));
    text::lemma_woven(w12, x12, w[12], text::dec(r.cache_nvme_mb as nat));
    let w14 = w13.push(w[13]);
    let x14 = x13.push(r.upsert_secs@);
    text::lemma_woven(w13, x13, w[13], r.upsert_secs@);
    let w15 = w14.push(w[14]);
    let x15 = x14.push(text::dec(r.num_partitions as nat));
    text::lemma_woven(w14, x14, w[14], text::dec(r.num_partitions as nat));
    let w16 = w15.push(w[15]);
    let x16 = x15.push(text::dec(r.num_sub_vectors as nat));
    text::lemma_woven(w15, x15, w[15], text::dec(r.num_sub_vectors as nat));
    let w17 = w16.push(w[16]);
    let x17 = x16.push(r.index_secs@);
    text::lemma_woven(w16, x16, w[16], r.index_secs@);
    let w18 = w17.push(w[17]);
    text::lemma_woven_end(w17, x17, w[17]);
    assert(w18 =~= w);
    assert(x17 =~= seq![
        r.start_utc@,
        r.stop_utc@,
        r.storage_root@,
        r.ns@,
        text::dec(r.dim as nat),
        text::dec(r.rows as nat),
        text::dec(r.reps as nat),
        text::dec(r.k as nat),
        text::dec(r.nprobes as nat),
        r.threshold@,
        r.storage_mb@,
        text::dec(r.cache_ram_mb as nat),
        text::dec(r.cache_nvme_mb as nat),
        r.upsert_secs@,
        text::dec(r.num_partitions as nat),
        text::dec(r.num_sub_vectors as nat),
        r.index_secs@,
    ]);
}

/// The words of the comparison.
pub open spec fn comparison_words() -> Seq<Seq<char>> {
    seq![
        "\n## Primary comparison\n\n| comparison | p50 ratio |\n| --- | ---: |\n| cold novel / semantic hit | "@,
        "x |\n| cold novel / foyer hit | "@,
        "x |\n\nThe semantic-hit probe was generated at cosine "@,
        " against the cached query. Its true backend top-k overlapped the reused cached top-k by "@,
        "/"@,
        " ids.\n\nThe below-threshold miss probe was generated at cosine "@,
        ". It should fall through to LanceDB at threshold "@,
        "; backend query counts in the latency table confirm that behavior.\n\n## Threshold cliff\n\n| target cosine | observed cosine | outcome | overlap vs true top-k |\n| ---: | ---: | --- | ---: |\n"@,
    ]
}

/// The comparison has its figures between its words, in this order.
#[verifier::spinoff_prover]
pub proof fn law_comparison_figures_stand_in_their_places(r: ReportInput)
    ensures
        comparison_text(r) == text::woven(
            comparison_words(),
            seq![
                r.semantic_speedup@,
                r.foyer_speedup@,
                r.hit_cosine@,
                text::dec(r.hit_overlap as nat),
                text::dec(r.k as nat),
                r.below_cosine@,
                r.threshold@,
            ],
        ),
{
    let w = comparison_words();
    let w0 = Seq::<Seq<char>>::empty();
    let x0 = Seq::<Seq<char>>::empty();
    let w1 = w0.push(w[0]);
    let x1 = x0.push(r.semantic_speedup@);
    text::lemma_woven(w0, x0, w[0], r.semantic_speedup@);
    let w2 = w1.push(w[1]);
    let x2 = x1.push(r.foyer_speedup@);
    text::lemma_woven(w1, x1, w[1], r.foyer_speedup@);
    let w3 = w2.push(w[2]);
    let x3 = x2.push(r.hit_cosine@);
    text::lemma_woven(w2, x2, w[2], r.hit_cosine@);
    let w4 = w3.push(w[3]);
    let x4 = x3.push(text::dec(r.hit_overlap as nat));
    text::lemma_woven(w3, x3, w[3], text::dec(r.hit_overlap as nat));
    let w5 = w4.push(w[4]);
    let x5 = x4.push(text::dec(r.k as nat));
    text::lemma_woven(w4, x4, w[4], text::dec(r.k as nat));
    let w6 = w5.push(w[5]);
    let x6 = x5.push(r.below_cosine@);
    text::lemma_woven(w5, x5, w[5], r.below_cosine@);
    let w7 = w6.push(w[6]);
    let x7 = x6.push(r.threshold@);
    text::lemma_woven(w6, x6, w[6], r.threshold@);
    let w8 = w7.push(w[7]);
    text::lemma_woven_end(w7, x7, w[7]);
    assert(w8 =~= w);
    assert(x7 =~= seq![
        r.semantic_speedup@,
        r.foyer_speedup@,
        r.hit_cosine@,
        text::dec(r.hit_overlap as nat),
        text::dec(r.k as nat),
        r.below_cosine@,
        r.threshold@,
    ]);
}

/// The words round the traffic of an index cache.
pub open spec fn traffic_words() -> Seq<Seq<char>> {
    seq![
        "## Cache-backend traffic (measure window)\n\n| counter | delta |\n| --- | ---: |\n| `get` | "@,
        " |\n| `insert` | "@,
        " |\n| `get_or_insert` | "@,
        " |\n\nHit-rate signal: `insert` deltas approach zero as Lance finds its index state already cached. A non-trivial `insert` count after a warmup pass would mean Lance is still opening fresh state under load, which is worth a second look.\n\n"@,
    ]
}

/// The traffic of an index cache has the counts of lookups, of stores and of lookups
/// that load between its words, in this order.
#[verifier::spinoff_prover]
pub proof fn law_traffic_counts_stand_in_their_places(delta: CacheBackendCountersSnapshot)
    ensures
        traffic_text(delta) == text::woven(
            traffic_words(),
            seq![
                text::dec(delta.get as nat),
                text::dec(delta.insert as nat),
                text::dec(delta.get_or_insert as nat),
            ],
        ),
{
    let w = traffic_words();
    let w0 = Seq::<Seq<char>>::empty();
    let x0 = Seq::<Seq<char>>::empty();
    let w1 = w0.push(w[0]);
    let x1 = x0.push(text::dec(delta.get as nat));
    text::lemma_woven(w0, x0, w[0], text::dec(delta.get as nat));
    let w2 = w1.push(w[1]);
    let x2 = x1.push(text::dec(delta.insert as nat));
    text::lemma_woven(w1, x1, w[1], text::dec(delta.insert as nat));
    let w3 = w2.push(w[2]);
    let x3 = x2.push(text::dec(delta.get_or_insert as nat));
    text::lemma_woven(w2, x2, w[2], text::dec(delta.get_or_insert as nat));
    let w4 = w3.push(w[3]);
    text::lemma_woven_end(w3, x3, w[3]);
    assert(w4 =~= w);
    assert(x3 =~= seq![
        text::dec(delta.get as nat),
        text::dec(delta.insert as nat),
        text::dec(delta.get_or_insert as nat),
    ]);
}

/// A report shows each of its cases under that case's name, then the comparison,
/// and both tables.
#[verifier::spinoff_prover]
pub proof fn law_reports_hold_their_parts(r: ReportInput)
    ensures
        text::occurs(report_text(r), head_text(r)),
        text::occurs(report_text(r), case_row("cold novel"@, r.cold_novel)),
        text::occurs(report_text(r), case_row("foyer hit"@, r.foyer_hit)),
        text::occurs(report_text(r), case_row("semantic hit"@, r.semantic_hit)),
        text::occurs(
            report_text(r),
            case_row("semantic miss below threshold"@, r.semantic_miss_below),
        ),
        text::occurs(report_text(r), comparison_text(r)),
        text::occurs(report_text(r), threshold_table(r.threshold_rows@, r.k)),
        text::occurs(report_text(r), scan_table(r.scan_rows@)),
{
    lemma_ten_parts(
        head_text(r),
        case_row("cold novel"@, r.cold_novel),
        case_row("foyer hit"@, r.foyer_hit),
        case_row("semantic hit"@, r.semantic_hit),
        case_row("semantic miss below threshold"@, r.semantic_miss_below),
        comparison_text(r),
        threshold_table(r.threshold_rows@, r.k),
        scan_head(),
        scan_table(r.scan_rows@),
        notes(),
    );
}

proof fn lemma_ten_parts(
    a: Seq<char>,
    b: Seq<char>,
    c: Seq<char>,
    d: Seq<char>,
    e: Seq<char>,
    f: Seq<char>,
    g: Seq<char>,
    h: Seq<char>,
    i: Seq<char>,
    j: Seq<char>,
)
    ensures
        ({
            let all = a + b + c + d + e + f + g + h + i + j;
            &&& text::occurs(all, a) && text::occurs(all, b) && text::occurs(all, c)
            &&& text::occurs(all, d) && text::occurs(all, e) && text::occurs(all, f)
            &&& text::occurs(all, g) && text::occurs(all, i)
        }),
{
    let parts = seq![a, b, c, d, e, f, g, h, i, j];
    lemma_run_holds_parts(parts, 10);
    lemma_runs(parts);
    assert(parts[0] == a && parts[1] == b && parts[2] == c && parts[3] == d && parts[4] == e
        && parts[5] == f && parts[6] == g && parts[8] == i);
}

/// The first `n` of some parts, one behind the other.
spec fn run_of(parts: Seq<Seq<char>>, n: int) -> Seq<char>
    decreases n,
{
    if n <= 1 {
        parts[0]
    } else {
        run_of(parts, n - 1) + parts[n - 1]
    }
}

proof fn lemma_runs(parts: Seq<Seq<char>>)
    ensures
        run_of(parts, 10) == parts[0] + parts[1] + parts[2] + parts[3] + parts[4] + parts[5]
            + parts[6] + parts[7] + parts[8] + parts[9],
{
    reveal_with_fuel(run_of, 10);
}

proof fn lemma_run_holds_parts(parts: Seq<Seq<char>>, n: int)
    requires
        1 <= n <= parts.len(),
    ensures
        forall|i: int| 0 <= i < n ==> text::occurs(run_of(parts, n), #[trigger] parts[i]),
    decreases n,
{
    if n == 1 {
        text::lemma_occurs_inside(Seq::empty(), parts[0], Seq::empty());
        assert(Seq::<char>::empty() + parts[0] =~= parts[0]);
    } else {
        lemma_run_holds_parts(parts, n - 1);
        text::lemma_occurs_inside(run_of(parts, n - 1), parts[n - 1], Seq::empty());
        assert forall|i: int| 0 <= i < n implies text::occurs(
            run_of(parts, n),
            #[trigger] parts[i],
        ) by {
            if i < n - 1 {
                text::lemma_occurs_further(run_of(parts, n - 1), parts[n - 1], parts[i]);
            }
        }
    }
}

} // verus!
