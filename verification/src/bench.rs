//! The benchmarks: their configuration, and what they make of their samples
//! and of the metrics text.
use vstd::prelude::*;
use crate::cachebackend::CacheBackendCountersSnapshot;
use crate::config::{self, ConfigError, FaultView, Pairs};
use crate::query::{QueryRequest, SemanticCacheRequest, Similarity, ONE_BITS};
use crate::result::QueryResultSet;
use crate::storage_root::{self, RootView, Scheme, StorageRoot};
use crate::text;

verus! {

/// Rows of one write of a benchmark.
pub const BATCH_ROWS: usize = 10_000;

// --------------------------------------------------------- configuration
/// What an index-cache benchmark measures.
#[derive(Debug, Clone, Copy, PartialEq, Eq, Structural)]
pub enum Mode {
    /// The result cache alone.
    CurrentFirn,
    /// The result cache, and a warmed index cache.
    WarmIndexCache,
    /// No result cache.
    CacheDisabledCold,
}

/// The mode that a name stands for.
pub open spec fn mode_named(s: Seq<char>) -> Option<Mode> {
    if s == "current-firn"@ {
        Some(Mode::CurrentFirn)
    } else if s == "warm-index-cache"@ {
        Some(Mode::WarmIndexCache)
    } else if s == "cache-disabled-cold"@ {
        Some(Mode::CacheDisabledCold)
    } else {
        None
    }
}

/// The name of a mode.
pub open spec fn mode_name(mode: Mode) -> Seq<char> {
    match mode {
        Mode::CurrentFirn => "current-firn"@,
        Mode::WarmIndexCache => "warm-index-cache"@,
        Mode::CacheDisabledCold => "cache-disabled-cold"@,
    }
}

/// The mode that a text asks for, or why it asks for none.
pub open spec fn mode_asked(s: Seq<char>) -> Result<Mode, FaultView> {
    match mode_named(s) {
        Some(mode) => Ok(mode),
        None => Err(
            config::fault(
                "unknown bench mode "@ + text::debug_text(s)
                    + ": expected one of current-firn, warm-index-cache, cache-disabled-cold"@,
            ),
        ),
    }
}

impl Mode {
    /// The mode that a name stands for.
    pub fn parse(s: &str) -> (r: Result<Mode, ConfigError>)
        ensures
            match r {
                Ok(mode) => mode_asked(s@) == Ok::<Mode, FaultView>(mode),
                Err(e) => mode_asked(s@) == Err::<Mode, FaultView>(e@),
            },
    {
        if text::same(s, "current-firn") {
            Ok(Mode::CurrentFirn)
        } else if text::same(s, "warm-index-cache") {
            Ok(Mode::WarmIndexCache)
        } else if text::same(s, "cache-disabled-cold") {
            Ok(Mode::CacheDisabledCold)
        } else {
            Err(
                config::refuse(
                    text::cat3(
                        "unknown bench mode ",
                        text::quoted(s).as_str(),
                        ": expected one of current-firn, warm-index-cache, cache-disabled-cold",
                    ),
                ),
            )
        }
    }

    /// The name of the mode.
    pub fn slug(self) -> (r: &'static str)
        ensures
            r@ == mode_name(self),
    {
        match self {
            Mode::CurrentFirn => "current-firn",
            Mode::WarmIndexCache => "warm-index-cache",
            Mode::CacheDisabledCold => "cache-disabled-cold",
        }
    }
}

/// The name of a mode is read back as that mode.
pub proof fn law_mode_names_read_back(mode: Mode)
    ensures
        mode_asked(mode_name(mode)) == Ok::<Mode, FaultView>(mode),
{
    reveal_strlit("current-firn");
    reveal_strlit("warm-index-cache");
    reveal_strlit("cache-disabled-cold");
    assert("current-firn"@.len() == 12);
    assert("warm-index-cache"@.len() == 16);
    assert("cache-disabled-cold"@.len() == 19);
}

/// The storage root of a benchmark: the URI, or else the bucket. The two need
/// not agree.
pub open spec fn bench_root(env: Pairs) -> Result<RootView, FaultView> {
    match (
        config::given(config::value_of(env, "FIRNFLOW_STORAGE_URI"@)),
        config::given(config::value_of(env, "FIRNFLOW_S3_BUCKET"@)),
    ) {
        (Some(uri), _) => match storage_root::parse_root(uri) {
            Some(root) => Ok(root),
            None => Err(
                config::fault(
                    "FIRNFLOW_STORAGE_URI ("@ + text::debug_text(uri) + "): "@
                        + ("invalid request: "@ + ("invalid storage URI "@ + text::debug_text(
                        uri,
                    ))),
                ),
            ),
        },
        (None, Some(bucket)) => if storage_root::is_bucket(bucket) {
            Ok((Scheme::S3, bucket, None))
        } else {
            Err(
                config::fault(
                    "FIRNFLOW_S3_BUCKET ("@ + text::debug_text(bucket) + "): "@
                        + ("invalid request: "@ + ("invalid bucket name "@ + text::debug_text(
                        bucket,
                    ))),
                ),
            )
        },
        (None, None) => Err(
            config::fault(
                "set FIRNFLOW_STORAGE_URI=s3://bucket or the legacy FIRNFLOW_S3_BUCKET=bucket"@,
            ),
        ),
    }
}

/// The storage root of a benchmark.
pub fn bench_storage_root(env: &Vec<(String, String)>) -> (r: Result<StorageRoot, ConfigError>)
    ensures
        match r {
            Ok(root) => bench_root(config::pairs(env@)) == Ok::<RootView, FaultView>(root@),
            Err(e) => bench_root(config::pairs(env@)) == Err::<RootView, FaultView>(e@),
        },
{
    let uri = config::given_value(env, "FIRNFLOW_STORAGE_URI");
    let bucket = config::given_value(env, "FIRNFLOW_S3_BUCKET");
    match (&uri, &bucket) {
        (Some(uri), _) => match StorageRoot::parse(uri.as_str()) {
            Ok(root) => Ok(root),
            Err(e) => Err(
                config::refuse(
                    text::cat4(
                        "FIRNFLOW_STORAGE_URI (",
                        text::quoted(uri.as_str()).as_str(),
                        "): ",
                        e.message().as_str(),
                    ),
                ),
            ),
        },
        (None, Some(bucket)) => match StorageRoot::s3_bucket(bucket.as_str()) {
            Ok(root) => Ok(root),
            Err(e) => Err(
                config::refuse(
                    text::cat4(
                        "FIRNFLOW_S3_BUCKET (",
                        text::quoted(bucket.as_str()).as_str(),
                        "): ",
                        e.message().as_str(),
                    ),
                ),
            ),
        },
        (None, None) => Err(
            config::refuse(
                "set FIRNFLOW_STORAGE_URI=s3://bucket or the legacy FIRNFLOW_S3_BUCKET=bucket".to_string(),
            ),
        ),
    }
}

/// The bytes of some mebibytes, where they can be counted.
pub fn mebibytes(mb: usize) -> (r: Option<usize>)
    ensures
        match r {
            Some(n) => n == mb * 1_048_576,
            None => mb * 1_048_576 > usize::MAX,
        },
{
    mb.checked_mul(1_048_576)
}

/// How a benchmark reads its variables.
#[derive(Debug, Clone, Copy, PartialEq, Eq, Structural)]
pub enum Style {
    /// As they are; an error names the variable.
    Plain,
    /// Trimmed, where nothing counts as not set; an error names the variable.
    Trimmed,
    /// As they are; an error names the variable and its value.
    Quoted,
}

/// The text of a variable, or its default.
pub open spec fn setting(env: Pairs, style: Style, key: Seq<char>, default: Seq<char>) -> Seq<char> {
    if style is Trimmed {
        match config::given(config::value_of(env, key)) {
            Some(v) => v,
            None => default,
        }
    } else {
        config::value_or(env, key, default)
    }
}

/// The text of a variable, or its default.
pub fn read_setting(env: &Vec<(String, String)>, style: Style, key: &str, default: &str) -> (r:
    String)
    ensures
        r@ == setting(config::pairs(env@), style, key@, default@),
{
    match style {
        Style::Trimmed => match config::given_value(env, key) {
            Some(v) => v,
            None => default.to_string(),
        },
        _ => config::env_or(env, key, default),
    }
}

/// A size that a variable holds, or its default.
pub open spec fn size(env: Pairs, style: Style, entry: (Seq<char>, Seq<char>)) -> Result<
    nat,
    FaultView,
> {
    let v = setting(env, style, entry.0, entry.1);
    let max = usize::MAX as nat;
    match text::parsed(v, max) {
        Some(n) => Ok(n),
        None => Err(
            if style is Quoted {
                config::fault(
                    entry.0 + "="@ + text::debug_text(v) + ": "@ + text::number_complaint(v, max),
                )
            } else {
                FaultView { message: entry.0, cause: Some(text::number_complaint(v, max)) }
            },
        ),
    }
}

fn read_size(env: &Vec<(String, String)>, style: Style, key: &str, default: &str) -> (r: Result<
    usize,
    ConfigError,
>)
    ensures
        match r {
            Ok(n) => size(config::pairs(env@), style, (key@, default@)) == Ok::<nat, FaultView>(
                n as nat,
            ),
            Err(e) => size(config::pairs(env@), style, (key@, default@)) == Err::<nat, FaultView>(
                e@,
            ),
        },
{
    let v = read_setting(env, style, key, default);
    match style {
        Style::Quoted => match text::parse_unsigned(v.as_str(), usize::MAX as u64) {
            Some(n) => Ok(n as usize),
            None => Err(
                config::refuse(
                    text::cat5(
                        key,
                        "=",
                        text::quoted(v.as_str()).as_str(),
                        ": ",
                        text::number_fault(v.as_str(), usize::MAX as u64).as_str(),
                    ),
                ),
            ),
        },
        _ => match config::parse_number(key, v.as_str(), usize::MAX as u64) {
            Ok(n) => Ok(n as usize),
            Err(e) => Err(e),
        },
    }
}

/// Variables with their defaults, by their characters.
pub open spec fn entries(table: Seq<(&'static str, &'static str)>) -> Pairs {
    table.map_values(|e: (&'static str, &'static str)| (e.0@, e.1@))
}

/// The sizes of some variables, where all of them hold one.
pub open spec fn sizes_are(env: Pairs, style: Style, table: Pairs, sizes: Seq<usize>) -> bool {
    sizes.len() == table.len() && forall|i: int|
        0 <= i < table.len() ==> size(env, style, #[trigger] table[i]) == Ok::<nat, FaultView>(
            sizes[i] as nat,
        )
}

/// Whether `e` is the error of the first variable that holds no size.
pub open spec fn first_fault(env: Pairs, style: Style, table: Pairs, e: FaultView) -> bool {
    exists|i: int|
        #![trigger table[i]]
        0 <= i < table.len() && size(env, style, table[i]) == Err::<nat, FaultView>(e) && forall|
            j: int,
        |
            0 <= j < i ==> size(env, style, #[trigger] table[j]) is Ok
}

/// Reads the sizes of some variables.
pub fn read_sizes(
    env: &Vec<(String, String)>,
    style: Style,
    table: &Vec<(&'static str, &'static str)>,
) -> (r: Result<Vec<usize>, ConfigError>)
    ensures
        match r {
            Ok(v) => sizes_are(config::pairs(env@), style, entries(table@), v@),
            Err(e) => first_fault(config::pairs(env@), style, entries(table@), e@),
        },
{
    let ghost all = entries(table@);
    let ghost e = config::pairs(env@);
    let mut r: Vec<usize> = Vec::new();
    let mut i: usize = 0;
    while i < table.len()
        invariant
            i <= table@.len(),
            r@.len() == i,
            all == entries(table@),
            e == config::pairs(env@),
            forall|k: int|
                0 <= k < i ==> size(e, style, #[trigger] all[k]) == Ok::<nat, FaultView>(
                    r@[k] as nat,
                ),
        decreases table@.len() - i,
    {
        assert(all[i as int] == (table@[i as int].0@, table@[i as int].1@));
        match read_size(env, style, table[i].0, table[i].1) {
            Ok(n) => {
                r.push(n);
            },
            Err(fault) => {
                assert(size(e, style, all[i as int]) == Err::<nat, FaultView>(fault@));
                return Err(fault);
            },
        }
        i = i + 1;
    }
    Ok(r)
}

/// The configuration of the cold-against-warm benchmark.
pub struct BenchConfig {
    /// Where the namespaces live.
    pub storage_root: StorageRoot,
    /// Options of an S3 client.
    pub storage_options: Vec<(String, String)>,
    /// Vector width.
    pub dim: usize,
    /// Rows to write.
    pub rows: usize,
    /// Queries to time.
    pub queries: usize,
    /// Report file.
    pub out_path: String,
    /// Memory of the result cache, in mebibytes.
    pub cache_ram_mb: usize,
    /// Disk of the result cache, in mebibytes.
    pub cache_nvme_mb: usize,
    /// Partitions that a query probes.
    pub nprobes: usize,
}

/// The sizes of the cold-against-warm benchmark: dimension, rows, queries,
/// memory, disk and probes.
pub open spec fn bench_table() -> Pairs {
    seq![
        ("FIRNFLOW_BENCH_DIM"@, "32"@),
        ("FIRNFLOW_BENCH_ROWS"@, "100"@),
        ("FIRNFLOW_BENCH_QUERIES"@, "50"@),
        ("FIRNFLOW_BENCH_CACHE_RAM_MB"@, "16"@),
        ("FIRNFLOW_BENCH_CACHE_NVME_MB"@, "256"@),
        ("FIRNFLOW_BENCH_INDEX_NPROBES"@, "20"@),
    ]
}

impl BenchConfig {
    /// Loads the configuration from an environment.
    pub fn from_env(env: &Vec<(String, String)>) -> (r: Result<BenchConfig, ConfigError>)
        ensures
            ({
                let e = config::pairs(env@);
                match r {
                    Ok(c) => {
                        &&& bench_root(e) == Ok::<RootView, FaultView>(c.storage_root@)
                        &&& config::pairs(c.storage_options@) == config::s3_options(e)
                        &&& c.out_path@ == config::value_or(
                            e,
                            "FIRNFLOW_BENCH_OUT"@,
                            "bench/results/cold_vs_warm_realistic.md"@,
                        )
                        &&& sizes_are(
                            e,
                            Style::Plain,
                            bench_table(),
                            seq![
                                c.dim,
                                c.rows,
                                c.queries,
                                c.cache_ram_mb,
                                c.cache_nvme_mb,
                                c.nprobes,
                            ],
                        )
                    },
                    Err(x) => match bench_root(e) {
                        Err(y) => x@ == y,
                        Ok(_) => first_fault(e, Style::Plain, bench_table(), x@),
                    },
                }
            }),
    {
        let storage_root = match bench_storage_root(env) {
            Ok(root) => root,
            Err(e) => {
                return Err(e);
            },
        };
        let table: Vec<(&'static str, &'static str)> = vec![
            ("FIRNFLOW_BENCH_DIM", "32"),
            ("FIRNFLOW_BENCH_ROWS", "100"),
            ("FIRNFLOW_BENCH_QUERIES", "50"),
            ("FIRNFLOW_BENCH_CACHE_RAM_MB", "16"),
            ("FIRNFLOW_BENCH_CACHE_NVME_MB", "256"),
            ("FIRNFLOW_BENCH_INDEX_NPROBES", "20"),
        ];
        assert(entries(table@) =~= bench_table());
        let v = match read_sizes(env, Style::Plain, &table) {
            Ok(v) => v,
            Err(e) => {
                return Err(e);
            },
        };
        let ghost sizes = v@;
        let c = BenchConfig {
            storage_root,
            storage_options: config::build_s3_storage_options(env),
            dim: v[0],
            rows: v[1],
            queries: v[2],
            out_path: config::env_or(
                env,
                "FIRNFLOW_BENCH_OUT",
                "bench/results/cold_vs_warm_realistic.md",
            ),
            cache_ram_mb: v[3],
            cache_nvme_mb: v[4],
            nprobes: v[5],
        };
        assert(sizes =~= seq![
            c.dim,
            c.rows,
            c.queries,
            c.cache_ram_mb,
            c.cache_nvme_mb,
            c.nprobes,
        ]);
        Ok(c)
    }
}

/// The configuration of the index-cache benchmark.
pub struct IndexBenchConfig {
    /// What is measured.
    pub mode: Mode,
    /// Where the namespace lives.
    pub storage_root: StorageRoot,
    /// Options of an S3 client.
    pub storage_options: Vec<(String, String)>,
    /// The namespace, the same for every mode.
    pub namespace: String,
    /// Vector width.
    pub dim: usize,
    /// Rows to write.
    pub rows: usize,
    /// Queries to time.
    pub measure_queries: usize,
    /// Queries before that, to warm the index cache.
    pub warmup_queries: usize,
    /// Hits of a query.
    pub k: usize,
    /// Partitions that a query probes.
    pub nprobes: usize,
    /// Memory of the result cache, in mebibytes.
    pub result_cache_ram_mb: usize,
    /// Disk of the result cache, in mebibytes.
    pub result_cache_nvme_mb: usize,
    /// Memory of the index cache, in mebibytes.
    pub index_cache_ram_mb: usize,
    /// Disk of the index cache, in mebibytes.
    pub index_cache_nvme_mb: usize,
    /// Report file.
    pub out_path: String,
}

/// The sizes of the index-cache benchmark: dimension, rows, queries, warmup,
/// hits, probes, then memory and disk of the result cache and of the index
/// cache.
pub open spec fn index_table() -> Pairs {
    seq![
        ("FIRNFLOW_BENCH_DIM"@, "1536"@),
        ("FIRNFLOW_BENCH_ROWS"@, "1000000"@),
        ("FIRNFLOW_BENCH_QUERIES"@, "1000"@),
        ("FIRNFLOW_BENCH_WARMUP"@, "100"@),
        ("FIRNFLOW_BENCH_K"@, "10"@),
        ("FIRNFLOW_BENCH_INDEX_NPROBES"@, "20"@),
        ("FIRNFLOW_BENCH_RESULT_CACHE_RAM_MB"@, "16"@),
        ("FIRNFLOW_BENCH_RESULT_CACHE_NVME_MB"@, "256"@),
        ("FIRNFLOW_BENCH_INDEX_CACHE_RAM_MB"@, "1024"@),
        ("FIRNFLOW_BENCH_INDEX_CACHE_NVME_MB"@, "10240"@),
    ]
}

/// The options of an S3 client where the region is read trimmed.
pub open spec fn trimmed_s3_options(env: Pairs) -> Pairs {
    let all = config::s3_options(env);
    all.drop_last().push(
        ("aws_region"@, setting(env, Style::Trimmed, "FIRNFLOW_S3_REGION"@, "us-east-1"@)),
    )
}

/// The mode that an environment asks for.
pub open spec fn env_mode(env: Pairs) -> Result<Mode, FaultView> {
    mode_asked(
        setting(env, Style::Trimmed, "FIRNFLOW_BENCH_INDEX_CACHE_MODE"@, "current-firn"@),
    )
}

impl IndexBenchConfig {
    /// The sizes, in the order in which they are read.
    pub open spec fn sizes(&self) -> Seq<usize> {
        seq![
            self.dim,
            self.rows,
            self.measure_queries,
            self.warmup_queries,
            self.k,
            self.nprobes,
            self.result_cache_ram_mb,
            self.result_cache_nvme_mb,
            self.index_cache_ram_mb,
            self.index_cache_nvme_mb,
        ]
    }

    /// Loads the configuration from an environment.
    pub fn from_env(env: &Vec<(String, String)>) -> (r: Result<IndexBenchConfig, ConfigError>)
        ensures
            ({
                let e = config::pairs(env@);
                match r {
                    Ok(c) => {
                        &&& env_mode(e) == Ok::<Mode, FaultView>(c.mode)
                        &&& bench_root(e) == Ok::<RootView, FaultView>(c.storage_root@)
                        &&& config::pairs(c.storage_options@) == trimmed_s3_options(e)
                        &&& c.namespace@ == setting(
                            e,
                            Style::Trimmed,
                            "FIRNFLOW_BENCH_INDEX_CACHE_NS"@,
                            "index-cache-bench"@,
                        )
                        &&& sizes_are(e, Style::Trimmed, index_table(), c.sizes())
                        &&& c.out_path@ == setting(
                            e,
                            Style::Trimmed,
                            "FIRNFLOW_BENCH_OUT"@,
                            "bench/results/index_cache_"@ + mode_name(c.mode) + ".md"@,
                        )
                    },
                    Err(x) => if env_mode(e) is Err {
                        x@ == env_mode(e)->Err_0
                    } else if bench_root(e) is Err {
                        x@ == bench_root(e)->Err_0
                    } else {
                        first_fault(e, Style::Trimmed, index_table(), x@)
                    },
                }
            }),
    {
        let asked = read_setting(
            env,
            Style::Trimmed,
            "FIRNFLOW_BENCH_INDEX_CACHE_MODE",
            "current-firn",
        );
        let mode = match Mode::parse(asked.as_str()) {
            Ok(mode) => mode,
            Err(e) => {
                return Err(e);
            },
        };
        let storage_root = match bench_storage_root(env) {
            Ok(root) => root,
            Err(e) => {
                return Err(e);
            },
        };
        let mut storage_options = config::build_s3_storage_options(env);
        let ghost built = config::pairs(storage_options@);
        assert(built.len() > 0);
        let region = read_setting(env, Style::Trimmed, "FIRNFLOW_S3_REGION", "us-east-1");
        let _ = storage_options.pop();
        storage_options.push(("aws_region".to_string(), region));
        assert(config::pairs(storage_options@) =~= trimmed_s3_options(config::pairs(env@)));
        let table: Vec<(&'static str, &'static str)> = vec![
            ("FIRNFLOW_BENCH_DIM", "1536"),
            ("FIRNFLOW_BENCH_ROWS", "1000000"),
            ("FIRNFLOW_BENCH_QUERIES", "1000"),
            ("FIRNFLOW_BENCH_WARMUP", "100"),
            ("FIRNFLOW_BENCH_K", "10"),
            ("FIRNFLOW_BENCH_INDEX_NPROBES", "20"),
            ("FIRNFLOW_BENCH_RESULT_CACHE_RAM_MB", "16"),
            ("FIRNFLOW_BENCH_RESULT_CACHE_NVME_MB", "256"),
            ("FIRNFLOW_BENCH_INDEX_CACHE_RAM_MB", "1024"),
            ("FIRNFLOW_BENCH_INDEX_CACHE_NVME_MB", "10240"),
        ];
        assert(entries(table@) =~= index_table());
        let v = match read_sizes(env, Style::Trimmed, &table) {
            Ok(v) => v,
            Err(e) => {
                return Err(e);
            },
        };
        let ghost sizes = v@;
        let default_out = text::cat3("bench/results/index_cache_", mode.slug(), ".md");
        let c = IndexBenchConfig {
            mode,
            storage_root,
            storage_options,
            namespace: read_setting(
                env,
                Style::Trimmed,
                "FIRNFLOW_BENCH_INDEX_CACHE_NS",
                "index-cache-bench",
            ),
            dim: v[0],
            rows: v[1],
            measure_queries: v[2],
            warmup_queries: v[3],
            k: v[4],
            nprobes: v[5],
            result_cache_ram_mb: v[6],
            result_cache_nvme_mb: v[7],
            index_cache_ram_mb: v[8],
            index_cache_nvme_mb: v[9],
            out_path: read_setting(
                env,
                Style::Trimmed,
                "FIRNFLOW_BENCH_OUT",
                default_out.as_str(),
            ),
        };
        assert(sizes =~= c.sizes());
        Ok(c)
    }
}

/// The entries of a list: what stands between the commas, trimmed, as far as
/// anything does.
pub open spec fn list_entries(v: Seq<char>) -> Seq<Seq<char>> {
    text::pieces(v, ',').map_values(|p: Seq<char>| text::trimmed(p)).filter(
        |p: Seq<char>| p.len() > 0,
    )
}

/// What is wrong with an entry of a list that is no size.
pub open spec fn entry_fault(key: Seq<char>, entry: Seq<char>) -> FaultView {
    config::fault(
        key + " entry "@ + text::debug_text(entry) + ": "@ + text::number_complaint(
            entry,
            usize::MAX as nat,
        ),
    )
}

/// The sizes in a list, or the error of the first entry that is none.
pub open spec fn listed_sizes(key: Seq<char>, list: Seq<Seq<char>>, r: Result<Seq<usize>, FaultView>) -> bool {
    let max = usize::MAX as nat;
    match r {
        Ok(v) => v.len() == list.len() && forall|i: int|
            0 <= i < list.len() ==> text::parsed(#[trigger] list[i], max) == Some(v[i] as nat),
        Err(e) => exists|i: int|
            #![trigger list[i]]
            0 <= i < list.len() && text::parsed(list[i], max) is None && e == entry_fault(
                key,
                list[i],
            ) && forall|j: int| 0 <= j < i ==> text::parsed(#[trigger] list[j], max) is Some,
    }
}

/// Some sizes by their values.
pub open spec fn sizes_outcome(r: Result<Vec<usize>, ConfigError>) -> Result<Seq<usize>, FaultView> {
    match r {
        Ok(v) => Ok(v@),
        Err(e) => Err(e@),
    }
}

/// The entries of a list.
pub fn split_entries(v: &str) -> (r: Vec<String>)
    ensures
        text::texts(r@) == list_entries(v@),
{
    let parts = text::split(v, ',');
    let ghost raw = text::pieces(v@, ',');
    let ghost trims = raw.map_values(|p: Seq<char>| text::trimmed(p));
    let ghost kept = |p: Seq<char>| p.len() > 0;
    assert(parts@.len() == raw.len()) by {
        assert(text::texts(parts@).len() == raw.len());
    }
    let mut r: Vec<String> = Vec::new();
    let mut i: usize = 0;
    proof {
        reveal(Seq::filter);
        assert(text::texts(r@) =~= trims.take(0).filter(kept));
    }
    while i < parts.len()
        invariant
            i <= parts@.len(),
            parts@.len() == raw.len(),
            text::texts(parts@) == raw,
            trims == raw.map_values(|p: Seq<char>| text::trimmed(p)),
            kept == (|p: Seq<char>| p.len() > 0),
            text::texts(r@) == trims.take(i as int).filter(kept),
        decreases parts@.len() - i,
    {
        let entry = text::trim(parts[i].as_str());
        let ghost done = text::texts(r@);
        proof {
            assert(text::texts(parts@)[i as int] == raw[i as int]);
            assert(entry@ == trims[i as int]);
            assert(trims.take(i + 1).drop_last() =~= trims.take(i as int));
            assert(trims.take(i + 1).last() == entry@);
            reveal(Seq::filter);
        }
        if text::chars_of(entry.as_str()).len() > 0 {
            let ghost t = entry@;
            r.push(entry);
            assert(text::texts(r@) =~= done.push(t));
        }
        i = i + 1;
    }
    assert(trims.take(i as int) =~= trims);
    r
}

/// The sizes in the list that a variable holds.
pub fn parse_usize_list(env: &Vec<(String, String)>, key: &str, default: &str) -> (r: Result<
    Vec<usize>,
    ConfigError,
>)
    ensures
        listed_sizes(
            key@,
            list_entries(config::value_or(config::pairs(env@), key@, default@)),
            sizes_outcome(r),
        ),
{
    let v = config::env_or(env, key, default);
    let parts = split_entries(v.as_str());
    let ghost list = list_entries(v@);
    let mut r: Vec<usize> = Vec::new();
    let mut i: usize = 0;
    assert(parts@.len() == list.len()) by {
        assert(text::texts(parts@).len() == list.len());
    }
    while i < parts.len()
        invariant
            i <= parts@.len(),
            parts@.len() == list.len(),
            text::texts(parts@) == list,
            list == list_entries(config::value_or(config::pairs(env@), key@, default@)),
            r@.len() == i,
            forall|k: int|
                0 <= k < i ==> text::parsed(#[trigger] list[k], usize::MAX as nat) == Some(
                    r@[k] as nat,
                ),
        decreases parts@.len() - i,
    {
        assert(text::texts(parts@)[i as int] == list[i as int]);
        let entry = parts[i].as_str();
        match text::parse_unsigned(entry, usize::MAX as u64) {
            Some(n) => {
                r.push(n as usize);
            },
            None => {
                assert(text::parsed(list[i as int], usize::MAX as nat) is None);
                return Err(
                    config::refuse(
                        text::cat5(
                            key,
                            " entry ",
                            text::quoted(entry).as_str(),
                            ": ",
                            text::number_fault(entry, usize::MAX as u64).as_str(),
                        ),
                    ),
                );
            },
        }
        i = i + 1;
    }
    Ok(r)
}

/// The configuration of the semantic-cache profile. Similarities are the bits
/// of single-precision numbers.
pub struct ProfileConfig {
    /// Where the namespace lives.
    pub storage_root: StorageRoot,
    /// Options of an S3 client.
    pub storage_options: Vec<(String, String)>,
    /// Vector width.
    pub dim: usize,
    /// Rows to write.
    pub rows: usize,
    /// Queries of each case.
    pub reps: usize,
    /// Hits of a query.
    pub k: usize,
    /// Partitions that a query probes.
    pub nprobes: usize,
    /// Threshold of a semantic hit.
    pub threshold: u32,
    /// Similarities to try.
    pub cosine_sweep: Vec<u32>,
    /// Entries of the sidecar to try.
    pub fill_sizes: Vec<usize>,
    /// Report file.
    pub out_path: String,
    /// Memory of the result cache, in mebibytes.
    pub cache_ram_mb: usize,
    /// Disk of the result cache, in mebibytes.
    pub cache_nvme_mb: usize,
}

/// The first sizes of the profile: dimension, rows, repetitions, hits, probes.
#[verifier::opaque]
pub open spec fn profile_table() -> Pairs {
    seq![
        ("FIRNFLOW_BENCH_DIM"@, "512"@),
        ("FIRNFLOW_BENCH_ROWS"@, "10000"@),
        ("FIRNFLOW_SEM_REPS"@, "200"@),
        ("FIRNFLOW_SEM_K"@, "10"@),
        ("FIRNFLOW_BENCH_INDEX_NPROBES"@, "20"@),
    ]
}

/// The sizes of its cache: memory and disk.
#[verifier::opaque]
pub open spec fn profile_cache_table() -> Pairs {
    seq![
        ("FIRNFLOW_BENCH_CACHE_RAM_MB"@, "16"@),
        ("FIRNFLOW_BENCH_CACHE_NVME_MB"@, "256"@),
    ]
}

/// Whether every variable of a table holds a size.
pub open spec fn all_sizes(env: Pairs, style: Style, table: Pairs) -> bool {
    forall|i: int| 0 <= i < table.len() ==> size(env, style, #[trigger] table[i]) is Ok
}

/// Whether the bits are those of a number in `(0, 1]`.
pub open spec fn is_threshold(bits: u32) -> bool {
    1 <= bits <= ONE_BITS
}

/// Whether the bits are those of a number in `[0, 1]`; zero has either sign.
pub open spec fn is_cosine(bits: u32) -> bool {
    bits <= ONE_BITS || bits == 0x8000_0000u32
}

/// The list of sidecar sizes that an environment asks for.
pub open spec fn fill_entries(env: Pairs) -> Seq<Seq<char>> {
    list_entries(config::value_or(env, "FIRNFLOW_SEM_FILL"@, "1,16,128,512,1024"@))
}

/// Whether every entry of a list is a size.
pub open spec fn all_listed(list: Seq<Seq<char>>) -> bool {
    forall|i: int|
        0 <= i < list.len() ==> text::parsed(#[trigger] list[i], usize::MAX as nat) is Some
}

/// The first value that the profile refuses though it could be read, if there
/// is one.
pub open spec fn range_fault(
    dim: nat,
    rows: nat,
    reps: nat,
    k: nat,
    threshold: u32,
    sweep: Seq<u32>,
    fills: nat,
) -> Option<Seq<char>> {
    if dim == 0 {
        Some("FIRNFLOW_BENCH_DIM must be > 0"@)
    } else if rows == 0 {
        Some("FIRNFLOW_BENCH_ROWS must be > 0"@)
    } else if reps == 0 {
        Some("FIRNFLOW_SEM_REPS must be > 0"@)
    } else if k == 0 {
        Some("FIRNFLOW_SEM_K must be > 0"@)
    } else if !is_threshold(threshold) {
        Some("FIRNFLOW_SEM_THRESHOLD must be in (0.0, 1.0]"@)
    } else if exists|i: int| 0 <= i < sweep.len() && !is_cosine(#[trigger] sweep[i]) {
        Some("FIRNFLOW_SEM_COSINE_SWEEP values must be in [0.0, 1.0]"@)
    } else if fills == 0 {
        Some("FIRNFLOW_SEM_FILL must contain at least one entry"@)
    } else {
        None
    }
}

fn check_ranges(
    dim: usize,
    rows: usize,
    reps: usize,
    k: usize,
    threshold: u32,
    sweep: &Vec<u32>,
    fills: usize,
) -> (r: Option<&'static str>)
    ensures
        match r {
            Some(m) => range_fault(
                dim as nat,
                rows as nat,
                reps as nat,
                k as nat,
                threshold,
                sweep@,
                fills as nat,
            ) == Some(m@),
            None => range_fault(
                dim as nat,
                rows as nat,
                reps as nat,
                k as nat,
                threshold,
                sweep@,
                fills as nat,
            ) is None,
        },
{
    if dim == 0 {
        return Some("FIRNFLOW_BENCH_DIM must be > 0");
    }
    if rows == 0 {
        return Some("FIRNFLOW_BENCH_ROWS must be > 0");
    }
    if reps == 0 {
        return Some("FIRNFLOW_SEM_REPS must be > 0");
    }
    if k == 0 {
        return Some("FIRNFLOW_SEM_K must be > 0");
    }
    if threshold < 1 || threshold > ONE_BITS {
        return Some("FIRNFLOW_SEM_THRESHOLD must be in (0.0, 1.0]");
    }
    let mut i: usize = 0;
    while i < sweep.len()
        invariant
            i <= sweep@.len(),
            dim > 0,
            rows > 0,
            reps > 0,
            k > 0,
            is_threshold(threshold),
            forall|j: int| 0 <= j < i ==> is_cosine(#[trigger] sweep@[j]),
        decreases sweep@.len() - i,
    {
        if sweep[i] > ONE_BITS && sweep[i] != 0x8000_0000u32 {
            assert(!is_cosine(sweep@[i as int]));
            return Some("FIRNFLOW_SEM_COSINE_SWEEP values must be in [0.0, 1.0]");
        }
        i = i + 1;
    }
    if fills == 0 {
        return Some("FIRNFLOW_SEM_FILL must contain at least one entry");
    }
    None
}

fn profile_sizes(env: &Vec<(String, String)>) -> (r: Result<Vec<usize>, ConfigError>)
    ensures
        ({
            let e = config::pairs(env@);
            match r {
                Ok(v) => {
                    &&& v@.len() == 5
                    &&& all_sizes(e, Style::Quoted, profile_table())
                    &&& sizes_are(e, Style::Quoted, profile_table(), v@)
                    &&& size(e, Style::Quoted, ("FIRNFLOW_BENCH_DIM"@, "512"@)) == Ok::<
                        nat,
                        FaultView,
                    >(v@[0] as nat)
                    &&& size(e, Style::Quoted, ("FIRNFLOW_BENCH_ROWS"@, "10000"@)) == Ok::<
                        nat,
                        FaultView,
                    >(v@[1] as nat)
                    &&& size(e, Style::Quoted, ("FIRNFLOW_SEM_REPS"@, "200"@)) == Ok::<
                        nat,
                        FaultView,
                    >(v@[2] as nat)
                    &&& size(e, Style::Quoted, ("FIRNFLOW_SEM_K"@, "10"@)) == Ok::<nat, FaultView>(
                        v@[3] as nat,
                    )
                },
                Err(x) => !all_sizes(e, Style::Quoted, profile_table()) && first_fault(
                    e,
                    Style::Quoted,
                    profile_table(),
                    x@,
                ),
            }
        }),
{
    let table: Vec<(&'static str, &'static str)> = vec![
        ("FIRNFLOW_BENCH_DIM", "512"),
        ("FIRNFLOW_BENCH_ROWS", "10000"),
        ("FIRNFLOW_SEM_REPS", "200"),
        ("FIRNFLOW_SEM_K", "10"),
        ("FIRNFLOW_BENCH_INDEX_NPROBES", "20"),
    ];
    let ghost e = config::pairs(env@);
    assert(entries(table@) == profile_table()) by {
        reveal(profile_table);
        assert(entries(table@) =~= profile_table());
    }
    match read_sizes(env, Style::Quoted, &table) {
        Ok(v) => {
            proof {
                lemma_every_size(e, Style::Quoted, profile_table(), v@);
                lemma_profile_sizes(e, v@);
            }
            Ok(v)
        },
        Err(x) => {
            proof {
                lemma_some_fault(e, Style::Quoted, profile_table(), x@);
            }
            Err(x)
        },
    }
}

proof fn lemma_every_size(env: Pairs, style: Style, table: Pairs, sizes: Seq<usize>)
    requires
        sizes_are(env, style, table, sizes),
    ensures
        all_sizes(env, style, table),
{
}

proof fn lemma_some_fault(env: Pairs, style: Style, table: Pairs, e: FaultView)
    requires
        first_fault(env, style, table, e),
    ensures
        !all_sizes(env, style, table),
{
}

proof fn lemma_profile_sizes(env: Pairs, v: Seq<usize>)
    requires
        sizes_are(env, Style::Quoted, profile_table(), v),
    ensures
        v.len() == 5,
        size(env, Style::Quoted, ("FIRNFLOW_BENCH_DIM"@, "512"@)) == Ok::<nat, FaultView>(
            v[0] as nat,
        ),
        size(env, Style::Quoted, ("FIRNFLOW_BENCH_ROWS"@, "10000"@)) == Ok::<nat, FaultView>(
            v[1] as nat,
        ),
        size(env, Style::Quoted, ("FIRNFLOW_SEM_REPS"@, "200"@)) == Ok::<nat, FaultView>(
            v[2] as nat,
        ),
        size(env, Style::Quoted, ("FIRNFLOW_SEM_K"@, "10"@)) == Ok::<nat, FaultView>(v[3] as nat),
{
    reveal(profile_table);
    let t = profile_table();
    assert(t[0] == ("FIRNFLOW_BENCH_DIM"@, "512"@));
    assert(t[1] == ("FIRNFLOW_BENCH_ROWS"@, "10000"@));
    assert(t[2] == ("FIRNFLOW_SEM_REPS"@, "200"@));
    assert(t[3] == ("FIRNFLOW_SEM_K"@, "10"@));
}

fn profile_cache_sizes(env: &Vec<(String, String)>) -> (r: Result<Vec<usize>, ConfigError>)
    ensures
        ({
            let e = config::pairs(env@);
            match r {
                Ok(v) => v@.len() == 2 && all_sizes(e, Style::Quoted, profile_cache_table())
                    && sizes_are(e, Style::Quoted, profile_cache_table(), v@),
                Err(x) => !all_sizes(e, Style::Quoted, profile_cache_table()) && first_fault(
                    e,
                    Style::Quoted,
                    profile_cache_table(),
                    x@,
                ),
            }
        }),
{
    let table: Vec<(&'static str, &'static str)> = vec![
        ("FIRNFLOW_BENCH_CACHE_RAM_MB", "16"),
        ("FIRNFLOW_BENCH_CACHE_NVME_MB", "256"),
    ];
    let ghost e = config::pairs(env@);
    assert(entries(table@) == profile_cache_table() && profile_cache_table().len() == 2) by {
        reveal(profile_cache_table);
        assert(entries(table@) =~= profile_cache_table());
    }
    match read_sizes(env, Style::Quoted, &table) {
        Ok(v) => {
            proof {
                lemma_every_size(e, Style::Quoted, profile_cache_table(), v@);
            }
            Ok(v)
        },
        Err(x) => {
            proof {
                lemma_some_fault(e, Style::Quoted, profile_cache_table(), x@);
            }
            Err(x)
        },
    }
}

impl ProfileConfig {
    /// Loads the configuration from an environment. Threshold and sweep come as
    /// they were read, or with what is wrong with them.
    #[verifier::spinoff_prover]
    #[verifier::rlimit(40)]
    pub fn from_env(
        env: &Vec<(String, String)>,
        threshold: Result<u32, String>,
        sweep: Result<Vec<u32>, String>,
    ) -> (r: Result<ProfileConfig, ConfigError>)
        ensures
            ({
                let e = config::pairs(env@);
                match r {
                    Ok(c) => {
                        &&& bench_root(e) == Ok::<RootView, FaultView>(c.storage_root@)
                        &&& config::pairs(c.storage_options@) == config::s3_options(e)
                        &&& sizes_are(
                            e,
                            Style::Quoted,
                            profile_table(),
                            seq![c.dim, c.rows, c.reps, c.k, c.nprobes],
                        )
                        &&& threshold == Ok::<u32, String>(c.threshold)
                        &&& sweep == Ok::<Vec<u32>, String>(c.cosine_sweep)
                        &&& listed_sizes(
                            "FIRNFLOW_SEM_FILL"@,
                            fill_entries(e),
                            Ok(c.fill_sizes@),
                        )
                        &&& sizes_are(
                            e,
                            Style::Quoted,
                            profile_cache_table(),
                            seq![c.cache_ram_mb, c.cache_nvme_mb],
                        )
                        &&& c.out_path@ == config::value_or(
                            e,
                            "FIRNFLOW_SEM_OUT"@,
                            "bench/results/semantic_cache_profile.md"@,
                        )
                        &&& range_fault(
                            c.dim as nat,
                            c.rows as nat,
                            c.reps as nat,
                            c.k as nat,
                            c.threshold,
                            c.cosine_sweep@,
                            c.fill_sizes@.len(),
                        ) is None
                    },
                    Err(x) => if bench_root(e) is Err {
                        x@ == bench_root(e)->Err_0
                    } else if !all_sizes(e, Style::Quoted, profile_table()) {
                        first_fault(e, Style::Quoted, profile_table(), x@)
                    } else if threshold is Err {
                        x@ == config::fault(threshold->Err_0@)
                    } else if sweep is Err {
                        x@ == config::fault(sweep->Err_0@)
                    } else if !all_listed(fill_entries(e)) {
                        listed_sizes("FIRNFLOW_SEM_FILL"@, fill_entries(e), Err(x@))
                    } else if !all_sizes(e, Style::Quoted, profile_cache_table()) {
                        first_fault(e, Style::Quoted, profile_cache_table(), x@)
                    } else {
                        range_fault(
                            size(e, Style::Quoted, ("FIRNFLOW_BENCH_DIM"@, "512"@))->Ok_0,
                            size(e, Style::Quoted, ("FIRNFLOW_BENCH_ROWS"@, "10000"@))->Ok_0,
                            size(e, Style::Quoted, ("FIRNFLOW_SEM_REPS"@, "200"@))->Ok_0,
                            size(e, Style::Quoted, ("FIRNFLOW_SEM_K"@, "10"@))->Ok_0,
                            threshold->Ok_0,
                            sweep->Ok_0@,
                            fill_entries(e).len(),
                        ) matches Some(m) && x@ == config::fault(m)
                    },
                }
            }),
    {
        let ghost e = config::pairs(env@);
        let storage_root = match bench_storage_root(env) {
            Ok(root) => root,
            Err(x) => {
                return Err(x);
            },
        };
        let v = match profile_sizes(env) {
            Ok(v) => v,
            Err(x) => {
                return Err(x);
            },
        };
        let ghost sizes = v@;
        let threshold_bits: u32 = match threshold {
            Ok(bits) => bits,
            Err(m) => {
                return Err(config::refuse(m));
            },
        };
        let cosine_sweep = match sweep {
            Ok(s) => s,
            Err(m) => {
                return Err(config::refuse(m));
            },
        };
        let fill_sizes = match parse_usize_list(env, "FIRNFLOW_SEM_FILL", "1,16,128,512,1024") {
            Ok(f) => f,
            Err(x) => {
                return Err(x);
            },
        };
        assert(all_listed(fill_entries(e)));
        let cache = match profile_cache_sizes(env) {
            Ok(v) => v,
            Err(x) => {
                return Err(x);
            },
        };
        if let Some(m) = check_ranges(
            v[0],
            v[1],
            v[2],
            v[3],
            threshold_bits,
            &cosine_sweep,
            fill_sizes.len(),
        ) {
            return Err(config::refuse(m.to_string()));
        }
        let c = ProfileConfig {
            storage_root,
            storage_options: config::build_s3_storage_options(env),
            dim: v[0],
            rows: v[1],
            reps: v[2],
            k: v[3],
            nprobes: v[4],
            threshold: threshold_bits,
            cosine_sweep,
            fill_sizes,
            out_path: config::env_or(
                env,
                "FIRNFLOW_SEM_OUT",
                "bench/results/semantic_cache_profile.md",
            ),
            cache_ram_mb: cache[0],
            cache_nvme_mb: cache[1],
        };
        assert(sizes =~= seq![c.dim, c.rows, c.reps, c.k, c.nprobes]);
        assert(cache@ =~= seq![c.cache_ram_mb, c.cache_nvme_mb]);
        Ok(c)
    }
}

// --------------------------------------------------------------- samples
/// Percentiles of some samples, in nanoseconds.
#[derive(Debug, Clone, Copy, PartialEq, Eq, Structural)]
pub struct Percentiles {
    /// Median.
    pub p50: u64,
    /// 95th percentile.
    pub p95: u64,
    /// 99th percentile.
    pub p99: u64,
    /// Largest sample.
    pub max: u64,
}

/// Some samples in rising order.
pub open spec fn ordered(samples: Seq<u64>) -> Seq<u64> {
    samples.sort_by(|a: u64, b: u64| a <= b)
}

/// `slice::sort_unstable` puts the items into rising order and keeps them: none
/// is lost, none is added.
#[verifier::external_body]
fn sort_unstable(samples: &mut Vec<u64>)
    ensures
        final(samples)@.to_multiset() == old(samples)@.to_multiset(),
        forall|i: int, j: int|
            0 <= i <= j < final(samples)@.len() ==> final(samples)@[i] <= final(samples)@[j],
{
    samples.sort_unstable()
}

/// The percentiles of some samples.
pub fn percentiles(samples: Vec<u64>) -> (r: Percentiles)
    requires
        samples@.len() > 0,
        samples@.len() * 99 <= usize::MAX,
    ensures
        ({
            let s = ordered(samples@);
            let n = samples@.len() as int;
            &&& s.len() == n
            &&& r.p50 == s[n / 2]
            &&& r.p95 == s[(n * 95) / 100]
            &&& r.p99 == s[(n * 99) / 100]
            &&& r.max == s[n - 1]
        }),
{
    let mut sorted = samples;
    let ghost raw = samples@;
    sort_unstable(&mut sorted);
    proof {
        let leq = |a: u64, b: u64| a <= b;
        raw.lemma_sort_by_ensures(leq);
        vstd::seq_lib::lemma_sorted_unique(sorted@, raw.sort_by(leq), leq);
        assert(ordered(raw) == sorted@);
        sorted@.to_multiset_ensures();
        raw.to_multiset_ensures();
    }
    let n: usize = sorted.len();
    Percentiles {
        p50: sorted[n / 2],
        p95: sorted[(n * 95) / 100],
        p99: sorted[(n * 99) / 100],
        max: sorted[n - 1],
    }
}

/// Percentiles rise.
pub proof fn law_percentiles_rise(samples: Seq<u64>, i: int, j: int)
    requires
        0 <= i <= j < samples.len(),
    ensures
        ordered(samples).len() == samples.len(),
        ordered(samples)[i] <= ordered(samples)[j],
{
    let leq = |a: u64, b: u64| a <= b;
    samples.lemma_sort_by_ensures(leq);
    samples.to_multiset_ensures();
    ordered(samples).to_multiset_ensures();
    if i < j {
        assert(leq(ordered(samples)[i], ordered(samples)[j]));
    }
}

/// The ranges of rows in which a benchmark writes.
pub open spec fn are_batches(ranges: Seq<(usize, usize)>, total: usize) -> bool {
    &&& total == 0 ==> ranges.len() == 0
    &&& total > 0 ==> ranges.len() > 0 && ranges[0].0 == 0 && ranges.last().1 == total
    &&& forall|i: int|
        0 <= i < ranges.len() ==> (#[trigger] ranges[i]).0 < ranges[i].1 <= ranges[i].0
            + BATCH_ROWS
    &&& forall|i: int, j: int|
        0 <= i < ranges.len() && j == i + 1 && j < ranges.len() ==> (#[trigger] ranges[i]).1 == (
        #[trigger] ranges[j]).0 && ranges[i].1 == ranges[i].0 + BATCH_ROWS
}

/// The ranges of rows in which a benchmark writes: full batches, one after the
/// other, and what is left.
pub fn row_batches(total: usize) -> (r: Vec<(usize, usize)>)
    ensures
        are_batches(r@, total),
{
    let mut r: Vec<(usize, usize)> = Vec::new();
    let mut offset: usize = 0;
    while offset < total
        invariant
            offset <= total,
            offset == 0 ==> r@.len() == 0,
            offset > 0 ==> r@.len() > 0 && r@[0].0 == 0 && r@.last().1 == offset,
            offset > 0 && offset < total ==> r@.last().1 == r@.last().0 + BATCH_ROWS,
            forall|i: int|
                0 <= i < r@.len() ==> (#[trigger] r@[i]).0 < r@[i].1 <= r@[i].0 + BATCH_ROWS,
            forall|i: int, j: int|
                0 <= i < r@.len() && j == i + 1 && j < r@.len() ==> (#[trigger] r@[i]).1 == (
                #[trigger] r@[j]).0 && r@[i].1 == r@[i].0 + BATCH_ROWS,
        decreases total - offset,
    {
        let end: usize = if total - offset > BATCH_ROWS {
            offset + BATCH_ROWS
        } else {
            total
        };
        r.push((offset, end));
        offset = end;
    }
    r
}

// --------------------------------------------------------------- metrics
/// Counters of a namespace at one moment.
#[derive(Debug, Clone, Copy, PartialEq, Eq, Structural)]
pub struct MetricSnapshot {
    pub cache_hits: u64,
    pub cache_misses: u64,
    pub semantic_hits: u64,
    pub semantic_misses: u64,
    pub semantic_empty: u64,
    pub backend_queries: u64,
}

/// How far counters went.
#[derive(Debug, Clone, Copy, PartialEq, Eq, Structural)]
pub struct MetricDelta {
    pub cache_hits: u64,
    pub cache_misses: u64,
    pub semantic_hits: u64,
    pub semantic_misses: u64,
    pub semantic_empty: u64,
    pub backend_queries: u64,
}

/// How far a counter went; 0 where it went back.
pub open spec fn gained(after: u64, before: u64) -> u64 {
    if after >= before {
        (after - before) as u64
    } else {
        0
    }
}

impl MetricSnapshot {
    /// How far the counters went since an earlier moment.
    pub fn diff(self, before: MetricSnapshot) -> (r: MetricDelta)
        ensures
            r == (MetricDelta {
                cache_hits: gained(self.cache_hits, before.cache_hits),
                cache_misses: gained(self.cache_misses, before.cache_misses),
                semantic_hits: gained(self.semantic_hits, before.semantic_hits),
                semantic_misses: gained(self.semantic_misses, before.semantic_misses),
                semantic_empty: gained(self.semantic_empty, before.semantic_empty),
                backend_queries: gained(self.backend_queries, before.backend_queries),
            }),
    {
        MetricDelta {
            cache_hits: self.cache_hits.saturating_sub(before.cache_hits),
            cache_misses: self.cache_misses.saturating_sub(before.cache_misses),
            semantic_hits: self.semantic_hits.saturating_sub(before.semantic_hits),
            semantic_misses: self.semantic_misses.saturating_sub(before.semantic_misses),
            semantic_empty: self.semantic_empty.saturating_sub(before.semantic_empty),
            backend_queries: self.backend_queries.saturating_sub(before.backend_queries),
        }
    }
}

/// How far the counters of a cache backend went.
pub fn counter_delta(
    after: CacheBackendCountersSnapshot,
    before: CacheBackendCountersSnapshot,
) -> (r: CacheBackendCountersSnapshot)
    ensures
        r == (CacheBackendCountersSnapshot {
            get: gained(after.get, before.get),
            insert: gained(after.insert, before.insert),
            get_or_insert: gained(after.get_or_insert, before.get_or_insert),
            invalidate_prefix: gained(after.invalidate_prefix, before.invalidate_prefix),
            clear: gained(after.clear, before.clear),
        }),
{
    CacheBackendCountersSnapshot {
        get: after.get.saturating_sub(before.get),
        insert: after.insert.saturating_sub(before.insert),
        get_or_insert: after.get_or_insert.saturating_sub(before.get_or_insert),
        invalidate_prefix: after.invalidate_prefix.saturating_sub(before.invalidate_prefix),
        clear: after.clear.saturating_sub(before.clear),
    }
}

/// How a query of the threshold sweep was answered.
pub open spec fn sweep_outcome(delta: MetricDelta) -> Seq<char> {
    if delta.semantic_hits > 0 {
        "semantic-hit"@
    } else if delta.semantic_misses > 0 {
        "semantic-miss"@
    } else if delta.semantic_empty > 0 {
        "empty-index"@
    } else if delta.cache_hits > 0 {
        "exact-hit"@
    } else {
        "backend"@
    }
}

/// How a query of the threshold sweep was answered.
pub fn outcome_label(delta: MetricDelta) -> (r: &'static str)
    ensures
        r@ == sweep_outcome(delta),
{
    if delta.semantic_hits > 0 {
        "semantic-hit"
    } else if delta.semantic_misses > 0 {
        "semantic-miss"
    } else if delta.semantic_empty > 0 {
        "empty-index"
    } else if delta.cache_hits > 0 {
        "exact-hit"
    } else {
        "backend"
    }
}

/// Whether a line of the metrics text is a sample of a metric, with these words
/// in its labels.
pub open spec fn is_sample(line: Seq<char>, metric: Seq<char>, words: Seq<Seq<char>>) -> bool {
    &&& !(line.len() > 0 && line[0] == '#')
    &&& metric.is_prefix_of(line)
    &&& forall|i: int| 0 <= i < words.len() ==> text::occurs(line, #[trigger] words[i])
}

fn sample_line(line: &str, metric: &str, words: &Vec<String>) -> (r: bool)
    ensures
        r == is_sample(line@, metric@, text::texts(words@)),
{
    let chars = text::chars_of(line);
    if chars.len() > 0 && chars[0] == '#' {
        return false;
    }
    if !text::begins_with(line, metric) {
        return false;
    }
    let ghost all = text::texts(words@);
    let mut i: usize = 0;
    while i < words.len()
        invariant
            i <= words@.len(),
            chars@ == line@,
            all == text::texts(words@),
            forall|k: int| 0 <= k < i ==> text::occurs(line@, #[trigger] all[k]),
        decreases words@.len() - i,
    {
        assert(all[i as int] == words@[i as int]@);
        if !text::contains(&chars, words[i].as_str()) {
            assert(!text::occurs(line@, all[i as int]));
            return false;
        }
        i = i + 1;
    }
    true
}

/// The value of the first sample of a metric at or behind line `i`; a sample
/// without a value ends the search.
pub open spec fn first_value(
    lines: Seq<Seq<char>>,
    metric: Seq<char>,
    words: Seq<Seq<char>>,
    i: int,
) -> Option<Seq<char>>
    decreases lines.len() - i,
{
    if i < 0 || i >= lines.len() {
        None
    } else if is_sample(lines[i], metric, words) {
        text::after_space(lines[i])
    } else {
        first_value(lines, metric, words, i + 1)
    }
}

/// The words that a label must hold: the label itself, unless it is empty.
pub open spec fn label_words(label: Seq<char>) -> Seq<Seq<char>> {
    if label.len() == 0 {
        Seq::empty()
    } else {
        seq![label]
    }
}

/// The text of the value of a metric, for a label; an empty label fits every
/// sample.
pub fn metric_value(body: &str, metric: &str, label: &str) -> (r: Option<String>)
    ensures
        text::text_opt(r) == first_value(
            text::lines_of(body@),
            metric@,
            label_words(label@),
            0,
        ),
{
    let lines = text::lines(body);
    let mut words: Vec<String> = Vec::new();
    if text::chars_of(label).len() > 0 {
        words.push(label.to_string());
    }
    assert(text::texts(words@) =~= label_words(label@));
    let ghost all = text::lines_of(body@);
    assert(lines@.len() == all.len()) by {
        assert(text::texts(lines@).len() == all.len());
    }
    let mut i: usize = 0;
    while i < lines.len()
        invariant
            i <= lines@.len(),
            lines@.len() == all.len(),
            all == text::lines_of(body@),
            text::texts(lines@) == all,
            text::texts(words@) == label_words(label@),
            first_value(all, metric@, label_words(label@), 0) == first_value(
                all,
                metric@,
                label_words(label@),
                i as int,
            ),
        decreases lines@.len() - i,
    {
        assert(text::texts(lines@)[i as int] == all[i as int]);
        if sample_line(lines[i].as_str(), metric, &words) {
            return text::last_word(lines[i].as_str());
        }
        i = i + 1;
    }
    None
}

/// The value of the first sample of a metric that has one, at or behind line
/// `i`.
pub open spec fn first_given_value(
    lines: Seq<Seq<char>>,
    metric: Seq<char>,
    words: Seq<Seq<char>>,
    i: int,
) -> Option<Seq<char>>
    decreases lines.len() - i,
{
    if i < 0 || i >= lines.len() {
        None
    } else if is_sample(lines[i], metric, words) && text::after_space(lines[i]) is Some {
        text::after_space(lines[i])
    } else {
        first_given_value(lines, metric, words, i + 1)
    }
}

/// The text of the value of a metric whose labels hold all of some words.
pub fn labelled_value(body: &str, metric: &str, words: &Vec<String>) -> (r: Option<String>)
    ensures
        text::text_opt(r) == first_given_value(
            text::lines_of(body@),
            metric@,
            text::texts(words@),
            0,
        ),
{
    let lines = text::lines(body);
    let ghost all = text::lines_of(body@);
    assert(lines@.len() == all.len()) by {
        assert(text::texts(lines@).len() == all.len());
    }
    let mut i: usize = 0;
    while i < lines.len()
        invariant
            i <= lines@.len(),
            lines@.len() == all.len(),
            all == text::lines_of(body@),
            text::texts(lines@) == all,
            first_given_value(all, metric@, text::texts(words@), 0) == first_given_value(
                all,
                metric@,
                text::texts(words@),
                i as int,
            ),
        decreases lines@.len() - i,
    {
        assert(text::texts(lines@)[i as int] == all[i as int]);
        if sample_line(lines[i].as_str(), metric, words) {
            let word = text::last_word(lines[i].as_str());
            if word.is_some() {
                return word;
            }
        }
        i = i + 1;
    }
    None
}

/// The label of a namespace as the metrics text writes it.
pub open spec fn namespace_label(ns: Seq<char>) -> Seq<char> {
    "namespace=\""@ + ns + "\""@
}

/// The label of a namespace as the metrics text writes it.
pub fn label_of(ns: &str) -> (r: String)
    ensures
        r@ == namespace_label(ns@),
{
    text::cat3("namespace=\"", ns, "\"")
}

/// The values of every sample of a metric among some lines.
pub open spec fn all_values(lines: Seq<Seq<char>>, metric: Seq<char>, words: Seq<Seq<char>>) -> Seq<
    Seq<char>,
>
    decreases lines.len(),
{
    if lines.len() == 0 {
        Seq::empty()
    } else {
        let front = all_values(lines.drop_last(), metric, words);
        if is_sample(lines.last(), metric, words) && text::after_space(lines.last()) is Some {
            front.push(text::after_space(lines.last())->0)
        } else {
            front
        }
    }
}

/// The texts of the values of the request counter of a namespace, one for each
/// operation.
pub fn s3_request_values(body: &str, ns: &str) -> (r: Vec<String>)
    ensures
        text::texts(r@) == all_values(
            text::lines_of(body@),
            "firnflow_s3_requests_total{"@,
            seq![namespace_label(ns@)],
        ),
{
    let lines = text::lines(body);
    let words: Vec<String> = vec![label_of(ns)];
    let ghost all = text::lines_of(body@);
    let ghost metric = "firnflow_s3_requests_total{"@;
    let ghost w = seq![namespace_label(ns@)];
    assert(text::texts(words@) =~= w);
    assert(lines@.len() == all.len()) by {
        assert(text::texts(lines@).len() == all.len());
    }
    let mut r: Vec<String> = Vec::new();
    let mut i: usize = 0;
    assert(text::texts(r@) =~= all_values(all.take(0), metric, w));
    while i < lines.len()
        invariant
            i <= lines@.len(),
            lines@.len() == all.len(),
            text::texts(lines@) == all,
            text::texts(words@) == w,
            metric == "firnflow_s3_requests_total{"@,
            text::texts(r@) == all_values(all.take(i as int), metric, w),
        decreases lines@.len() - i,
    {
        let ghost done = text::texts(r@);
        proof {
            assert(text::texts(lines@)[i as int] == all[i as int]);
            assert(all.take(i + 1).drop_last() =~= all.take(i as int));
            assert(all.take(i + 1).last() == all[i as int]);
        }
        if sample_line(lines[i].as_str(), "firnflow_s3_requests_total{", &words) {
            if let Some(word) = text::last_word(lines[i].as_str()) {
                let ghost t = word@;
                r.push(word);
                assert(text::texts(r@) =~= done.push(t));
            }
        }
        i = i + 1;
    }
    assert(all.take(i as int) =~= all);
    r
}

/// The sum of some counts, as far as it can be counted.
pub open spec fn total_of(counts: Seq<u64>) -> u64
    decreases counts.len(),
{
    if counts.len() == 0 {
        0
    } else {
        let sum = total_of(counts.drop_last()) + counts.last();
        if sum > u64::MAX {
            u64::MAX
        } else {
            sum as u64
        }
    }
}

/// The sum of the counts of a namespace's requests.
pub fn sum_s3_requests(counts: &Vec<u64>) -> (r: u64)
    ensures
        r == total_of(counts@),
{
    let mut total: u64 = 0;
    let mut i: usize = 0;
    while i < counts.len()
        invariant
            i <= counts@.len(),
            total == total_of(counts@.take(i as int)),
        decreases counts@.len() - i,
    {
        assert(counts@.take(i + 1).drop_last() =~= counts@.take(i as int));
        total = total.saturating_add(counts[i]);
        i = i + 1;
    }
    assert(counts@.take(i as int) =~= counts@);
    total
}

// ------------------------------------------------------------ the search
/// Whether a result set has a hit with this id.
pub open spec fn has_id(set: QueryResultSet, id: u64) -> bool {
    exists|i: int| 0 <= i < set.results@.len() && (#[trigger] set.results@[i]).id == id
}

/// How many of the first `n` hits of `b` are hits of `a` too.
pub open spec fn overlap(a: QueryResultSet, b: QueryResultSet, n: int) -> nat
    decreases n,
{
    if n <= 0 {
        0
    } else {
        overlap(a, b, n - 1) + (if has_id(a, b.results@[n - 1].id) {
            1nat
        } else {
            0
        })
    }
}

/// How many hits of `b` are hits of `a` too.
pub fn overlap_count(a: &QueryResultSet, b: &QueryResultSet) -> (r: usize)
    ensures
        r == overlap(*a, *b, b.results@.len() as int),
{
    let mut count: usize = 0;
    let mut i: usize = 0;
    while i < b.results.len()
        invariant
            i <= b.results@.len(),
            count <= i,
            count == overlap(*a, *b, i as int),
        decreases b.results@.len() - i,
    {
        let id: u64 = b.results[i].id;
        let mut found = false;
        let mut j: usize = 0;
        while j < a.results.len()
            invariant
                j <= a.results@.len(),
                found <==> exists|k: int| 0 <= k < j && (#[trigger] a.results@[k]).id == id,
            decreases a.results@.len() - j,
        {
            if a.results[j].id == id {
                found = true;
            }
            j = j + 1;
        }
        if found {
            count = count + 1;
        }
        i = i + 1;
    }
    count
}

/// Whether `n` is the largest number up to `most` that divides `dim`.
pub open spec fn is_largest_divisor(n: int, dim: int, most: int) -> bool {
    1 <= n <= most && dim % n == 0 && forall|k: int| n < k <= most ==> #[trigger] (dim % k) != 0
}

/// Sub-vectors of an index on vectors of this width: the largest number up to
/// a sixteenth of the width, and at least 1, that divides it.
pub fn default_num_sub_vectors(dim: usize) -> (r: u32)
    ensures
        exists|n: usize|
            r == #[trigger] (n as u32) && is_largest_divisor(
                n as int,
                dim as int,
                if dim / 16 > 1 {
                    dim as int / 16
                } else {
                    1
                },
            ),
{
    let target: usize = if dim / 16 > 1 {
        dim / 16
    } else {
        1
    };
    let mut candidate: usize = target;
    while candidate > 1 && dim % candidate != 0
        invariant
            1 <= candidate <= target,
            forall|k: int| candidate < k <= target ==> #[trigger] (dim as int % k) != 0,
        decreases candidate,
    {
        candidate = candidate - 1;
    }
    assert(is_largest_divisor(candidate as int, dim as int, target as int));
    candidate as u32
}

/// Sub-vectors of an index where the width is a multiple of 16: one for each
/// sixteen columns, and at least 1.
pub fn sixteenth(dim: usize) -> (r: u32)
    ensures
        r == (if dim / 16 > 1 {
            (dim / 16) as u32
        } else {
            1
        }),
{
    if dim / 16 > 1 {
        (dim / 16) as u32
    } else {
        1
    }
}

/// A query of the profile: a vector search, with the semantic cache where a
/// threshold is given.
pub fn vector_query(
    vector: Vec<u32>,
    k: usize,
    nprobes: usize,
    semantic_threshold: Option<Similarity>,
) -> (r: QueryRequest)
    ensures
        r == (QueryRequest {
            vector,
            vectors: None,
            k,
            nprobes: Some(nprobes),
            text: None,
            filter: None,
            include_vector: true,
            semantic_cache: match semantic_threshold {
                Some(threshold) => Some(
                    SemanticCacheRequest { enabled: true, min_similarity: Some(threshold) },
                ),
                None => None,
            },
        }),
{
    let semantic_cache = match semantic_threshold {
        Some(threshold) => Some(
            SemanticCacheRequest { enabled: true, min_similarity: Some(threshold) },
        ),
        None => None,
    };
    QueryRequest {
        vector,
        vectors: None,
        k,
        nprobes: Some(nprobes),
        text: None,
        filter: None,
        include_vector: true,
        semantic_cache,
    }
}

// ----------------------------------------------------- index-cache bench
/// Whether the namespace of an index-cache benchmark is written anew: `true`
/// where it does not exist, `false` where it is there with the right width. One
/// of another width is refused.
pub fn needs_seeding(namespace: &str, found: Option<usize>, dim: usize) -> (r: Result<
    bool,
    ConfigError,
>)
    ensures
        match (found, r) {
            (None, Ok(seed)) => seed,
            (Some(d), Ok(seed)) => d == dim && !seed,
            (Some(d), Err(e)) => d != dim && e@ == config::fault(
                "namespace `"@ + namespace@ + "` already exists with dim="@ + text::dec(d as nat)
                    + ", but the bench was invoked with FIRNFLOW_BENCH_DIM="@ + text::dec(
                    dim as nat,
                ) + ". Pick a different FIRNFLOW_BENCH_INDEX_CACHE_NS or matching dim."@,
            ),
            (None, Err(_)) => false,
        },
{
    match found {
        None => Ok(true),
        Some(d) => if d == dim {
            Ok(false)
        } else {
            Err(
                config::refuse(
                    text::cat7(
                        "namespace `",
                        namespace,
                        "` already exists with dim=",
                        text::dec_text(d as u64).as_str(),
                        ", but the bench was invoked with FIRNFLOW_BENCH_DIM=",
                        text::dec_text(dim as u64).as_str(),
                        ". Pick a different FIRNFLOW_BENCH_INDEX_CACHE_NS or matching dim.",
                    ),
                ),
            )
        },
    }
}

/// Warmup queries of a mode. Only a warm index cache is warmed: in the other
/// modes they would warm the cache of the library below.
pub fn warmup_count(mode: Mode, warmup_queries: usize) -> (r: usize)
    ensures
        r == (if mode is WarmIndexCache {
            warmup_queries
        } else {
            0
        }),
{
    match mode {
        Mode::WarmIndexCache => warmup_queries,
        _ => 0,
    }
}
// ------------------------------------------------------------------ laws
/// A mode has one name, and no other text asks for it.
pub proof fn law_modes_go_by_their_names(s: Seq<char>)
    ensures
        mode_asked(s) == Ok::<Mode, FaultView>(Mode::CurrentFirn) <==> s == "current-firn"@,
        mode_asked(s) == Ok::<Mode, FaultView>(Mode::WarmIndexCache) <==> s == "warm-index-cache"@,
        mode_asked(s) == Ok::<Mode, FaultView>(Mode::CacheDisabledCold) <==> s
            == "cache-disabled-cold"@,
        mode_asked(s) matches Err(e) ==> e.cause is None && text::occurs(
            e.message,
            text::debug_text(s),
        ),
        mode_asked(s) matches Ok(mode) ==> mode_name(mode) == s,
{
    reveal_strlit("current-firn");
    reveal_strlit("warm-index-cache");
    reveal_strlit("cache-disabled-cold");
    assert("current-firn"@.len() == 12);
    assert("warm-index-cache"@.len() == 16);
    assert("cache-disabled-cold"@.len() == 19);
    if let Err(e) = mode_asked(s) {
        text::lemma_occurs_inside(
            "unknown bench mode "@,
            text::debug_text(s),
            ": expected one of current-firn, warm-index-cache, cache-disabled-cold"@,
        );
    }
}

/// A benchmark without a mode measures the result cache alone; blanks round a
/// mode do not count.
pub proof fn law_modes_come_from_their_variable(env: Pairs)
    ensures
        ({
            let v = config::value_of(env, "FIRNFLOW_BENCH_INDEX_CACHE_MODE"@);
            &&& v is None || text::trimmed(v->0).len() == 0 ==> env_mode(env) == Ok::<
                Mode,
                FaultView,
            >(Mode::CurrentFirn)
            &&& v is Some && text::trimmed(v->0) == "warm-index-cache"@ ==> env_mode(env) == Ok::<
                Mode,
                FaultView,
            >(Mode::WarmIndexCache)
            &&& v is Some && text::trimmed(v->0) == "cache-disabled-cold"@ ==> env_mode(env)
                == Ok::<Mode, FaultView>(Mode::CacheDisabledCold)
            &&& v is Some && text::trimmed(v->0) == "current-firn"@ ==> env_mode(env) == Ok::<
                Mode,
                FaultView,
            >(Mode::CurrentFirn)
        }),
{
    law_modes_go_by_their_names("current-firn"@);
    law_modes_go_by_their_names("warm-index-cache"@);
    law_modes_go_by_their_names("cache-disabled-cold"@);
    reveal_strlit("current-firn");
    reveal_strlit("warm-index-cache");
    reveal_strlit("cache-disabled-cold");
    assert("current-firn"@.len() > 0 && "warm-index-cache"@.len() > 0
        && "cache-disabled-cold"@.len() > 0);
}

/// A storage URI decides over a bucket: what the bucket says then does not
/// matter. A bucket alone names a bucket of S3, without a prefix. One of the two
/// must be there, and what is there must be valid.
pub proof fn law_bench_uris_decide_over_buckets(a: Pairs, b: Pairs)
    requires
        config::value_of(a, "FIRNFLOW_STORAGE_URI"@) == config::value_of(
            b,
            "FIRNFLOW_STORAGE_URI"@,
        ),
    ensures
        ({
            let uri = config::given(config::value_of(a, "FIRNFLOW_STORAGE_URI"@));
            let bucket = config::given(config::value_of(a, "FIRNFLOW_S3_BUCKET"@));
            &&& uri is Some ==> bench_root(a) == bench_root(b)
            &&& uri is Some && storage_root::parse_root(uri->0) is Some ==> bench_root(a) == Ok::<
                RootView,
                FaultView,
            >(storage_root::parse_root(uri->0)->0)
            &&& uri is Some && storage_root::parse_root(uri->0) is None ==> bench_root(a) is Err
            &&& uri is None && bucket is Some && storage_root::is_bucket(bucket->0) ==> bench_root(a)
                == Ok::<RootView, FaultView>((Scheme::S3, bucket->0, None))
            &&& uri is None && bucket is Some && !storage_root::is_bucket(bucket->0)
                ==> bench_root(a) is Err
            &&& uri is None && bucket is None ==> bench_root(a) is Err
        }),
{
}

/// A setting that is there counts as it is, or, where it is read trimmed, without
/// the blanks round it; one that is not there, or blank where it is read trimmed,
/// counts as its default.
pub proof fn law_settings_are_read_in_their_style(
    env: Pairs,
    style: Style,
    key: Seq<char>,
    default: Seq<char>,
)
    ensures
        config::value_of(env, key) is None ==> setting(env, style, key, default) == default,
        config::value_of(env, key) matches Some(v) ==> {
            &&& (style is Plain || style is Quoted ==> setting(env, style, key, default) == v)
            &&& (style is Trimmed && text::trimmed(v).len() > 0 ==> setting(
                env,
                style,
                key,
                default,
            ) == text::trimmed(v))
            &&& (style is Trimmed && text::trimmed(v).len() == 0 ==> setting(
                env,
                style,
                key,
                default,
            ) == default)
        },
{
}

/// A numeral that a variable holds is read as its number, in every style. What is
/// no number up to the largest size is refused: the message names the variable,
/// and says what is wrong in the message itself where values are quoted, as the
/// cause elsewhere.
pub proof fn law_sizes_read_back(env: Pairs, style: Style, entry: (Seq<char>, Seq<char>), n: nat)
    requires
        n <= usize::MAX,
    ensures
        setting(env, style, entry.0, entry.1) == text::dec(n) ==> size(env, style, entry) == Ok::<
            nat,
            FaultView,
        >(n),
        size(env, style, entry) matches Ok(m) ==> m <= usize::MAX,
        ({
            let v = setting(env, style, entry.0, entry.1);
            let wrong = text::number_complaint(v, usize::MAX as nat);
            size(env, style, entry) matches Err(e) ==> {
                &&& entry.0.is_prefix_of(e.message)
                &&& (style is Quoted ==> e.cause is None && wrong.is_suffix_of(e.message)
                    && text::occurs(e.message, text::debug_text(v)))
                &&& (!(style is Quoted) ==> e.message == entry.0 && e.cause == Some(wrong))
            }
        }),
{
    text::law_numerals_read_back(n, usize::MAX as nat);
    let v = setting(env, style, entry.0, entry.1);
    let wrong = text::number_complaint(v, usize::MAX as nat);
    if let Err(e) = size(env, style, entry) {
        if style is Quoted {
            text::lemma_occurs_inside(entry.0 + "="@, text::debug_text(v), ": "@ + wrong);
            assert(e.message =~= entry.0 + "="@ + text::debug_text(v) + (": "@ + wrong));
            assert(entry.0 =~= e.message.subrange(0, entry.0.len() as int));
            assert(wrong =~= e.message.subrange(
                e.message.len() - wrong.len(),
                e.message.len() as int,
            ));
        } else {
            assert(entry.0 =~= e.message.subrange(0, entry.0.len() as int));
        }
    }
}

/// What a size that is read trimmed comes to: the number that its variable writes
/// between the blanks, or, where there is none, the default.
pub open spec fn comes_trimmed_to(env: Pairs, key: Seq<char>, default: nat, n: nat) -> bool {
    &&& config::given(config::value_of(env, key)) matches Some(v) ==> text::parsed(
        v,
        usize::MAX as nat,
    ) == Some(n)
    &&& config::given(config::value_of(env, key)) is None ==> n == default
}

proof fn lemma_entry(
    env: Pairs,
    style: Style,
    table: Pairs,
    sizes: Seq<usize>,
    i: int,
    key: Seq<char>,
    text: Seq<char>,
    default: nat,
)
    requires
        !(style is Trimmed),
        sizes_are(env, style, table, sizes),
        0 <= i < table.len(),
        table[i] == (key, text),
        text::parsed(text, usize::MAX as nat) == Some(default),
    ensures
        config::comes_to(env, key, default, usize::MAX as nat, sizes[i] as nat),
{
    assert(size(env, style, table[i]) == Ok::<nat, FaultView>(sizes[i] as nat));
}

proof fn lemma_trimmed_entry(
    env: Pairs,
    table: Pairs,
    sizes: Seq<usize>,
    i: int,
    key: Seq<char>,
    text: Seq<char>,
    default: nat,
)
    requires
        sizes_are(env, Style::Trimmed, table, sizes),
        0 <= i < table.len(),
        table[i] == (key, text),
        text::parsed(text, usize::MAX as nat) == Some(default),
    ensures
        comes_trimmed_to(env, key, default, sizes[i] as nat),
{
    assert(size(env, Style::Trimmed, table[i]) == Ok::<nat, FaultView>(sizes[i] as nat));
}

/// The number that a text writes, where it writes one.
proof fn lemma_written(s: Seq<char>, n: nat)
    requires
        s == text::dec(n),
        n <= 0xffff_ffff,
    ensures
        text::parsed(s, usize::MAX as nat) == Some(n),
{
    text::law_numerals_read_back(n, usize::MAX as nat);
}

proof fn lemma_default_32()
    ensures
        text::parsed("32"@, usize::MAX as nat) == Some(32nat),
{
    reveal_strlit("32");
    reveal_with_fuel(text::dec, 3);
    assert("32"@ =~= text::dec(32));
    lemma_written("32"@, 32);
}

proof fn lemma_default_100()
    ensures
        text::parsed("100"@, usize::MAX as nat) == Some(100nat),
{
    reveal_strlit("100");
    reveal_with_fuel(text::dec, 4);
    assert("100"@ =~= text::dec(100));
    lemma_written("100"@, 100);
}

proof fn lemma_default_50()
    ensures
        text::parsed("50"@, usize::MAX as nat) == Some(50nat),
{
    reveal_strlit("50");
    reveal_with_fuel(text::dec, 3);
    assert("50"@ =~= text::dec(50));
    lemma_written("50"@, 50);
}

proof fn lemma_default_16()
    ensures
        text::parsed("16"@, usize::MAX as nat) == Some(16nat),
{
    reveal_strlit("16");
    reveal_with_fuel(text::dec, 3);
    assert("16"@ =~= text::dec(16));
    lemma_written("16"@, 16);
}

proof fn lemma_default_256()
    ensures
        text::parsed("256"@, usize::MAX as nat) == Some(256nat),
{
    reveal_strlit("256");
    reveal_with_fuel(text::dec, 4);
    assert("256"@ =~= text::dec(256));
    lemma_written("256"@, 256);
}

proof fn lemma_default_20()
    ensures
        text::parsed("20"@, usize::MAX as nat) == Some(20nat),
{
    reveal_strlit("20");
    reveal_with_fuel(text::dec, 3);
    assert("20"@ =~= text::dec(20));
    lemma_written("20"@, 20);
}

proof fn lemma_default_1536()
    ensures
        text::parsed("1536"@, usize::MAX as nat) == Some(1_536nat),
{
    reveal_strlit("1536");
    reveal_with_fuel(text::dec, 5);
    assert("1536"@ =~= text::dec(1_536));
    lemma_written("1536"@, 1_536);
}

proof fn lemma_default_1000000()
    ensures
        text::parsed("1000000"@, usize::MAX as nat) == Some(1_000_000nat),
{
    reveal_strlit("1000000");
    reveal_with_fuel(text::dec, 8);
    assert("1000000"@ =~= text::dec(1_000_000));
    lemma_written("1000000"@, 1_000_000);
}

proof fn lemma_default_1000()
    ensures
        text::parsed("1000"@, usize::MAX as nat) == Some(1_000nat),
{
    reveal_strlit("1000");
    reveal_with_fuel(text::dec, 5);
    assert("1000"@ =~= text::dec(1_000));
    lemma_written("1000"@, 1_000);
}

proof fn lemma_default_10()
    ensures
        text::parsed("10"@, usize::MAX as nat) == Some(10nat),
{
    reveal_strlit("10");
    reveal_with_fuel(text::dec, 3);
    assert("10"@ =~= text::dec(10));
    lemma_written("10"@, 10);
}

proof fn lemma_default_1024()
    ensures
        text::parsed("1024"@, usize::MAX as nat) == Some(1_024nat),
{
    reveal_strlit("1024");
    reveal_with_fuel(text::dec, 5);
    assert("1024"@ =~= text::dec(1_024));
    lemma_written("1024"@, 1_024);
}

proof fn lemma_default_10240()
    ensures
        text::parsed("10240"@, usize::MAX as nat) == Some(10_240nat),
{
    reveal_strlit("10240");
    reveal_with_fuel(text::dec, 6);
    assert("10240"@ =~= text::dec(10_240));
    lemma_written("10240"@, 10_240);
}

proof fn lemma_default_512()
    ensures
        text::parsed("512"@, usize::MAX as nat) == Some(512nat),
{
    reveal_strlit("512");
    reveal_with_fuel(text::dec, 4);
    assert("512"@ =~= text::dec(512));
    lemma_written("512"@, 512);
}

proof fn lemma_default_10000()
    ensures
        text::parsed("10000"@, usize::MAX as nat) == Some(10_000nat),
{
    reveal_strlit("10000");
    reveal_with_fuel(text::dec, 6);
    assert("10000"@ =~= text::dec(10_000));
    lemma_written("10000"@, 10_000);
}

proof fn lemma_default_200()
    ensures
        text::parsed("200"@, usize::MAX as nat) == Some(200nat),
{
    reveal_strlit("200");
    reveal_with_fuel(text::dec, 4);
    assert("200"@ =~= text::dec(200));
    lemma_written("200"@, 200);
}

/// Every size of the cold-against-warm benchmark comes from the variable of its
/// name, or is its default.
#[verifier::spinoff_prover]
pub proof fn law_bench_sizes_come_from_their_variables(
    env: Pairs,
    dim: usize,
    rows: usize,
    queries: usize,
    cache_ram_mb: usize,
    cache_nvme_mb: usize,
    nprobes: usize,
)
    requires
        sizes_are(
            env,
            Style::Plain,
            bench_table(),
            seq![dim, rows, queries, cache_ram_mb, cache_nvme_mb, nprobes],
        ),
    ensures
        config::comes_to(env, "FIRNFLOW_BENCH_DIM"@, 32, usize::MAX as nat, dim as nat),
        config::comes_to(env, "FIRNFLOW_BENCH_ROWS"@, 100, usize::MAX as nat, rows as nat),
        config::comes_to(env, "FIRNFLOW_BENCH_QUERIES"@, 50, usize::MAX as nat, queries as nat),
        config::comes_to(env, "FIRNFLOW_BENCH_CACHE_RAM_MB"@, 16, usize::MAX as nat, cache_ram_mb as nat),
        config::comes_to(env, "FIRNFLOW_BENCH_CACHE_NVME_MB"@, 256, usize::MAX as nat, cache_nvme_mb as nat),
        config::comes_to(env, "FIRNFLOW_BENCH_INDEX_NPROBES"@, 20, usize::MAX as nat, nprobes as nat),
{
    lemma_default_16();
    lemma_default_20();
    lemma_default_32();
    lemma_default_50();
    lemma_default_100();
    lemma_default_256();
    let t = bench_table();
    let sizes = seq![dim, rows, queries, cache_ram_mb, cache_nvme_mb, nprobes];
    lemma_entry(env, Style::Plain, t, sizes, 0, "FIRNFLOW_BENCH_DIM"@, "32"@, 32);
    lemma_entry(env, Style::Plain, t, sizes, 1, "FIRNFLOW_BENCH_ROWS"@, "100"@, 100);
    lemma_entry(env, Style::Plain, t, sizes, 2, "FIRNFLOW_BENCH_QUERIES"@, "50"@, 50);
    lemma_entry(env, Style::Plain, t, sizes, 3, "FIRNFLOW_BENCH_CACHE_RAM_MB"@, "16"@, 16);
    lemma_entry(env, Style::Plain, t, sizes, 4, "FIRNFLOW_BENCH_CACHE_NVME_MB"@, "256"@, 256);
    lemma_entry(env, Style::Plain, t, sizes, 5, "FIRNFLOW_BENCH_INDEX_NPROBES"@, "20"@, 20);
}

/// Every size of the index-cache benchmark comes from the variable of its name,
/// without the blanks round it, or is its default.
#[verifier::spinoff_prover]
pub proof fn law_index_bench_sizes_come_from_their_variables(
    env: Pairs,
    dim: usize,
    rows: usize,
    measure_queries: usize,
    warmup_queries: usize,
    k: usize,
    nprobes: usize,
    result_cache_ram_mb: usize,
    result_cache_nvme_mb: usize,
    index_cache_ram_mb: usize,
    index_cache_nvme_mb: usize,
)
    requires
        sizes_are(
            env,
            Style::Trimmed,
            index_table(),
            seq![dim, rows, measure_queries, warmup_queries, k, nprobes, result_cache_ram_mb, result_cache_nvme_mb, index_cache_ram_mb, index_cache_nvme_mb],
        ),
    ensures
        comes_trimmed_to(env, "FIRNFLOW_BENCH_DIM"@, 1_536, dim as nat),
        comes_trimmed_to(env, "FIRNFLOW_BENCH_ROWS"@, 1_000_000, rows as nat),
        comes_trimmed_to(env, "FIRNFLOW_BENCH_QUERIES"@, 1_000, measure_queries as nat),
        comes_trimmed_to(env, "FIRNFLOW_BENCH_WARMUP"@, 100, warmup_queries as nat),
        comes_trimmed_to(env, "FIRNFLOW_BENCH_K"@, 10, k as nat),
        comes_trimmed_to(env, "FIRNFLOW_BENCH_INDEX_NPROBES"@, 20, nprobes as nat),
        comes_trimmed_to(env, "FIRNFLOW_BENCH_RESULT_CACHE_RAM_MB"@, 16, result_cache_ram_mb as nat),
        comes_trimmed_to(env, "FIRNFLOW_BENCH_RESULT_CACHE_NVME_MB"@, 256, result_cache_nvme_mb as nat),
        comes_trimmed_to(env, "FIRNFLOW_BENCH_INDEX_CACHE_RAM_MB"@, 1_024, index_cache_ram_mb as nat),
        comes_trimmed_to(env, "FIRNFLOW_BENCH_INDEX_CACHE_NVME_MB"@, 10_240, index_cache_nvme_mb as nat),
{
    lemma_default_10();
    lemma_default_16();
    lemma_default_20();
    lemma_default_100();
    lemma_default_256();
    lemma_default_1000();
    lemma_default_1024();
    lemma_default_1536();
    lemma_default_10240();
    lemma_default_1000000();
    let t = index_table();
    let sizes = seq![dim, rows, measure_queries, warmup_queries, k, nprobes, result_cache_ram_mb, result_cache_nvme_mb, index_cache_ram_mb, index_cache_nvme_mb];
    lemma_trimmed_entry(env, t, sizes, 0, "FIRNFLOW_BENCH_DIM"@, "1536"@, 1_536);
    lemma_trimmed_entry(env, t, sizes, 1, "FIRNFLOW_BENCH_ROWS"@, "1000000"@, 1_000_000);
    lemma_trimmed_entry(env, t, sizes, 2, "FIRNFLOW_BENCH_QUERIES"@, "1000"@, 1_000);
    lemma_trimmed_entry(env, t, sizes, 3, "FIRNFLOW_BENCH_WARMUP"@, "100"@, 100);
    lemma_trimmed_entry(env, t, sizes, 4, "FIRNFLOW_BENCH_K"@, "10"@, 10);
    lemma_trimmed_entry(env, t, sizes, 5, "FIRNFLOW_BENCH_INDEX_NPROBES"@, "20"@, 20);
    lemma_trimmed_entry(env, t, sizes, 6, "FIRNFLOW_BENCH_RESULT_CACHE_RAM_MB"@, "16"@, 16);
    lemma_trimmed_entry(env, t, sizes, 7, "FIRNFLOW_BENCH_RESULT_CACHE_NVME_MB"@, "256"@, 256);
    lemma_trimmed_entry(env, t, sizes, 8, "FIRNFLOW_BENCH_INDEX_CACHE_RAM_MB"@, "1024"@, 1_024);
    lemma_trimmed_entry(env, t, sizes, 9, "FIRNFLOW_BENCH_INDEX_CACHE_NVME_MB"@, "10240"@, 10_240);
}

/// Every size of the profile comes from the variable of its name, or is its
/// default.
#[verifier::spinoff_prover]
pub proof fn law_profile_sizes_come_from_their_variables(
    env: Pairs,
    dim: usize,
    rows: usize,
    reps: usize,
    k: usize,
    nprobes: usize,
)
    requires
        sizes_are(
            env,
            Style::Quoted,
            profile_table(),
            seq![dim, rows, reps, k, nprobes],
        ),
    ensures
        config::comes_to(env, "FIRNFLOW_BENCH_DIM"@, 512, usize::MAX as nat, dim as nat),
        config::comes_to(env, "FIRNFLOW_BENCH_ROWS"@, 10_000, usize::MAX as nat, rows as nat),
        config::comes_to(env, "FIRNFLOW_SEM_REPS"@, 200, usize::MAX as nat, reps as nat),
        config::comes_to(env, "FIRNFLOW_SEM_K"@, 10, usize::MAX as nat, k as nat),
        config::comes_to(env, "FIRNFLOW_BENCH_INDEX_NPROBES"@, 20, usize::MAX as nat, nprobes as nat),
{
    reveal(profile_table);
    lemma_default_10();
    lemma_default_20();
    lemma_default_200();
    lemma_default_512();
    lemma_default_10000();
    let t = profile_table();
    let sizes = seq![dim, rows, reps, k, nprobes];
    lemma_entry(env, Style::Quoted, t, sizes, 0, "FIRNFLOW_BENCH_DIM"@, "512"@, 512);
    lemma_entry(env, Style::Quoted, t, sizes, 1, "FIRNFLOW_BENCH_ROWS"@, "10000"@, 10_000);
    lemma_entry(env, Style::Quoted, t, sizes, 2, "FIRNFLOW_SEM_REPS"@, "200"@, 200);
    lemma_entry(env, Style::Quoted, t, sizes, 3, "FIRNFLOW_SEM_K"@, "10"@, 10);
    lemma_entry(env, Style::Quoted, t, sizes, 4, "FIRNFLOW_BENCH_INDEX_NPROBES"@, "20"@, 20);
}

/// Both sizes of the cache of the profile come from the variables of their names,
/// or are their defaults.
#[verifier::spinoff_prover]
pub proof fn law_profile_cache_sizes_come_from_their_variables(
    env: Pairs,
    cache_ram_mb: usize,
    cache_nvme_mb: usize,
)
    requires
        sizes_are(
            env,
            Style::Quoted,
            profile_cache_table(),
            seq![cache_ram_mb, cache_nvme_mb],
        ),
    ensures
        config::comes_to(env, "FIRNFLOW_BENCH_CACHE_RAM_MB"@, 16, usize::MAX as nat, cache_ram_mb as nat),
        config::comes_to(env, "FIRNFLOW_BENCH_CACHE_NVME_MB"@, 256, usize::MAX as nat, cache_nvme_mb as nat),
{
    reveal(profile_cache_table);
    lemma_default_16();
    lemma_default_256();
    let t = profile_cache_table();
    let sizes = seq![cache_ram_mb, cache_nvme_mb];
    lemma_entry(env, Style::Quoted, t, sizes, 0, "FIRNFLOW_BENCH_CACHE_RAM_MB"@, "16"@, 16);
    lemma_entry(env, Style::Quoted, t, sizes, 1, "FIRNFLOW_BENCH_CACHE_NVME_MB"@, "256"@, 256);
}

/// An S3 client of the index-cache benchmark is given what any other is, but for
/// the region: that is without the blanks round it.
pub proof fn law_trimmed_options_differ_in_the_region(env: Pairs, i: int)
    ensures
        trimmed_s3_options(env).len() == config::s3_options(env).len(),
        0 <= i < trimmed_s3_options(env).len() - 1 ==> trimmed_s3_options(env)[i]
            == config::s3_options(env)[i],
        trimmed_s3_options(env).last().0 == "aws_region"@ && config::s3_options(env).last().0
            == "aws_region"@,
        ({
            let region = config::value_of(env, "FIRNFLOW_S3_REGION"@);
            let given = trimmed_s3_options(env).last().1;
            &&& region is None || text::trimmed(region->0).len() == 0 ==> given == "us-east-1"@
            &&& region is Some && text::trimmed(region->0).len() > 0 ==> given == text::trimmed(
                region->0,
            )
        }),
{
}

/// An entry of a list is not empty, has no blank at either end and holds no
/// comma.
pub proof fn law_list_entries_are_words(v: Seq<char>, k: int)
    requires
        0 <= k < list_entries(v).len(),
    ensures
        list_entries(v)[k].len() > 0,
        !text::unicode_space(list_entries(v)[k][0]),
        !text::unicode_space(list_entries(v)[k].last()),
        forall|i: int|
            0 <= i < list_entries(v)[k].len() ==> #[trigger] list_entries(v)[k][i] != ',',
{
    let raw = text::pieces(v, ',');
    let trims = raw.map_values(|p: Seq<char>| text::trimmed(p));
    let kept = |p: Seq<char>| p.len() > 0;
    let e = list_entries(v)[k];
    trims.lemma_filter_contains_rev(kept, e);
    assert(trims.contains(e));
    assert(kept(e)) by {
        trims.filter_lemma(kept);
    }
    let j = choose|j: int| 0 <= j < trims.len() && trims[j] == e;
    text::law_pieces_make_up_the_text(v, ',');
    text::law_trimming_cuts_whitespace_alone(raw[j]);
    let (from, to) = choose|from: int, to: int|
        #![trigger raw[j].subrange(from, to)]
        0 <= from <= to <= raw[j].len() && text::trimmed(raw[j]) == raw[j].subrange(from, to) && (
        forall|i: int| 0 <= i < from ==> text::unicode_space(#[trigger] raw[j][i])) && (forall|
            i: int,
        |
            to <= i < raw[j].len() ==> text::unicode_space(#[trigger] raw[j][i]));
    assert forall|i: int| 0 <= i < e.len() implies #[trigger] e[i] != ',' by {
        assert(raw[j][from + i] == e[i]);
    }
}

/// The sidecar is filled to the sizes in the list that its variable holds, or to
/// five sizes from one entry to 1024.
pub proof fn law_fill_sizes_come_from_their_variable(env: Pairs)
    ensures
        config::value_of(env, "FIRNFLOW_SEM_FILL"@) matches Some(v) ==> fill_entries(env)
            == list_entries(v),
        config::value_of(env, "FIRNFLOW_SEM_FILL"@) is None ==> fill_entries(env) == seq![
            "1"@,
            "16"@,
            "128"@,
            "512"@,
            "1024"@,
        ],
{
    let list = seq!["1"@, "16"@, "128"@, "512"@, "1024"@];
    reveal_strlit("1");
    reveal_strlit("16");
    reveal_strlit("128");
    reveal_strlit("512");
    reveal_strlit("1024");
    reveal_strlit("1,16,128,512,1024");
    reveal_with_fuel(text::joined, 5);
    assert(list.drop_first() =~= seq!["16"@, "128"@, "512"@, "1024"@]);
    assert(list.drop_first().drop_first() =~= seq!["128"@, "512"@, "1024"@]);
    assert(list.drop_first().drop_first().drop_first() =~= seq!["512"@, "1024"@]);
    assert(list.drop_first().drop_first().drop_first().drop_first() =~= seq!["1024"@]);
    assert(text::joined(list, ',') =~= "1,16,128,512,1024"@);
    law_lists_read_back(list);
}

/// Bits stand for a threshold exactly where they are those of a positive number
/// up to one; a similarity to try may be zero as well, with either sign. The bits
/// of one are `0x3f80_0000`, and bits of positive numbers rise as the numbers do.
pub proof fn law_profile_similarities_are_in_range(bits: u32)
    ensures
        is_threshold(bits) <==> 0 < bits <= 0x3f80_0000,
        is_cosine(bits) <==> is_threshold(bits) || bits == 0 || bits == 0x8000_0000,
{
}

/// The profile takes exactly the values that make sense: something to measure, a
/// threshold in `(0, 1]`, similarities in `[0, 1]`, and a size to fill to. Where
/// it refuses some, it names the variable of the first.
pub proof fn law_profile_values_are_checked(
    dim: nat,
    rows: nat,
    reps: nat,
    k: nat,
    threshold: u32,
    sweep: Seq<u32>,
    fills: nat,
)
    ensures
        ({
            let swept = forall|i: int| 0 <= i < sweep.len() ==> is_cosine(#[trigger] sweep[i]);
            let sized = dim > 0 && rows > 0 && reps > 0 && k > 0;
            let r = range_fault(dim, rows, reps, k, threshold, sweep, fills);
            &&& r is None <==> sized && 0 < threshold <= 0x3f80_0000 && swept && fills > 0
            &&& dim == 0 ==> r is Some && "FIRNFLOW_BENCH_DIM"@.is_prefix_of(r->0)
            &&& dim > 0 && rows == 0 ==> r is Some && "FIRNFLOW_BENCH_ROWS"@.is_prefix_of(r->0)
            &&& dim > 0 && rows > 0 && reps == 0 ==> r is Some
                && "FIRNFLOW_SEM_REPS"@.is_prefix_of(r->0)
            &&& dim > 0 && rows > 0 && reps > 0 && k == 0 ==> r is Some
                && "FIRNFLOW_SEM_K"@.is_prefix_of(r->0)
            &&& sized && !is_threshold(threshold) ==> r is Some
                && "FIRNFLOW_SEM_THRESHOLD"@.is_prefix_of(r->0)
            &&& sized && is_threshold(threshold) && !swept ==> r is Some
                && "FIRNFLOW_SEM_COSINE_SWEEP"@.is_prefix_of(r->0)
            &&& sized && is_threshold(threshold) && swept && fills == 0 ==> r is Some
                && "FIRNFLOW_SEM_FILL"@.is_prefix_of(r->0)
        }),
{
    lemma_range_messages();
}

#[verifier::spinoff_prover]
proof fn lemma_range_messages()
    ensures
        "FIRNFLOW_BENCH_DIM"@.is_prefix_of("FIRNFLOW_BENCH_DIM must be > 0"@),
        "FIRNFLOW_BENCH_ROWS"@.is_prefix_of("FIRNFLOW_BENCH_ROWS must be > 0"@),
        "FIRNFLOW_SEM_REPS"@.is_prefix_of("FIRNFLOW_SEM_REPS must be > 0"@),
        "FIRNFLOW_SEM_K"@.is_prefix_of("FIRNFLOW_SEM_K must be > 0"@),
        "FIRNFLOW_SEM_THRESHOLD"@.is_prefix_of("FIRNFLOW_SEM_THRESHOLD must be in (0.0, 1.0]"@),
        "FIRNFLOW_SEM_COSINE_SWEEP"@.is_prefix_of(
            "FIRNFLOW_SEM_COSINE_SWEEP values must be in [0.0, 1.0]"@,
        ),
        "FIRNFLOW_SEM_FILL"@.is_prefix_of("FIRNFLOW_SEM_FILL must contain at least one entry"@),
{
    assert("FIRNFLOW_BENCH_DIM"@.is_prefix_of("FIRNFLOW_BENCH_DIM must be > 0"@)) by {
        reveal_strlit("FIRNFLOW_BENCH_DIM");
        reveal_strlit("FIRNFLOW_BENCH_DIM must be > 0");
        assert("FIRNFLOW_BENCH_DIM"@ =~= "FIRNFLOW_BENCH_DIM must be > 0"@.subrange(0, 18));
    }
    assert("FIRNFLOW_BENCH_ROWS"@.is_prefix_of("FIRNFLOW_BENCH_ROWS must be > 0"@)) by {
        reveal_strlit("FIRNFLOW_BENCH_ROWS");
        reveal_strlit("FIRNFLOW_BENCH_ROWS must be > 0");
        assert("FIRNFLOW_BENCH_ROWS"@ =~= "FIRNFLOW_BENCH_ROWS must be > 0"@.subrange(0, 19));
    }
    assert("FIRNFLOW_SEM_REPS"@.is_prefix_of("FIRNFLOW_SEM_REPS must be > 0"@)) by {
        reveal_strlit("FIRNFLOW_SEM_REPS");
        reveal_strlit("FIRNFLOW_SEM_REPS must be > 0");
        assert("FIRNFLOW_SEM_REPS"@ =~= "FIRNFLOW_SEM_REPS must be > 0"@.subrange(0, 17));
    }
    assert("FIRNFLOW_SEM_K"@.is_prefix_of("FIRNFLOW_SEM_K must be > 0"@)) by {
        reveal_strlit("FIRNFLOW_SEM_K");
        reveal_strlit("FIRNFLOW_SEM_K must be > 0");
        assert("FIRNFLOW_SEM_K"@ =~= "FIRNFLOW_SEM_K must be > 0"@.subrange(0, 14));
    }
    assert("FIRNFLOW_SEM_THRESHOLD"@.is_prefix_of("FIRNFLOW_SEM_THRESHOLD must be in (0.0, 1.0]"@)) by {
        reveal_strlit("FIRNFLOW_SEM_THRESHOLD");
        reveal_strlit("FIRNFLOW_SEM_THRESHOLD must be in (0.0, 1.0]");
        assert("FIRNFLOW_SEM_THRESHOLD"@
            =~= "FIRNFLOW_SEM_THRESHOLD must be in (0.0, 1.0]"@.subrange(0, 22));
    }
    assert("FIRNFLOW_SEM_COSINE_SWEEP"@.is_prefix_of(
        "FIRNFLOW_SEM_COSINE_SWEEP values must be in [0.0, 1.0]"@,
    )) by {
        reveal_strlit("FIRNFLOW_SEM_COSINE_SWEEP");
        reveal_strlit("FIRNFLOW_SEM_COSINE_SWEEP values must be in [0.0, 1.0]");
        assert("FIRNFLOW_SEM_COSINE_SWEEP"@
            =~= "FIRNFLOW_SEM_COSINE_SWEEP values must be in [0.0, 1.0]"@.subrange(0, 25));
    }
    assert("FIRNFLOW_SEM_FILL"@.is_prefix_of("FIRNFLOW_SEM_FILL must contain at least one entry"@)) by {
        reveal_strlit("FIRNFLOW_SEM_FILL");
        reveal_strlit("FIRNFLOW_SEM_FILL must contain at least one entry");
        assert("FIRNFLOW_SEM_FILL"@
            =~= "FIRNFLOW_SEM_FILL must contain at least one entry"@.subrange(0, 17));
    }
}

/// Putting samples into order loses none and adds none; the last is the largest.
pub proof fn law_ordered_samples_are_the_samples(samples: Seq<u64>, i: int)
    requires
        0 <= i < samples.len(),
    ensures
        ordered(samples).to_multiset() == samples.to_multiset(),
        ordered(samples).contains(samples[i]),
        samples[i] <= ordered(samples).last(),
        ordered(samples)[0] <= samples[i],
{
    let leq = |a: u64, b: u64| a <= b;
    samples.lemma_sort_by_ensures(leq);
    samples.to_multiset_ensures();
    ordered(samples).to_multiset_ensures();
    assert(samples.contains(samples[i]));
    assert(samples.to_multiset().contains(samples[i]));
    let j = choose|j: int| 0 <= j < ordered(samples).len() && ordered(samples)[j] == samples[i];
    law_percentiles_rise(samples, j, samples.len() - 1);
    law_percentiles_rise(samples, 0, j);
}

/// A benchmark writes every row once, ten thousand at a time: the batch with number
/// `i` begins at its multiple of that, is full unless it is the last, and no batch begins
/// behind the last row.
pub proof fn law_batches_cover_the_rows(ranges: Seq<(usize, usize)>, total: usize, i: int)
    requires
        are_batches(ranges, total),
        0 <= i < ranges.len(),
    ensures
        ranges[i].0 == i * 10_000,
        ranges[i].0 < total,
        ranges[i].1 == (if (i + 1) * 10_000 <= total {
            (i + 1) * 10_000
        } else {
            total as int
        }),
    decreases ranges.len() - i,
{
    lemma_batch_starts(ranges, total, i);
    if i + 1 < ranges.len() {
        law_batches_cover_the_rows(ranges, total, i + 1);
        assert(ranges[i].1 == ranges[i + 1].0);
    }
}

proof fn lemma_batch_starts(ranges: Seq<(usize, usize)>, total: usize, i: int)
    requires
        are_batches(ranges, total),
        0 <= i < ranges.len(),
    ensures
        ranges[i].0 == i * 10_000,
    decreases i,
{
    if i > 0 {
        lemma_batch_starts(ranges, total, i - 1);
        assert(ranges[i - 1].1 == ranges[i].0);
    }
}

/// What a counter gained is what it takes from one reading to the next; a counter
/// that went back gained nothing.
pub proof fn law_gains_lead_from_reading_to_reading(after: u64, before: u64)
    ensures
        after >= before ==> before + gained(after, before) == after,
        after < before ==> gained(after, before) == 0,
{
}

/// A query of the sweep counts as answered by the semantic cache where that hit,
/// as missed by it where that missed, as having met an empty one, as answered by
/// the result cache, and else by the backend: the first that fits.
pub proof fn law_sweep_outcomes_follow_the_counters(delta: MetricDelta)
    ensures
        sweep_outcome(delta) == "semantic-hit"@ <==> delta.semantic_hits > 0,
        sweep_outcome(delta) == "semantic-miss"@ <==> delta.semantic_hits == 0
            && delta.semantic_misses > 0,
        sweep_outcome(delta) == "empty-index"@ <==> delta.semantic_hits == 0
            && delta.semantic_misses == 0 && delta.semantic_empty > 0,
        sweep_outcome(delta) == "exact-hit"@ <==> delta.semantic_hits == 0 && delta.semantic_misses
            == 0 && delta.semantic_empty == 0 && delta.cache_hits > 0,
        sweep_outcome(delta) == "backend"@ <==> delta.semantic_hits == 0 && delta.semantic_misses
            == 0 && delta.semantic_empty == 0 && delta.cache_hits == 0,
{
    reveal_strlit("semantic-hit");
    reveal_strlit("semantic-miss");
    reveal_strlit("empty-index");
    reveal_strlit("exact-hit");
    reveal_strlit("backend");
    assert("semantic-hit"@.len() == 12 && "semantic-miss"@.len() == 13 && "empty-index"@.len() == 11
        && "exact-hit"@.len() == 9 && "backend"@.len() == 7);
}

/// Whether a line shows a metric: it is no comment, begins with the metric's name,
/// and has every one of some words in it.
pub open spec fn shows(line: Seq<char>, metric: Seq<char>, words: Seq<Seq<char>>) -> bool {
    &&& line.len() == 0 || line[0] != '#'
    &&& metric.len() <= line.len() && line.take(metric.len() as int) == metric
    &&& forall|k: int| 0 <= k < words.len() ==> text::occurs(line, #[trigger] words[k])
}

/// Only a line that shows the metric is a sample of it.
pub proof fn law_samples_show_their_metric(
    line: Seq<char>,
    metric: Seq<char>,
    words: Seq<Seq<char>>,
)
    ensures
        is_sample(line, metric, words) <==> shows(line, metric, words),
{
    assert(metric.len() <= line.len() ==> line.take(metric.len() as int) =~= line.subrange(
        0,
        metric.len() as int,
    ));
}

/// The value of a metric is what stands behind the last blank of the first line
/// that shows it; none where no line shows it.
pub proof fn law_values_come_from_the_first_sample(
    lines: Seq<Seq<char>>,
    metric: Seq<char>,
    words: Seq<Seq<char>>,
    n: int,
)
    requires
        0 <= n <= lines.len(),
        forall|j: int| 0 <= j < n ==> !shows(#[trigger] lines[j], metric, words),
    ensures
        n == lines.len() ==> first_value(lines, metric, words, 0) is None && first_given_value(
            lines,
            metric,
            words,
            0,
        ) is None,
        n < lines.len() && shows(lines[n], metric, words) ==> first_value(lines, metric, words, 0)
            == text::after_space(lines[n]),
        n < lines.len() && shows(lines[n], metric, words) && text::after_space(lines[n]) is Some
            ==> first_given_value(lines, metric, words, 0) == text::after_space(lines[n]),
{
    lemma_first_value(lines, metric, words, n, 0);
    if n < lines.len() {
        law_samples_show_their_metric(lines[n], metric, words);
    }
}

proof fn lemma_first_value(
    lines: Seq<Seq<char>>,
    metric: Seq<char>,
    words: Seq<Seq<char>>,
    n: int,
    i: int,
)
    requires
        0 <= i <= n <= lines.len(),
        forall|j: int| 0 <= j < n ==> !shows(#[trigger] lines[j], metric, words),
    ensures
        first_value(lines, metric, words, i) == first_value(lines, metric, words, n),
        first_given_value(lines, metric, words, i) == first_given_value(lines, metric, words, n),
    decreases n - i,
{
    if i < n {
        law_samples_show_their_metric(lines[i], metric, words);
        lemma_first_value(lines, metric, words, n, i + 1);
    }
}

/// A line that shows a metric without a value is passed over where any value will
/// do.
pub proof fn law_lines_without_a_value_are_passed_over(
    lines: Seq<Seq<char>>,
    metric: Seq<char>,
    words: Seq<Seq<char>>,
    i: int,
)
    requires
        0 <= i < lines.len(),
        text::after_space(lines[i]) is None,
    ensures
        first_given_value(lines, metric, words, i) == first_given_value(
            lines,
            metric,
            words,
            i + 1,
        ),
{
}

/// Without a label every sample of a metric fits; with one, only those that hold
/// it.
pub proof fn law_labels_are_words_to_find(line: Seq<char>, metric: Seq<char>, label: Seq<char>)
    ensures
        label.len() == 0 ==> (is_sample(line, metric, label_words(label)) <==> is_sample(
            line,
            metric,
            Seq::empty(),
        )),
        label.len() > 0 ==> (is_sample(line, metric, label_words(label)) <==> is_sample(
            line,
            metric,
            Seq::empty(),
        ) && text::occurs(line, label)),
{
    if label.len() > 0 {
        assert(label_words(label)[0] == label);
    }
}

/// The label of a namespace is its name in quotes behind `namespace=`, so that two
/// namespaces never share one, nor does the label of one hold that of another.
pub proof fn law_namespace_labels_tell_apart(a: Seq<char>, b: Seq<char>)
    ensures
        namespace_label(a).take(11) == "namespace=\""@,
        namespace_label(a).subrange(11, 11 + a.len() as int) == a,
        namespace_label(a).len() == a.len() + 12 && namespace_label(a).last() == '"',
        namespace_label(a) == namespace_label(b) <==> a == b,
{
    reveal_strlit("namespace=\"");
    reveal_strlit("\"");
    assert("namespace=\""@.len() == 11 && "\""@.len() == 1 && "\""@[0] == '"');
    assert(namespace_label(a).take(11) =~= "namespace=\""@);
    assert(namespace_label(a).subrange(11, 11 + a.len() as int) =~= a);
    assert(namespace_label(b).subrange(11, 11 + b.len() as int) =~= b);
    if namespace_label(a) == namespace_label(b) {
        assert(a.len() == b.len());
    }
}

/// The values of every line that shows a metric are taken, in the order of the
/// lines, and no other: adding a line adds its value or nothing.
pub proof fn law_every_sample_has_its_value(
    lines: Seq<Seq<char>>,
    metric: Seq<char>,
    words: Seq<Seq<char>>,
    line: Seq<char>,
)
    ensures
        all_values(Seq::empty(), metric, words).len() == 0,
        shows(line, metric, words) && text::after_space(line) is Some ==> all_values(
            lines.push(line),
            metric,
            words,
        ) == all_values(lines, metric, words).push(text::after_space(line)->0),
        !shows(line, metric, words) || text::after_space(line) is None ==> all_values(
            lines.push(line),
            metric,
            words,
        ) == all_values(lines, metric, words),
{
    law_samples_show_their_metric(line, metric, words);
    assert(lines.push(line).drop_last() =~= lines);
}

/// A total is the sum of its counts, wherever they are cut in two, and stops at the
/// largest count.
pub proof fn law_totals_are_sums(a: Seq<u64>, b: Seq<u64>, n: u64)
    ensures
        total_of(Seq::empty()) == 0,
        total_of(seq![n]) == n,
        total_of(a + b) == (if total_of(a) + total_of(b) <= u64::MAX {
            total_of(a) + total_of(b)
        } else {
            u64::MAX as int
        }),
    decreases b.len(),
{
    reveal_with_fuel(total_of, 2);
    assert(seq![n].drop_last() =~= Seq::<u64>::empty());
    if b.len() == 0 {
        assert(a + b =~= a);
    } else {
        law_totals_are_sums(a, b.drop_last(), n);
        assert((a + b).drop_last() =~= a + b.drop_last());
        assert((a + b).last() == b.last());
    }
}

/// The overlap counts the hits that are in both results: each hit of the second
/// adds one where the first has its id, and nothing elsewhere. It is full where
/// every hit is in both, and nothing where none is.
pub proof fn law_overlap_counts_shared_hits(a: QueryResultSet, b: QueryResultSet, n: int)
    requires
        0 <= n <= b.results@.len(),
    ensures
        overlap(a, b, 0) == 0,
        n < b.results@.len() && (exists|i: int|
            0 <= i < a.results@.len() && (#[trigger] a.results@[i]).id == b.results@[n].id)
            ==> overlap(a, b, n + 1) == overlap(a, b, n) + 1,
        n < b.results@.len() && !(exists|i: int|
            0 <= i < a.results@.len() && (#[trigger] a.results@[i]).id == b.results@[n].id)
            ==> overlap(a, b, n + 1) == overlap(a, b, n),
        overlap(a, b, n) <= n,
        a.results@ == b.results@ ==> overlap(a, b, n) == n,
    decreases n,
{
    if n > 0 {
        law_overlap_counts_shared_hits(a, b, n - 1);
        if a.results@ == b.results@ {
            assert(a.results@[n - 1].id == b.results@[n - 1].id);
        }
    }
}

/// A number of sub-vectors divides the width, and no larger one that is allowed
/// does; one always divides.
pub proof fn law_sub_vectors_divide_the_width(n: int, m: int, dim: int, most: int)
    requires
        is_largest_divisor(n, dim, most),
    ensures
        1 <= n <= most,
        dim % n == 0,
        1 <= m <= most && dim % m == 0 ==> m <= n,
        is_largest_divisor(m, dim, most) ==> m == n,
{
}
/// A list of words with commas between them is read back as those words.
pub proof fn law_lists_read_back(list: Seq<Seq<char>>)
    requires
        list.len() > 0,
        forall|k: int|
            0 <= k < list.len() ==> (#[trigger] list[k]).len() > 0 && !text::unicode_space(
                list[k][0],
            ) && !text::unicode_space(list[k].last()),
        forall|k: int, i: int|
            0 <= k < list.len() && 0 <= i < list[k].len() ==> #[trigger] list[k][i] != ',',
    ensures
        list_entries(text::joined(list, ',')) == list,
{
    text::law_pieces_read_back(list, ',');
    let trims = list.map_values(|p: Seq<char>| text::trimmed(p));
    assert forall|k: int| 0 <= k < list.len() implies trims[k] == list[k] by {
        text::law_trimming_spares_the_rest(list[k]);
    }
    assert(trims =~= list);
    lemma_all_kept(list);
}

proof fn lemma_all_kept(list: Seq<Seq<char>>)
    requires
        forall|k: int| 0 <= k < list.len() ==> (#[trigger] list[k]).len() > 0,
    ensures
        list.filter(|p: Seq<char>| p.len() > 0) == list,
    decreases list.len(),
{
    reveal(Seq::filter);
    if list.len() > 0 {
        lemma_all_kept(list.drop_last());
        assert(list.drop_last().push(list.last()) =~= list);
    }
}

} // verus!
