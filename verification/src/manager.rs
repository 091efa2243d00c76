//! Namespace manager: which tables are open, what is known of them, and what
//! each operation asks of storage.
//!
//! An operation runs in steps. A method of [`NamespaceManager`] starts it and
//! returns a [`Step`]: something for the caller to do against storage, or the
//! end. What storage answered goes to the method named after the step, which
//! returns the next one. An open table is a number that the caller gave it.
//!
//! Per namespace the manager keeps the schema facts, so that they are read at
//! most once, and the handle of the open table, so that later operations skip
//! the cost of opening. A handle is dropped when the namespace is deleted, and
//! after an index build or a compaction, which leave it with an outdated view
//! of the table. A write keeps it.
use dashmap::DashMap;
use vstd::prelude::*;
use crate::batch::{self, Batch};
use crate::cursor;
use crate::error::{self, ErrorView, FirnflowError};
use crate::hash;
use crate::metrics::{self, CoreMetrics, MetricsView};
use crate::namespace::NamespaceId;
use crate::query::{self, QueryRequest, DEFAULT_NPROBES};
use crate::result::{self, HitView, ListOrder, ListPage, ListRowView, NamespaceInfo, QueryResultSet};
use crate::rows::{self, NamespaceSchemaInfo, UpsertRow};
use crate::schema::{self, Field, IndexType};
use crate::shared;
use crate::storage_root::{RootView, StorageRoot};
use crate::text;
use crate::vector::VectorKind;

verus! {

// -------------------------------------------------------------- failures
/// The call into storage that failed.
#[derive(Debug, Clone, Copy, PartialEq, Eq, Structural)]
pub enum Stage {
    Connect,
    OpenTable,
    CreateTable,
    ReadSchema,
    MergeInsert,
    QueryNearest,
    QueryAddVector,
    QueryExecute,
    FtsExecute,
    QueryCollect,
    CreateIndex,
    CreateFtsIndex,
    CreateScalarIndex,
    Optimize,
    ResolveDataset,
    ScanFilter,
    ScanOrder,
    ScanLimit,
    ScanStream,
    ScanCollect,
    CountRows,
    ListIndices,
    ListObjects,
    BuildS3Store,
    BuildGcsStore,
    BuildLocalStore,
    /// The table that a listing reads is of a foreign kind.
    ListNative,
    /// The table that a generation is read from is of a foreign kind.
    GenerationNative,
    /// The table that metadata is read from is of a foreign kind.
    InfoNative,
}

/// How a message names the call that failed.
pub open spec fn stage_label(stage: Stage, ns: Seq<char>) -> Seq<char> {
    match stage {
        Stage::Connect => "lancedb connect"@,
        Stage::OpenTable => "open table "@ + ns,
        Stage::CreateTable => "create_table"@,
        Stage::ReadSchema => "read schema"@,
        Stage::MergeInsert => "table.merge_insert"@,
        Stage::QueryNearest => "query.nearest_to"@,
        Stage::QueryAddVector => "query.add_query_vector"@,
        Stage::QueryExecute => "query.execute"@,
        Stage::FtsExecute => "fts.execute"@,
        Stage::QueryCollect => "query.collect"@,
        Stage::CreateIndex => "create_index"@,
        Stage::CreateFtsIndex => "create_fts_index"@,
        Stage::CreateScalarIndex => "create_scalar_index"@,
        Stage::Optimize => "optimize"@,
        Stage::ResolveDataset => "resolve dataset"@,
        Stage::ScanFilter => "scan.filter"@,
        Stage::ScanOrder => "scan.order_by"@,
        Stage::ScanLimit => "scan.limit"@,
        Stage::ScanStream => "scan.try_into_stream"@,
        Stage::ScanCollect => "scan.collect"@,
        Stage::CountRows => "count_rows"@,
        Stage::ListIndices => "list_indices"@,
        Stage::ListObjects => "list "@ + ns,
        Stage::BuildS3Store => "build object store"@,
        Stage::BuildGcsStore => "build GCS object store"@,
        Stage::BuildLocalStore => "build local object store"@,
        Stage::ListNative => "list requires a native lance table"@,
        Stage::GenerationNative => "generation requires a native lance table"@,
        Stage::InfoNative => "namespace info requires a native lance table"@,
    }
}

/// Whether the stage alone says everything.
pub open spec fn self_explaining(stage: Stage) -> bool {
    stage is ListNative || stage is GenerationNative || stage is InfoNative
}

/// A failed call into storage: which one, and what it said.
#[derive(Debug)]
pub struct Failure {
    /// The call that failed.
    pub stage: Stage,
    /// What it said.
    pub text: String,
}

/// The error that a failed call is reported as.
pub open spec fn failure(f: Failure, ns: Seq<char>) -> ErrorView {
    if self_explaining(f.stage) {
        ErrorView::Backend(stage_label(f.stage, ns))
    } else {
        ErrorView::Backend(stage_label(f.stage, ns) + ": "@ + f.text@)
    }
}

impl Failure {
    /// The error that the failed call is reported as.
    pub fn into_error(self, ns: &NamespaceId) -> (r: FirnflowError)
        ensures
            r@ == failure(self, ns@),
    {
        let open = text::cat2("open table ", ns.as_str());
        let objects = text::cat2("list ", ns.as_str());
        let label: &str = match self.stage {
            Stage::Connect => "lancedb connect",
            Stage::OpenTable => open.as_str(),
            Stage::CreateTable => "create_table",
            Stage::ReadSchema => "read schema",
            Stage::MergeInsert => "table.merge_insert",
            Stage::QueryNearest => "query.nearest_to",
            Stage::QueryAddVector => "query.add_query_vector",
            Stage::QueryExecute => "query.execute",
            Stage::FtsExecute => "fts.execute",
            Stage::QueryCollect => "query.collect",
            Stage::CreateIndex => "create_index",
            Stage::CreateFtsIndex => "create_fts_index",
            Stage::CreateScalarIndex => "create_scalar_index",
            Stage::Optimize => "optimize",
            Stage::ResolveDataset => "resolve dataset",
            Stage::ScanFilter => "scan.filter",
            Stage::ScanOrder => "scan.order_by",
            Stage::ScanLimit => "scan.limit",
            Stage::ScanStream => "scan.try_into_stream",
            Stage::ScanCollect => "scan.collect",
            Stage::CountRows => "count_rows",
            Stage::ListIndices => "list_indices",
            Stage::ListObjects => objects.as_str(),
            Stage::BuildS3Store => "build object store",
            Stage::BuildGcsStore => "build GCS object store",
            Stage::BuildLocalStore => "build local object store",
            Stage::ListNative => {
                return FirnflowError::Backend("list requires a native lance table".to_string());
            },
            Stage::GenerationNative => {
                return FirnflowError::Backend(
                    "generation requires a native lance table".to_string(),
                );
            },
            Stage::InfoNative => {
                return FirnflowError::Backend(
                    "namespace info requires a native lance table".to_string(),
                );
            },
        };
        FirnflowError::Backend(text::cat3(label, ": ", self.text.as_str()))
    }
}

/// The error of an object that could not be removed.
pub fn delete_failure(location: &str, cause: &str) -> (r: FirnflowError)
    ensures
        r@ == ErrorView::Backend("delete "@ + location@ + ": "@ + cause@),
{
    FirnflowError::Backend(text::cat4("delete ", location, ": ", cause))
}

/// The error of a local storage directory that could not be made.
pub fn local_dir_failure(dir: &str, cause: &str) -> (r: FirnflowError)
    ensures
        r@ == ErrorView::Backend("create local storage dir "@ + dir@ + ": "@ + cause@),
{
    FirnflowError::Backend(text::cat4("create local storage dir ", dir, ": ", cause))
}

// --------------------------------------------------------------- options
/// What an S3 option sets.
#[derive(Debug, Clone, Copy, PartialEq, Eq, Structural)]
pub enum S3Setting {
    AccessKeyId,
    SecretAccessKey,
    Region,
    Endpoint,
    AllowHttp(bool),
    VirtualHostedStyle(bool),
}

/// What a storage option sets on an S3 client; options of other names set
/// nothing.
pub open spec fn s3_option(key: Seq<char>, value: Seq<char>) -> Option<S3Setting> {
    if key == "aws_access_key_id"@ {
        Some(S3Setting::AccessKeyId)
    } else if key == "aws_secret_access_key"@ {
        Some(S3Setting::SecretAccessKey)
    } else if key == "aws_region"@ {
        Some(S3Setting::Region)
    } else if key == "aws_endpoint"@ {
        Some(S3Setting::Endpoint)
    } else if key == "allow_http"@ {
        Some(S3Setting::AllowHttp(value == "true"@))
    } else if key == "aws_virtual_hosted_style_request"@ {
        Some(S3Setting::VirtualHostedStyle(value == "true"@))
    } else {
        None
    }
}

/// What a storage option sets on an S3 client.
pub fn s3_setting(key: &str, value: &str) -> (r: Option<S3Setting>)
    ensures
        r == s3_option(key@, value@),
{
    if text::same(key, "aws_access_key_id") {
        Some(S3Setting::AccessKeyId)
    } else if text::same(key, "aws_secret_access_key") {
        Some(S3Setting::SecretAccessKey)
    } else if text::same(key, "aws_region") {
        Some(S3Setting::Region)
    } else if text::same(key, "aws_endpoint") {
        Some(S3Setting::Endpoint)
    } else if text::same(key, "allow_http") {
        Some(S3Setting::AllowHttp(text::same(value, "true")))
    } else if text::same(key, "aws_virtual_hosted_style_request") {
        Some(S3Setting::VirtualHostedStyle(text::same(value, "true")))
    } else {
        None
    }
}

/// What a GCS option sets.
#[derive(Debug, Clone, Copy, PartialEq, Eq, Structural)]
pub enum GcsSetting {
    ServiceAccountPath,
    ServiceAccountKey,
    ApplicationCredentials,
}

/// What a storage option sets on a GCS client. A service-account file and
/// application-default credentials are different things.
pub open spec fn gcs_option(key: Seq<char>) -> Option<GcsSetting> {
    if key == "google_service_account"@ || key == "google_service_account_path"@ {
        Some(GcsSetting::ServiceAccountPath)
    } else if key == "google_service_account_key"@ {
        Some(GcsSetting::ServiceAccountKey)
    } else if key == "google_application_credentials"@ {
        Some(GcsSetting::ApplicationCredentials)
    } else {
        None
    }
}

/// What a storage option sets on a GCS client.
pub fn gcs_setting(key: &str) -> (r: Option<GcsSetting>)
    ensures
        r == gcs_option(key@),
{
    if text::same(key, "google_service_account") || text::same(
        key,
        "google_service_account_path",
    ) {
        Some(GcsSetting::ServiceAccountPath)
    } else if text::same(key, "google_service_account_key") {
        Some(GcsSetting::ServiceAccountKey)
    } else if text::same(key, "google_application_credentials") {
        Some(GcsSetting::ApplicationCredentials)
    } else {
        None
    }
}

// ----------------------------------------------------------------- tasks
/// An operation that works on the table of a namespace.
#[derive(Debug)]
pub enum Task {
    /// Write rows.
    Upsert(Vec<UpsertRow>),
    /// Search.
    Query(QueryRequest),
    /// Build the vector index: partitions, sub-vectors, bits.
    Index(Option<u32>, Option<u32>, Option<u32>),
    /// Build the full-text index.
    FtsIndex,
    /// Build a scalar index on a column.
    ScalarIndex(String),
    /// Merge small data files.
    Compact,
    /// List rows: page size, order, cursor.
    List(usize, ListOrder, Option<(i64, u64)>),
}

/// Distance of a vector index.
#[derive(Debug, Clone, Copy, PartialEq, Eq, Structural)]
pub enum DistanceType {
    L2,
    Cosine,
}

/// What a search goes by.
#[derive(Debug)]
pub enum QueryShape {
    /// Text alone.
    Text,
    /// One vector.
    Single(Vec<u32>),
    /// A bag of vectors, against the column `vector` by name.
    Multi(Vec<Vec<u32>>),
}

/// The columns that a search returns.
#[derive(Debug, Clone, Copy, PartialEq, Eq, Structural)]
pub enum Projection {
    /// All of them.
    All,
    /// `id` and `text`.
    IdText,
    /// `id`, `text` and `_ingested_at`.
    IdTextTime,
}

/// The names of a projection's columns; none where all are returned.
pub open spec fn projected(p: Projection) -> Option<Seq<Seq<char>>> {
    match p {
        Projection::All => None,
        Projection::IdText => Some(seq!["id"@, "text"@]),
        Projection::IdTextTime => Some(seq!["id"@, "text"@, "_ingested_at"@]),
    }
}

impl Projection {
    /// The names of the columns; none where all are returned.
    pub fn columns(self) -> (r: Option<Vec<&'static str>>)
        ensures
            match r {
                Some(v) => projected(self) == Some(v@.map_values(|s: &str| s@)),
                None => projected(self) is None,
            },
    {
        match self {
            Projection::All => None,
            Projection::IdText => {
                let v = vec!["id", "text"];
                assert(v@.map_values(|s: &str| s@) =~= seq!["id"@, "text"@]);
                Some(v)
            },
            Projection::IdTextTime => {
                let v = vec!["id", "text", "_ingested_at"];
                assert(v@.map_values(|s: &str| s@) =~= seq!["id"@, "text"@, "_ingested_at"@]);
                Some(v)
            },
        }
    }
}

/// What is done to an open table.
#[derive(Debug)]
pub enum Work {
    /// Merge rows by `id`: a known id replaces its row, a new one adds a row.
    Merge(Vec<UpsertRow>),
    /// Search.
    Search {
        shape: QueryShape,
        /// Partitions to probe, where vectors are searched.
        nprobes: usize,
        limit: usize,
        text: Option<String>,
        /// Predicate, applied before the search.
        filter: Option<String>,
        projection: Projection,
        include_vector: bool,
    },
    /// Build the vector index on the column `vector`.
    VectorIndex {
        distance: DistanceType,
        num_partitions: Option<u32>,
        num_sub_vectors: Option<u32>,
        num_bits: Option<u32>,
    },
    /// Build the full-text index on the column `text`.
    TextIndex,
    /// Build a BTree on a column.
    ScalarIndex(String),
    /// Merge small data files.
    Compact,
    /// Scan a page, as `cursor::plan_list` lays it out.
    Scan(usize, ListOrder, Option<(i64, u64)>),
}

/// Work with the schema facts of its table.
#[derive(Debug)]
pub struct Planned {
    /// Schema facts of the table.
    pub info: NamespaceSchemaInfo,
    /// Whether the namespace has no table yet.
    pub fresh: bool,
    /// What is done.
    pub work: Work,
}

/// What the work brought.
#[derive(Debug)]
pub enum WorkReply {
    /// Nothing to hand back.
    Done,
    /// Batches of a search or a scan.
    Batches(Vec<Batch>),
    /// Fragments removed and added by a compaction, where it ran.
    Compacted(Option<(usize, usize)>),
}

/// Fragments that a compaction merged away and wrote.
#[derive(Debug, Clone, Copy, PartialEq, Eq, Structural)]
pub struct CompactResult {
    /// Old fragments merged away.
    pub fragments_removed: usize,
    /// New fragments written.
    pub fragments_added: usize,
}

/// What an operation ends with.
#[derive(Debug)]
pub enum Outcome {
    /// Nothing to hand back.
    Done,
    /// Hits of a search.
    Hits(QueryResultSet),
    /// What a compaction did.
    Compacted(CompactResult),
    /// A page of a listing.
    Page(ListPage),
}

/// An outcome by its contents.
pub enum OutcomeView {
    Done,
    Hits(Seq<char>, Seq<HitView>),
    Compacted(CompactResult),
    Page(Seq<ListRowView>, Option<Seq<char>>),
}

impl View for Outcome {
    type V = OutcomeView;

    open spec fn view(&self) -> OutcomeView {
        match *self {
            Outcome::Done => OutcomeView::Done,
            Outcome::Hits(h) => OutcomeView::Hits(h@.0, h@.1),
            Outcome::Compacted(c) => OutcomeView::Compacted(c),
            Outcome::Page(p) => OutcomeView::Page(p@.0, p@.1),
        }
    }
}

/// The end of an operation by its contents.
pub open spec fn ending(r: Result<Outcome, FirnflowError>) -> Result<OutcomeView, ErrorView> {
    match r {
        Ok(o) => Ok(o@),
        Err(e) => Err(e@),
    }
}

/// The next step of an operation.
#[derive(Debug)]
pub enum Step {
    /// Read the schema of the open table, then [`NamespaceManager::on_opened`].
    ReadSchema(u64, Task),
    /// Open the table if it exists, then [`NamespaceManager::on_opened`].
    OpenExisting(Task),
    /// Open the table, or create it with the planned schema where it cannot be
    /// opened, then [`NamespaceManager::on_table`].
    OpenTable(Planned),
    /// Do the work, then [`NamespaceManager::on_worked`].
    Perform(u64, Planned),
    /// Build a BTree on `id`, then [`NamespaceManager::on_id_index`].
    BuildIdIndex(u64, NamespaceSchemaInfo),
    /// Open the table afresh, then [`NamespaceManager::on_reopened`].
    Reopen(NamespaceSchemaInfo),
    /// The end.
    Finish(Result<Outcome, FirnflowError>),
}

/// A step by its contents.
pub enum StepView {
    ReadSchema(u64, Task),
    OpenExisting(Task),
    OpenTable(Planned),
    Perform(u64, Planned),
    BuildIdIndex(u64, NamespaceSchemaInfo),
    Reopen(NamespaceSchemaInfo),
    Finish(Result<OutcomeView, ErrorView>),
}

impl View for Step {
    type V = StepView;

    open spec fn view(&self) -> StepView {
        match *self {
            Step::ReadSchema(h, t) => StepView::ReadSchema(h, t),
            Step::OpenExisting(t) => StepView::OpenExisting(t),
            Step::OpenTable(p) => StepView::OpenTable(p),
            Step::Perform(h, p) => StepView::Perform(h, p),
            Step::BuildIdIndex(h, i) => StepView::BuildIdIndex(h, i),
            Step::Reopen(i) => StepView::Reopen(i),
            Step::Finish(r) => StepView::Finish(ending(r)),
        }
    }
}

/// What opening an existing table brought.
#[derive(Debug)]
pub enum OpenReply {
    /// The schema of the table that was open already.
    Schema(u64, Vec<Field>),
    /// The table, newly opened, and its schema.
    Opened(u64, Vec<Field>),
    /// There is no such table.
    NotFound,
    /// Something else went wrong.
    Failed(Failure),
}

// --------------------------------------------------------------- queries
/// The position of the first vector at or after `from` whose width is not
/// `dim`.
pub open spec fn off_width(subs: Seq<Vec<u32>>, dim: usize, from: int) -> Option<int> {
    rows::first_off_width(subs, dim, from)
}

/// What a search goes by, in a namespace of these facts, or why it cannot be
/// run.
pub open spec fn shape_of(
    ns: Seq<char>,
    info: NamespaceSchemaInfo,
    vector: Vec<u32>,
    vectors: Option<Vec<Vec<u32>>>,
    has_text: bool,
) -> Result<QueryShape, ErrorView> {
    let single = vector@.len() > 0;
    let multi = query::has_vectors(vectors);
    if single && vectors is Some {
        Err(ErrorView::InvalidRequest("query may set at most one of `vector` or `vectors`"@))
    } else if single {
        if info.kind != VectorKind::Single {
            Err(
                ErrorView::InvalidRequest(
                    "namespace "@ + ns
                        + " is multivector, expected `vectors: [[...], ...]` but got `vector: [...]`"@,
                ),
            )
        } else if vector@.len() != info.dim {
            Err(
                ErrorView::InvalidRequest(
                    "query vector length "@ + text::dec(vector@.len()) + ", expected "@
                        + text::dec(info.dim as nat),
                ),
            )
        } else {
            Ok(QueryShape::Single(vector))
        }
    } else if multi {
        if info.kind != VectorKind::Multivector {
            Err(
                ErrorView::InvalidRequest(
                    "namespace "@ + ns
                        + " is single-vector, expected `vector: [...]` but got `vectors: [[...], ...]`"@,
                ),
            )
        } else {
            match off_width(vectors->0@, info.dim, 0) {
                Some(i) => Err(
                    ErrorView::InvalidRequest(
                        "query sub-vector "@ + text::dec(i as nat) + " length "@ + text::dec(
                            vectors->0@[i]@.len(),
                        ) + ", expected "@ + text::dec(info.dim as nat),
                    ),
                ),
                None => Ok(QueryShape::Multi(vectors->0)),
            }
        }
    } else if !has_text {
        Err(
            ErrorView::InvalidRequest("query must have at least a vector field or a text field"@),
        )
    } else {
        Ok(QueryShape::Text)
    }
}

/// The columns that a search returns.
pub open spec fn projection_for(include_vector: bool, info: NamespaceSchemaInfo) -> Projection {
    if include_vector {
        Projection::All
    } else if info.has_ingested_at {
        Projection::IdTextTime
    } else {
        Projection::IdText
    }
}

/// The partitions that a search probes.
pub open spec fn probes(nprobes: Option<usize>) -> usize {
    match nprobes {
        Some(n) => n,
        None => DEFAULT_NPROBES,
    }
}

/// The search that a request asks for.
pub open spec fn search_work(
    ns: Seq<char>,
    info: NamespaceSchemaInfo,
    req: QueryRequest,
) -> Result<Work, ErrorView> {
    match shape_of(ns, info, req.vector, req.vectors, req.text is Some) {
        Err(e) => Err(e),
        Ok(shape) => Ok(
            Work::Search {
                shape,
                nprobes: probes(req.nprobes),
                limit: req.k,
                text: req.text,
                filter: req.filter,
                projection: projection_for(req.include_vector, info),
                include_vector: req.include_vector,
            },
        ),
    }
}

/// Resolves what a search goes by. Setting both vector fields, a payload that
/// does not fit the namespace, and a request with nothing to search for are
/// refused.
pub fn query_shape(
    ns: &NamespaceId,
    info: NamespaceSchemaInfo,
    vector: Vec<u32>,
    vectors: Option<Vec<Vec<u32>>>,
    has_text: bool,
) -> (r: Result<QueryShape, FirnflowError>)
    ensures
        match r {
            Ok(s) => shape_of(ns@, info, vector, vectors, has_text) == Ok::<QueryShape, ErrorView>(
                s,
            ),
            Err(e) => shape_of(ns@, info, vector, vectors, has_text) == Err::<
                QueryShape,
                ErrorView,
            >(e@),
        },
{
    let single = vector.len() > 0;
    if single && vectors.is_some() {
        return Err(
            FirnflowError::InvalidRequest(
                "query may set at most one of `vector` or `vectors`".to_string(),
            ),
        );
    }
    if single {
        if info.kind != VectorKind::Single {
            return Err(
                FirnflowError::InvalidRequest(
                    text::cat3(
                        "namespace ",
                        ns.as_str(),
                        " is multivector, expected `vectors: [[...], ...]` but got `vector: [...]`",
                    ),
                ),
            );
        }
        if vector.len() != info.dim {
            return Err(
                FirnflowError::InvalidRequest(
                    text::cat4(
                        "query vector length ",
                        text::dec_text(vector.len() as u64).as_str(),
                        ", expected ",
                        text::dec_text(info.dim as u64).as_str(),
                    ),
                ),
            );
        }
        return Ok(QueryShape::Single(vector));
    }
    if query::has_bag(&vectors) {
        if info.kind != VectorKind::Multivector {
            return Err(
                FirnflowError::InvalidRequest(
                    text::cat3(
                        "namespace ",
                        ns.as_str(),
                        " is single-vector, expected `vector: [...]` but got `vectors: [[...], ...]`",
                    ),
                ),
            );
        }
        let subs = vectors.unwrap();
        let mut i: usize = 0;
        while i < subs.len()
            invariant
                i <= subs@.len(),
                vectors == Some(subs),
                vector@.len() == 0,
                subs@.len() > 0,
                info.kind == VectorKind::Multivector,
                off_width(subs@, info.dim, 0) == off_width(subs@, info.dim, i as int),
            decreases subs@.len() - i,
        {
            if subs[i].len() != info.dim {
                let mut msg = text::cat5(
                    "query sub-vector ",
                    text::dec_text(i as u64).as_str(),
                    " length ",
                    text::dec_text(subs[i].len() as u64).as_str(),
                    ", expected ",
                );
                msg.append(text::dec_text(info.dim as u64).as_str());
                return Err(FirnflowError::InvalidRequest(msg));
            }
            i = i + 1;
        }
        return Ok(QueryShape::Multi(subs));
    }
    if !has_text {
        return Err(
            FirnflowError::InvalidRequest(
                "query must have at least a vector field or a text field".to_string(),
            ),
        );
    }
    Ok(QueryShape::Text)
}

/// The search that a request asks for.
pub fn plan_query(ns: &NamespaceId, info: NamespaceSchemaInfo, req: QueryRequest) -> (r: Result<
    Work,
    FirnflowError,
>)
    ensures
        match r {
            Ok(w) => search_work(ns@, info, req) == Ok::<Work, ErrorView>(w),
            Err(e) => search_work(ns@, info, req) == Err::<Work, ErrorView>(e@),
        },
{
    let QueryRequest {
        vector,
        vectors,
        k,
        nprobes,
        text,
        filter,
        include_vector,
        semantic_cache: _,
    } = req;
    let shape = match query_shape(ns, info, vector, vectors, text.is_some()) {
        Ok(s) => s,
        Err(e) => {
            return Err(e);
        },
    };
    let projection = if include_vector {
        Projection::All
    } else if info.has_ingested_at {
        Projection::IdTextTime
    } else {
        Projection::IdText
    };
    Ok(
        Work::Search {
            shape,
            nprobes: match nprobes {
                Some(n) => n,
                None => DEFAULT_NPROBES,
            },
            limit: k,
            text,
            filter,
            projection,
            include_vector,
        },
    )
}

// -------------------------------------------------------------- planning
/// The answer to an operation on a namespace without data.
pub open spec fn no_data(what: Seq<char>, ns: Seq<char>) -> ErrorView {
    ErrorView::InvalidRequest(
        "cannot "@ + what + " namespace "@ + ns + ": no data has been upserted yet"@,
    )
}

/// Whether a search sets both vector fields.
pub open spec fn sets_both(req: QueryRequest) -> bool {
    req.vector@.len() > 0 && req.vectors is Some
}

/// The answer to a search that sets both vector fields.
pub open spec fn both_fields() -> ErrorView {
    ErrorView::InvalidRequest("query may set at most one of `vector` or `vectors`"@)
}

/// What a task comes to, once the schema facts are resolved: work to do, or
/// the end. Setting both vector fields is refused whether or not there is a
/// table.
pub open spec fn plan(ns: Seq<char>, task: Task, known: Option<NamespaceSchemaInfo>) -> Result<
    Planned,
    Result<OutcomeView, ErrorView>,
> {
    match task {
        Task::Upsert(rows) => match rows::write_plan(rows@, known) {
            Ok((info, fresh)) => Ok(Planned { info, fresh, work: Work::Merge(rows) }),
            Err(e) => Err(Err(e)),
        },
        Task::Query(req) => if sets_both(req) {
            Err(Err(both_fields()))
        } else {
            match known {
                None => Err(Ok(OutcomeView::Hits(Seq::empty(), Seq::empty()))),
                Some(info) => match search_work(ns, info, req) {
                    Ok(work) => Ok(Planned { info, fresh: false, work }),
                    Err(e) => Err(Err(e)),
                },
            }
        },
        Task::Index(num_partitions, num_sub_vectors, num_bits) => match known {
            None => Err(Err(no_data("index"@, ns))),
            Some(info) => Ok(
                Planned {
                    info,
                    fresh: false,
                    work: Work::VectorIndex {
                        distance: match info.kind {
                            VectorKind::Single => DistanceType::L2,
                            VectorKind::Multivector => DistanceType::Cosine,
                        },
                        num_partitions,
                        num_sub_vectors,
                        num_bits,
                    },
                },
            ),
        },
        Task::FtsIndex => match known {
            None => Err(Err(no_data("create FTS index on"@, ns))),
            Some(info) => Ok(Planned { info, fresh: false, work: Work::TextIndex }),
        },
        Task::ScalarIndex(column) => match known {
            None => Err(Err(no_data("create scalar index on"@, ns))),
            Some(info) => if column@ == "_ingested_at"@ && !info.has_ingested_at {
                Err(
                    Err(
                        ErrorView::Unsupported(
                            "namespace "@ + ns
                                + " pre-dates the _ingested_at column; recreate the namespace before building a scalar index on it"@,
                        ),
                    ),
                )
            } else {
                Ok(Planned { info, fresh: false, work: Work::ScalarIndex(column) })
            },
        },
        Task::Compact => match known {
            None => Err(Err(no_data("compact"@, ns))),
            Some(info) => Ok(Planned { info, fresh: false, work: Work::Compact }),
        },
        Task::List(limit, order, at) => match known {
            None => Err(Ok(OutcomeView::Page(Seq::empty(), None))),
            Some(info) => if !info.has_ingested_at {
                Err(
                    Err(
                        ErrorView::Unsupported(
                            "namespace "@ + ns
                                + " pre-dates the _ingested_at column; recreate the namespace or wait for the migration follow-up"@,
                        ),
                    ),
                )
            } else {
                Ok(Planned { info, fresh: false, work: Work::Scan(limit, order, at) })
            },
        },
    }
}

/// Whether a task can be planned: a write has rows.
pub open spec fn plannable(task: Task) -> bool {
    task matches Task::Upsert(rows) ==> rows@.len() > 0
}

fn no_data_error(what: &str, ns: &NamespaceId) -> (r: FirnflowError)
    ensures
        r@ == no_data(what@, ns@),
{
    FirnflowError::InvalidRequest(
        text::cat5("cannot ", what, " namespace ", ns.as_str(), ": no data has been upserted yet"),
    )
}

/// What a task comes to, once the schema facts are resolved.
pub fn plan_task(ns: &NamespaceId, task: Task, known: Option<NamespaceSchemaInfo>) -> (r: Result<
    Planned,
    Result<Outcome, FirnflowError>,
>)
    requires
        plannable(task),
    ensures
        match r {
            Ok(p) => plan(ns@, task, known) == Ok::<Planned, Result<OutcomeView, ErrorView>>(p),
            Err(end) => plan(ns@, task, known) == Err::<Planned, Result<OutcomeView, ErrorView>>(
                ending(end),
            ),
        },
{
    match task {
        Task::Upsert(rows) => match rows::plan_write(&rows, known) {
            Ok((info, fresh)) => Ok(Planned { info, fresh, work: Work::Merge(rows) }),
            Err(e) => Err(Err(e)),
        },
        Task::Query(req) => if req.vector.len() > 0 && req.vectors.is_some() {
            Err(
                Err(
                    FirnflowError::InvalidRequest(
                        "query may set at most one of `vector` or `vectors`".to_string(),
                    ),
                ),
            )
        } else {
            match known {
                None => {
                    let none = QueryResultSet { query_id: String::new(), results: Vec::new() };
                    assert(none@.0 =~= Seq::<char>::empty());
                    assert(none@.1 =~= Seq::<HitView>::empty());
                    Err(Ok(Outcome::Hits(none)))
                },
                Some(info) => match plan_query(ns, info, req) {
                    Ok(work) => Ok(Planned { info, fresh: false, work }),
                    Err(e) => Err(Err(e)),
                },
            }
        },
        Task::Index(num_partitions, num_sub_vectors, num_bits) => match known {
            None => Err(Err(no_data_error("index", ns))),
            Some(info) => {
                let distance = match info.kind {
                    VectorKind::Single => DistanceType::L2,
                    VectorKind::Multivector => DistanceType::Cosine,
                };
                Ok(
                    Planned {
                        info,
                        fresh: false,
                        work: Work::VectorIndex {
                            distance,
                            num_partitions,
                            num_sub_vectors,
                            num_bits,
                        },
                    },
                )
            },
        },
        Task::FtsIndex => match known {
            None => Err(Err(no_data_error("create FTS index on", ns))),
            Some(info) => Ok(Planned { info, fresh: false, work: Work::TextIndex }),
        },
        Task::ScalarIndex(column) => match known {
            None => Err(Err(no_data_error("create scalar index on", ns))),
            Some(info) => if text::same(column.as_str(), "_ingested_at") && !info.has_ingested_at {
                Err(
                    Err(
                        FirnflowError::Unsupported(
                            text::cat3(
                                "namespace ",
                                ns.as_str(),
                                " pre-dates the _ingested_at column; recreate the namespace before building a scalar index on it",
                            ),
                        ),
                    ),
                )
            } else {
                Ok(Planned { info, fresh: false, work: Work::ScalarIndex(column) })
            },
        },
        Task::Compact => match known {
            None => Err(Err(no_data_error("compact", ns))),
            Some(info) => Ok(Planned { info, fresh: false, work: Work::Compact }),
        },
        Task::List(limit, order, at) => match known {
            None => {
                let none = ListPage { rows: Vec::new(), next_cursor: None };
                assert(none@.0 =~= Seq::<ListRowView>::empty());
                Err(Ok(Outcome::Page(none)))
            },
            Some(info) => if !info.has_ingested_at {
                Err(
                    Err(
                        FirnflowError::Unsupported(
                            text::cat3(
                                "namespace ",
                                ns.as_str(),
                                " pre-dates the _ingested_at column; recreate the namespace or wait for the migration follow-up",
                            ),
                        ),
                    ),
                )
            } else {
                Ok(Planned { info, fresh: false, work: Work::Scan(limit, order, at) })
            },
        },
    }
}

// --------------------------------------------------------------- manager
/// The tables of the namespaces under one storage root.
pub struct NamespaceManager {
    storage_root: StorageRoot,
    storage_options: Vec<(String, String)>,
    schema_info: DashMap<String, NamespaceSchemaInfo>,
    handles: DashMap<String, u64>,
}

/// What a manager knows of its namespaces: schema facts, and open tables.
pub struct ManagerView {
    pub schemas: Map<Seq<char>, NamespaceSchemaInfo>,
    pub handles: Map<Seq<char>, u64>,
}

impl View for NamespaceManager {
    type V = ManagerView;

    closed spec fn view(&self) -> ManagerView {
        ManagerView {
            schemas: shared::schema_map(self.schema_info),
            handles: shared::number_map(self.handles),
        }
    }
}

/// Whether the gauge of pooled handles counts the pool, up to the range of the
/// gauge.
pub open spec fn counted(m: ManagerView, t: MetricsView) -> bool {
    m.handles.dom().finite() && (t.cached_handles - m.handles.len()) % 0x1_0000_0000_0000_0000 == 0
}

/// The manager with a handle in its pool.
pub open spec fn pooled(m: ManagerView, ns: Seq<char>, handle: u64) -> ManagerView {
    ManagerView { handles: m.handles.insert(ns, handle), ..m }
}

/// The metrics once a handle has been put into the pool.
pub open spec fn pooled_count(m: ManagerView, t: MetricsView, ns: Seq<char>) -> MetricsView {
    if m.handles.dom().contains(ns) {
        t
    } else {
        metrics::handle_added(t)
    }
}

/// The manager with a handle taken out of its pool.
pub open spec fn evicted(m: ManagerView, ns: Seq<char>) -> ManagerView {
    ManagerView { handles: m.handles.remove(ns), ..m }
}

/// The metrics once a handle has been taken out of the pool.
pub open spec fn evicted_count(m: ManagerView, t: MetricsView, ns: Seq<char>) -> MetricsView {
    if m.handles.dom().contains(ns) {
        metrics::handle_dropped(t)
    } else {
        t
    }
}

/// The manager with schema facts of a namespace.
pub open spec fn learned(
    m: ManagerView,
    ns: Seq<char>,
    info: NamespaceSchemaInfo,
) -> ManagerView {
    ManagerView { schemas: m.schemas.insert(ns, info), ..m }
}

/// Manager and metrics after a table was opened: it is pooled where it was
/// newly opened and its schema could be read.
pub open spec fn after_open(m: ManagerView, ns: Seq<char>, reply: OpenReply) -> ManagerView {
    match reply {
        OpenReply::Opened(handle, fields) => if schema::schema_info(
            schema::fields_of(fields@),
        ) is Ok {
            pooled(m, ns, handle)
        } else {
            m
        },
        _ => m,
    }
}

/// The metrics after a table was opened.
pub open spec fn after_open_count(
    m: ManagerView,
    t: MetricsView,
    ns: Seq<char>,
    reply: OpenReply,
) -> MetricsView {
    match reply {
        OpenReply::Opened(_, fields) => if schema::schema_info(
            schema::fields_of(fields@),
        ) is Ok {
            pooled_count(m, t, ns)
        } else {
            t
        },
        _ => t,
    }
}

/// The open table and its schema facts, none where there is no table, or why
/// that could not be found out.
pub open spec fn open_result(ns: Seq<char>, reply: OpenReply) -> Result<
    Option<(u64, NamespaceSchemaInfo)>,
    ErrorView,
> {
    match reply {
        OpenReply::Schema(handle, fields) | OpenReply::Opened(handle, fields) =>
            match schema::schema_info(schema::fields_of(fields@)) {
                Ok(info) => Ok(Some((handle, info))),
                Err(e) => Err(e),
            },
        OpenReply::NotFound => Ok(None),
        OpenReply::Failed(f) => Err(failure(f, ns)),
    }
}

/// The step that follows a plan: the work where the table is open, else
/// opening it.
pub open spec fn step_for(
    m: ManagerView,
    ns: Seq<char>,
    planned: Result<Planned, Result<OutcomeView, ErrorView>>,
) -> StepView {
    match planned {
        Err(end) => StepView::Finish(end),
        Ok(p) => if m.handles.dom().contains(ns) {
            StepView::Perform(m.handles[ns], p)
        } else {
            StepView::OpenTable(p)
        },
    }
}

/// The first step of a task: plan at once where the schema facts are known,
/// else read them from the open table, else open it.
pub open spec fn first_step(m: ManagerView, ns: Seq<char>, task: Task) -> StepView {
    if m.schemas.dom().contains(ns) {
        step_for(m, ns, plan(ns, task, Some(m.schemas[ns])))
    } else if m.handles.dom().contains(ns) {
        StepView::ReadSchema(m.handles[ns], task)
    } else {
        StepView::OpenExisting(task)
    }
}

/// Whether batches are well formed.
pub open spec fn batches_wf(batches: Seq<Batch>) -> bool {
    forall|i: int| 0 <= i < batches.len() ==> (#[trigger] batches[i]).wf()
}

/// Whether a reply answers the work.
pub open spec fn answers(work: Work, reply: WorkReply) -> bool {
    match work {
        Work::Search { .. } | Work::Scan(_, _, _) => reply matches WorkReply::Batches(b)
            && batches_wf(b@),
        Work::Compact => reply is Compacted,
        _ => reply is Done,
    }
}

/// The manager after work on a namespace has succeeded: a write leaves the
/// schema facts, an index build or a compaction drops the handle.
pub open spec fn after_work(m: ManagerView, ns: Seq<char>, planned: Planned) -> ManagerView {
    match planned.work {
        Work::Merge(_) => learned(m, ns, planned.info),
        Work::VectorIndex { .. } | Work::TextIndex | Work::ScalarIndex(_) | Work::Compact =>
            evicted(m, ns),
        Work::Search { .. } | Work::Scan(_, _, _) => m,
    }
}

/// The metrics after work on a namespace has succeeded.
pub open spec fn after_work_count(
    m: ManagerView,
    t: MetricsView,
    ns: Seq<char>,
    planned: Planned,
) -> MetricsView {
    match planned.work {
        Work::VectorIndex { .. } | Work::TextIndex | Work::ScalarIndex(_) | Work::Compact =>
            evicted_count(m, t, ns),
        _ => t,
    }
}

/// The step that follows work that has succeeded.
pub open spec fn step_after(handle: u64, planned: Planned, reply: WorkReply) -> StepView {
    match (planned.work, reply) {
        (Work::Merge(_), _) => if planned.fresh {
            StepView::BuildIdIndex(handle, planned.info)
        } else {
            StepView::Finish(Ok(OutcomeView::Done))
        },
        (Work::Search { include_vector, .. }, WorkReply::Batches(b)) => StepView::Finish(
            match batch::all_hits(b@, planned.info.kind, include_vector) {
                Ok(hits) => Ok(OutcomeView::Hits(Seq::empty(), hits)),
                Err(e) => Err(e),
            },
        ),
        (Work::Scan(limit, _, _), WorkReply::Batches(b)) => StepView::Finish(
            match batch::all_rows(b@, planned.info.kind) {
                Ok(rows) => {
                    let page = cursor::page_of(rows, cursor::clamped(limit) as nat);
                    Ok(OutcomeView::Page(page.0, page.1))
                },
                Err(e) => Err(e),
            },
        ),
        (Work::Compact, WorkReply::Compacted(c)) => StepView::Finish(
            Ok(
                OutcomeView::Compacted(
                    match c {
                        Some((removed, added)) => CompactResult {
                            fragments_removed: removed,
                            fragments_added: added,
                        },
                        None => CompactResult { fragments_removed: 0, fragments_added: 0 },
                    },
                ),
            ),
        ),
        _ => StepView::Finish(Ok(OutcomeView::Done)),
    }
}

impl NamespaceManager {
    /// The pool is finite.
    pub open spec fn wf(&self) -> bool {
        self@.handles.dom().finite()
    }

    /// Where the namespaces live.
    pub closed spec fn root(&self) -> RootView {
        self.storage_root@
    }

    /// The storage options, in order.
    pub closed spec fn options(&self) -> Seq<(String, String)> {
        self.storage_options@
    }

    /// What does not change over the life of a manager.
    pub open spec fn same_setup(&self, other: NamespaceManager) -> bool {
        self.root() == other.root() && self.options() == other.options()
    }

    /// A manager that knows no namespace yet.
    pub fn new(storage_root: StorageRoot, storage_options: Vec<(String, String)>) -> (r:
        NamespaceManager)
        ensures
            r.wf(),
            r@ == (ManagerView { schemas: Map::empty(), handles: Map::empty() }),
            r.root() == storage_root@,
            r.options() == storage_options@,
    {
        let r = NamespaceManager {
            storage_root,
            storage_options,
            schema_info: shared::new_schema_map(),
            handles: shared::new_number_map(),
        };
        assert(r@.schemas =~= Map::empty());
        assert(r@.handles =~= Map::empty());
        r
    }

    /// Where the namespaces live.
    pub fn storage_root(&self) -> (r: &StorageRoot)
        ensures
            r@ == self.root(),
    {
        &self.storage_root
    }

    /// The storage options.
    pub fn storage_options(&self) -> (r: &Vec<(String, String)>)
        ensures
            r@ == self.options(),
    {
        &self.storage_options
    }

    /// The vector width of a namespace, if known.
    pub fn dim_for(&self, ns: &NamespaceId) -> (r: Option<usize>)
        ensures
            r == (match shared::lookup(self@.schemas, ns@) {
                Some(info) => Some(info.dim),
                None => None,
            }),
    {
        match shared::map_get(&self.schema_info, ns.as_str()) {
            Some(info) => Some(info.dim),
            None => None,
        }
    }

    /// The vector representation of a namespace, if known.
    pub fn kind_for(&self, ns: &NamespaceId) -> (r: Option<VectorKind>)
        ensures
            r == (match shared::lookup(self@.schemas, ns@) {
                Some(info) => Some(info.kind),
                None => None,
            }),
    {
        match shared::map_get(&self.schema_info, ns.as_str()) {
            Some(info) => Some(info.kind),
            None => None,
        }
    }

    /// Whether the rows of a namespace can be listed, if known.
    pub fn supports_list(&self, ns: &NamespaceId) -> (r: Option<bool>)
        ensures
            r == (match shared::lookup(self@.schemas, ns@) {
                Some(info) => Some(info.has_ingested_at),
                None => None,
            }),
    {
        match shared::map_get(&self.schema_info, ns.as_str()) {
            Some(info) => Some(info.has_ingested_at),
            None => None,
        }
    }

    /// Number of namespaces with an open table.
    pub fn pool_size(&self) -> (r: usize)
        requires
            self.wf(),
        ensures
            r == self@.handles.len(),
    {
        shared::map_len(&self.handles)
    }

    /// Whether a namespace has an open table.
    pub fn is_pooled(&self, ns: &NamespaceId) -> (r: bool)
        ensures
            r == self@.handles.dom().contains(ns@),
    {
        shared::map_has(&self.handles, ns.as_str())
    }

    /// The open table of a namespace, if there is one.
    pub fn handle_for(&self, ns: &NamespaceId) -> (r: Option<u64>)
        ensures
            r == shared::lookup(self@.handles, ns@),
    {
        shared::map_get(&self.handles, ns.as_str())
    }

    /// Where the table of a namespace lives.
    pub fn uri(&self, ns: &NamespaceId) -> (r: String)
        ensures
            r@ == crate::storage_root::root_text(self.root()) + "/"@ + ns@ + "/"@,
    {
        self.storage_root.namespace_uri(ns)
    }

    /// The path of a namespace inside its bucket.
    pub fn namespace_object_path(&self, ns: &NamespaceId) -> (r: String)
        ensures
            r@ == crate::storage_root::object_path(self.root(), ns@),
    {
        self.storage_root.namespace_object_path(ns)
    }

    /// Puts a newly opened table into the pool. It replaces one that came there
    /// first.
    pub fn cache_handle(&mut self, t: &mut CoreMetrics, ns: &NamespaceId, handle: u64)
        requires
            old(self).wf(),
            old(t).wf(),
        ensures
            final(self).wf(),
            final(t).wf(),
            final(self).same_setup(*old(self)),
            final(self)@ == pooled(old(self)@, ns@, handle),
            final(t)@ == pooled_count(old(self)@, old(t)@, ns@),
            counted(old(self)@, old(t)@) ==> counted(final(self)@, final(t)@),
    {
        if shared::map_insert(&mut self.handles, ns.as_str(), handle).is_none() {
            t.inc_cached_handles();
        }
        proof {
            law_pool_is_counted(old(self)@, old(t)@, ns@, handle);
        }
    }

    /// Drops the open table of a namespace, if it has one.
    pub fn evict_handle(&mut self, t: &mut CoreMetrics, ns: &NamespaceId)
        requires
            old(self).wf(),
            old(t).wf(),
        ensures
            final(self).wf(),
            final(t).wf(),
            final(self).same_setup(*old(self)),
            final(self)@ == evicted(old(self)@, ns@),
            final(t)@ == evicted_count(old(self)@, old(t)@, ns@),
            counted(old(self)@, old(t)@) ==> counted(final(self)@, final(t)@),
    {
        if shared::map_remove(&mut self.handles, ns.as_str()).is_some() {
            t.dec_cached_handles();
        }
        proof {
            law_pool_is_counted(old(self)@, old(t)@, ns@, 0);
        }
    }

    /// Takes in an opened table: pools it where it is new, and gives it with
    /// its schema facts. Only a table that does not exist counts as absent;
    /// any other trouble is an error.
    pub fn opened(&mut self, t: &mut CoreMetrics, ns: &NamespaceId, reply: OpenReply) -> (r: Result<
        Option<(u64, NamespaceSchemaInfo)>,
        FirnflowError,
    >)
        requires
            old(self).wf(),
            old(t).wf(),
        ensures
            final(self).wf(),
            final(t).wf(),
            final(self).same_setup(*old(self)),
            error::outcome(r) == open_result(ns@, reply),
            final(self)@ == after_open(old(self)@, ns@, reply),
            final(t)@ == after_open_count(old(self)@, old(t)@, ns@, reply),
            counted(old(self)@, old(t)@) ==> counted(final(self)@, final(t)@),
    {
        match reply {
            OpenReply::Schema(handle, fields) => match schema::read_schema_info_from_table(
                &fields,
            ) {
                Ok(info) => Ok(Some((handle, info))),
                Err(e) => Err(e),
            },
            OpenReply::Opened(handle, fields) => match schema::read_schema_info_from_table(
                &fields,
            ) {
                Ok(info) => {
                    self.cache_handle(t, ns, handle);
                    Ok(Some((handle, info)))
                },
                Err(e) => Err(e),
            },
            OpenReply::NotFound => Ok(None),
            OpenReply::Failed(f) => Err(f.into_error(ns)),
        }
    }

    /// Takes in an opened table and remembers its schema facts.
    pub fn resolve_schema_info(
        &mut self,
        t: &mut CoreMetrics,
        ns: &NamespaceId,
        reply: OpenReply,
    ) -> (r: Result<Option<NamespaceSchemaInfo>, FirnflowError>)
        requires
            old(self).wf(),
            old(t).wf(),
        ensures
            final(self).wf(),
            final(t).wf(),
            final(self).same_setup(*old(self)),
            match (error::outcome(r), open_result(ns@, reply)) {
                (Ok(known), Ok(found)) => known == (match found {
                    Some((_, info)) => Some(info),
                    None => None,
                }),
                (Err(a), Err(b)) => a == b,
                _ => false,
            },
            final(self)@ == (match open_result(ns@, reply) {
                Ok(Some((_, info))) => learned(after_open(old(self)@, ns@, reply), ns@, info),
                _ => after_open(old(self)@, ns@, reply),
            }),
            final(t)@ == after_open_count(old(self)@, old(t)@, ns@, reply),
            counted(old(self)@, old(t)@) ==> counted(final(self)@, final(t)@),
    {
        match self.opened(t, ns, reply) {
            Ok(Some((_, info))) => {
                shared::map_insert(&mut self.schema_info, ns.as_str(), info);
                Ok(Some(info))
            },
            Ok(None) => Ok(None),
            Err(e) => Err(e),
        }
    }

    /// The step that a planned task goes on with.
    fn proceed(&self, ns: &NamespaceId, task: Task, known: Option<NamespaceSchemaInfo>) -> (r: Step)
        requires
            plannable(task),
        ensures
            r@ == step_for(self@, ns@, plan(ns@, task, known)),
    {
        match plan_task(ns, task, known) {
            Ok(planned) => match self.handle_for(ns) {
                Some(handle) => Step::Perform(handle, planned),
                None => Step::OpenTable(planned),
            },
            Err(end) => Step::Finish(end),
        }
    }

    /// The first step of a task.
    fn begin(&self, ns: &NamespaceId, task: Task) -> (r: Step)
        requires
            plannable(task),
        ensures
            r@ == first_step(self@, ns@, task),
    {
        match shared::map_get(&self.schema_info, ns.as_str()) {
            Some(info) => self.proceed(ns, task, Some(info)),
            None => match self.handle_for(ns) {
                Some(handle) => Step::ReadSchema(handle, task),
                None => Step::OpenExisting(task),
            },
        }
    }

    /// Starts a write. An empty request is done at once; one with an id twice
    /// is refused before anything else.
    pub fn upsert(&self, ns: &NamespaceId, rows: Vec<UpsertRow>) -> (r: Step)
        ensures
            if rows@.len() == 0 {
                r@ == StepView::Finish(Ok(OutcomeView::Done))
            } else if !rows::ids(rows@).no_duplicates() {
                exists|i: int| #[trigger]
                    query::first_repeat(rows::ids(rows@), i) && r@ == StepView::Finish(
                        Err(rows::duplicate_id(rows::ids(rows@)[i])),
                    )
            } else {
                r@ == first_step(self@, ns@, Task::Upsert(rows))
            },
    {
        if rows.len() == 0 {
            return Step::Finish(Ok(Outcome::Done));
        }
        match rows::check_unique_ids(&rows) {
            Ok(()) => self.begin(ns, Task::Upsert(rows)),
            Err(e) => Step::Finish(Err(e)),
        }
    }

    /// Starts a search. A namespace without data has no hits.
    pub fn query(&self, ns: &NamespaceId, req: QueryRequest) -> (r: Step)
        ensures
            r@ == first_step(self@, ns@, Task::Query(req)),
    {
        self.begin(ns, Task::Query(req))
    }

    /// Starts the build of a vector index.
    pub fn create_index(
        &self,
        ns: &NamespaceId,
        num_partitions: Option<u32>,
        num_sub_vectors: Option<u32>,
        num_bits: Option<u32>,
    ) -> (r: Step)
        ensures
            r@ == (match query::ivf_pq_check(num_bits, num_sub_vectors) {
                Err(e) => StepView::Finish(Err(e)),
                Ok(()) => first_step(
                    self@,
                    ns@,
                    Task::Index(num_partitions, num_sub_vectors, num_bits),
                ),
            }),
    {
        match query::validate_ivf_pq_options(num_bits, num_sub_vectors) {
            Ok(()) => self.begin(ns, Task::Index(num_partitions, num_sub_vectors, num_bits)),
            Err(e) => Step::Finish(Err(e)),
        }
    }

    /// Starts the build of a full-text index.
    pub fn create_fts_index(&self, ns: &NamespaceId) -> (r: Step)
        ensures
            r@ == first_step(self@, ns@, Task::FtsIndex),
    {
        self.begin(ns, Task::FtsIndex)
    }

    /// Starts the build of a scalar index on `id` or `_ingested_at`.
    pub fn create_scalar_index(&self, ns: &NamespaceId, column: String) -> (r: Step)
        ensures
            r@ == (if schema::scalar_indexable(column@) {
                first_step(self@, ns@, Task::ScalarIndex(column))
            } else {
                StepView::Finish(Err(schema::not_indexable(column@)))
            }),
    {
        match schema::validate_scalar_index_column(column.as_str()) {
            Ok(()) => self.begin(ns, Task::ScalarIndex(column)),
            Err(e) => Step::Finish(Err(e)),
        }
    }

    /// Starts a compaction.
    pub fn compact(&self, ns: &NamespaceId) -> (r: Step)
        ensures
            r@ == first_step(self@, ns@, Task::Compact),
    {
        self.begin(ns, Task::Compact)
    }

    /// Starts a listing. It goes to storage past every cache, and is counted.
    pub fn list(
        &self,
        t: &mut CoreMetrics,
        ns: &NamespaceId,
        limit: usize,
        order: ListOrder,
        at: Option<(i64, u64)>,
    ) -> (r: Step)
        requires
            old(t).wf(),
        ensures
            final(t).wf(),
            final(t)@ == metrics::storage_request(old(t)@, ns@, "list"@),
            r@ == first_step(self@, ns@, Task::List(limit, order, at)),
    {
        t.record_s3_request(ns, "list");
        self.begin(ns, Task::List(limit, order, at))
    }

    /// Goes on once the table was opened, or its schema read.
    pub fn on_opened(
        &mut self,
        t: &mut CoreMetrics,
        ns: &NamespaceId,
        task: Task,
        reply: OpenReply,
    ) -> (r: Step)
        requires
            old(self).wf(),
            old(t).wf(),
            plannable(task),
        ensures
            final(self).wf(),
            final(t).wf(),
            final(self).same_setup(*old(self)),
            final(t)@ == after_open_count(old(self)@, old(t)@, ns@, reply),
            counted(old(self)@, old(t)@) ==> counted(final(self)@, final(t)@),
            match open_result(ns@, reply) {
                Err(e) => final(self)@ == after_open(old(self)@, ns@, reply) && r@
                    == StepView::Finish(Err(e)),
                Ok(None) => final(self)@ == after_open(old(self)@, ns@, reply) && r@ == step_for(
                    final(self)@,
                    ns@,
                    plan(ns@, task, None),
                ),
                Ok(Some((_, info))) => final(self)@ == learned(
                    after_open(old(self)@, ns@, reply),
                    ns@,
                    info,
                ) && r@ == step_for(final(self)@, ns@, plan(ns@, task, Some(info))),
            },
    {
        match self.resolve_schema_info(t, ns, reply) {
            Ok(known) => self.proceed(ns, task, known),
            Err(e) => Step::Finish(Err(e)),
        }
    }

    /// Goes on once the table was opened or created.
    pub fn on_table(
        &mut self,
        t: &mut CoreMetrics,
        ns: &NamespaceId,
        planned: Planned,
        reply: Result<u64, Failure>,
    ) -> (r: Step)
        requires
            old(self).wf(),
            old(t).wf(),
        ensures
            final(self).wf(),
            final(t).wf(),
            final(self).same_setup(*old(self)),
            counted(old(self)@, old(t)@) ==> counted(final(self)@, final(t)@),
            match reply {
                Ok(handle) => final(self)@ == pooled(old(self)@, ns@, handle) && final(t)@
                    == pooled_count(old(self)@, old(t)@, ns@) && r@ == StepView::Perform(
                    handle,
                    planned,
                ),
                Err(f) => final(self)@ == old(self)@ && final(t)@ == old(t)@ && r@
                    == StepView::Finish(Err(failure(f, ns@))),
            },
    {
        match reply {
            Ok(handle) => {
                self.cache_handle(t, ns, handle);
                Step::Perform(handle, planned)
            },
            Err(f) => Step::Finish(Err(f.into_error(ns))),
        }
    }

    /// Goes on once the work was done.
    pub fn on_worked(
        &mut self,
        t: &mut CoreMetrics,
        ns: &NamespaceId,
        handle: u64,
        planned: Planned,
        reply: Result<WorkReply, Failure>,
    ) -> (r: Step)
        requires
            old(self).wf(),
            old(t).wf(),
            reply matches Ok(x) ==> answers(planned.work, x),
        ensures
            final(self).wf(),
            final(t).wf(),
            final(self).same_setup(*old(self)),
            counted(old(self)@, old(t)@) ==> counted(final(self)@, final(t)@),
            match reply {
                Ok(x) => final(self)@ == after_work(old(self)@, ns@, planned) && final(t)@
                    == after_work_count(old(self)@, old(t)@, ns@, planned) && r@ == step_after(
                    handle,
                    planned,
                    x,
                ),
                Err(f) => final(self)@ == old(self)@ && final(t)@ == old(t)@ && r@
                    == StepView::Finish(Err(failure(f, ns@))),
            },
    {
        let reply = match reply {
            Ok(x) => x,
            Err(f) => {
                return Step::Finish(Err(f.into_error(ns)));
            },
        };
        match planned.work {
            Work::Merge(_) => {
                shared::map_insert(&mut self.schema_info, ns.as_str(), planned.info);
                if planned.fresh {
                    Step::BuildIdIndex(handle, planned.info)
                } else {
                    Step::Finish(Ok(Outcome::Done))
                }
            },
            Work::Search { include_vector, .. } => match reply {
                WorkReply::Batches(b) => match batch::batches_to_results(
                    &b,
                    planned.info.kind,
                    include_vector,
                ) {
                    Ok(results) => {
                        let set = QueryResultSet { query_id: String::new(), results };
                        assert(set@.0 =~= Seq::<char>::empty());
                        Step::Finish(Ok(Outcome::Hits(set)))
                    },
                    Err(e) => Step::Finish(Err(e)),
                },
                _ => Step::Finish(Ok(Outcome::Done)),
            },
            Work::Scan(limit, order, at) => match reply {
                WorkReply::Batches(b) => match batch::batches_to_list_rows(
                    &b,
                    planned.info.kind,
                ) {
                    Ok(rows) => {
                        let scan = cursor::plan_list(limit, order, at);
                        Step::Finish(Ok(Outcome::Page(cursor::finish_list(rows, scan.limit))))
                    },
                    Err(e) => Step::Finish(Err(e)),
                },
                _ => Step::Finish(Ok(Outcome::Done)),
            },
            Work::VectorIndex { .. } | Work::TextIndex | Work::ScalarIndex(_) => {
                self.evict_handle(t, ns);
                Step::Finish(Ok(Outcome::Done))
            },
            Work::Compact => {
                self.evict_handle(t, ns);
                match reply {
                    WorkReply::Compacted(Some((removed, added))) => Step::Finish(
                        Ok(
                            Outcome::Compacted(
                                CompactResult {
                                    fragments_removed: removed,
                                    fragments_added: added,
                                },
                            ),
                        ),
                    ),
                    _ => Step::Finish(
                        Ok(
                            Outcome::Compacted(
                                CompactResult { fragments_removed: 0, fragments_added: 0 },
                            ),
                        ),
                    ),
                }
            },
        }
    }

    /// Goes on once the index on `id` was built, or not. The rows are written
    /// already, so a failure changes nothing; after a success the handle, which
    /// does not see the index, is replaced.
    pub fn on_id_index(
        &mut self,
        t: &mut CoreMetrics,
        ns: &NamespaceId,
        info: NamespaceSchemaInfo,
        built: bool,
    ) -> (r: Step)
        requires
            old(self).wf(),
            old(t).wf(),
        ensures
            final(self).wf(),
            final(t).wf(),
            final(self).same_setup(*old(self)),
            counted(old(self)@, old(t)@) ==> counted(final(self)@, final(t)@),
            if built {
                final(self)@ == evicted(old(self)@, ns@) && final(t)@ == evicted_count(
                    old(self)@,
                    old(t)@,
                    ns@,
                ) && r@ == StepView::Reopen(info)
            } else {
                final(self)@ == old(self)@ && final(t)@ == old(t)@ && r@ == StepView::Finish(
                    Ok(OutcomeView::Done),
                )
            },
    {
        if built {
            self.evict_handle(t, ns);
            Step::Reopen(info)
        } else {
            Step::Finish(Ok(Outcome::Done))
        }
    }

    /// Goes on once the table was opened afresh, or not. Where it was not, the
    /// next operation opens it.
    pub fn on_reopened(&mut self, t: &mut CoreMetrics, ns: &NamespaceId, reply: Option<u64>) -> (r:
        Step)
        requires
            old(self).wf(),
            old(t).wf(),
        ensures
            final(self).wf(),
            final(t).wf(),
            final(self).same_setup(*old(self)),
            counted(old(self)@, old(t)@) ==> counted(final(self)@, final(t)@),
            r@ == StepView::Finish(Ok(OutcomeView::Done)),
            match reply {
                Some(handle) => final(self)@ == pooled(old(self)@, ns@, handle) && final(t)@
                    == pooled_count(old(self)@, old(t)@, ns@),
                None => final(self)@ == old(self)@ && final(t)@ == old(t)@,
            },
    {
        if let Some(handle) = reply {
            self.cache_handle(t, ns, handle);
        }
        Step::Finish(Ok(Outcome::Done))
    }

    /// Forgets a namespace whose objects were removed, and gives how many they
    /// were. A later write may choose another shape.
    pub fn delete(&mut self, t: &mut CoreMetrics, ns: &NamespaceId, removed: usize) -> (r: usize)
        requires
            old(self).wf(),
            old(t).wf(),
        ensures
            final(self).wf(),
            final(t).wf(),
            final(self).same_setup(*old(self)),
            counted(old(self)@, old(t)@) ==> counted(final(self)@, final(t)@),
            r == removed,
            final(self)@ == (ManagerView {
                schemas: old(self)@.schemas.remove(ns@),
                handles: old(self)@.handles.remove(ns@),
            }),
            final(t)@ == evicted_count(old(self)@, old(t)@, ns@),
    {
        shared::map_remove(&mut self.schema_info, ns.as_str());
        self.evict_handle(t, ns);
        removed
    }

    /// Where to read metadata from: the open table, or one still to open.
    pub open spec fn probe(m: ManagerView, ns: Seq<char>) -> Probe {
        if m.handles.dom().contains(ns) {
            Probe::Open(m.handles[ns])
        } else {
            Probe::Absent
        }
    }

    /// Starts a read of a namespace's metadata. It goes to storage, and is
    /// counted. [`NamespaceManager::opened`] takes the table in;
    /// [`finish_info`] ends it.
    pub fn info(&self, t: &mut CoreMetrics, ns: &NamespaceId) -> (r: Probe)
        requires
            old(t).wf(),
        ensures
            final(t).wf(),
            final(t)@ == metrics::storage_request(old(t)@, ns@, "info"@),
            r == NamespaceManager::probe(self@, ns@),
    {
        t.record_s3_request(ns, "info");
        match self.handle_for(ns) {
            Some(handle) => Probe::Open(handle),
            None => Probe::Absent,
        }
    }

    /// Starts a read of a namespace's cache generation. An open table has its
    /// manifest at hand; else [`NamespaceManager::opened`] takes the table in.
    /// [`finish_generation`] ends it. No table is ever created.
    pub fn generation(&self, ns: &NamespaceId) -> (r: Probe)
        ensures
            r == NamespaceManager::probe(self@, ns@),
    {
        match self.handle_for(ns) {
            Some(handle) => Probe::Open(handle),
            None => Probe::Absent,
        }
    }
}

/// Whether a namespace has an open table.
#[derive(Debug, Clone, Copy, PartialEq, Eq, Structural)]
pub enum Probe {
    /// It has this one.
    Open(u64),
    /// It has none: open the table if it exists.
    Absent,
}

/// The cache generation of a namespace, from the version and commit time in
/// its table's manifest; 0 without a table.
pub fn finish_generation(manifest: Option<(u64, u128)>) -> (r: u64)
    ensures
        r == (match manifest {
            Some((version, timestamp_nanos)) => hash::generation(version, timestamp_nanos),
            None => 0,
        }),
{
    match manifest {
        Some((version, timestamp_nanos)) => hash::generation_of(version, timestamp_nanos),
        None => 0,
    }
}

/// Whether a namespace's metadata is what its table says: the schema facts,
/// the counts, and which families of indexes there are.
pub open spec fn describes(
    r: NamespaceInfo,
    ns: Seq<char>,
    info: NamespaceSchemaInfo,
    row_count: usize,
    indexes: Seq<IndexType>,
    fragment_count: usize,
    table_version: u64,
) -> bool {
    &&& r.namespace@ == ns
    &&& r.kind == info.kind
    &&& r.vector_dim == info.dim
    &&& r.row_count == row_count
    &&& r.fragment_count == fragment_count
    &&& r.table_version == table_version
    &&& r.has_vector_index <==> exists|i: int|
        0 <= i < indexes.len() && schema::is_vector_index(#[trigger] indexes[i])
    &&& r.has_fts_index <==> exists|i: int| 0 <= i < indexes.len() && #[trigger] indexes[i] is FTS
    &&& r.has_scalar_index <==> exists|i: int|
        0 <= i < indexes.len() && schema::is_scalar_index(#[trigger] indexes[i])
}

/// The metadata of a namespace.
pub fn finish_info(
    ns: &NamespaceId,
    info: NamespaceSchemaInfo,
    row_count: usize,
    indexes: &Vec<IndexType>,
    fragment_count: usize,
    table_version: u64,
) -> (r: NamespaceInfo)
    ensures
        describes(r, ns@, info, row_count, indexes@, fragment_count, table_version),
{
    let (has_vector_index, has_fts_index, has_scalar_index) = schema::classify_index_types(indexes);
    NamespaceInfo {
        namespace: ns.as_str().to_string(),
        kind: info.kind,
        vector_dim: info.dim,
        row_count,
        fragment_count,
        has_vector_index,
        has_fts_index,
        has_scalar_index,
        table_version,
    }
}

// ------------------------------------------------------------------ laws
/// Putting a handle into the pool and taking one out keep the gauge at the
/// size of the pool.
pub proof fn law_pool_is_counted(m: ManagerView, t: MetricsView, ns: Seq<char>, handle: u64)
    requires
        m.handles.dom().finite(),
    ensures
        counted(m, t) ==> counted(pooled(m, ns, handle), pooled_count(m, t, ns)),
        counted(m, t) ==> counted(evicted(m, ns), evicted_count(m, t, ns)),
        pooled(m, ns, handle).handles.dom().finite(),
        evicted(m, ns).handles.dom().finite(),
{
    assert(pooled(m, ns, handle).handles.dom() =~= m.handles.dom().insert(ns));
    assert(evicted(m, ns).handles.dom() =~= m.handles.dom().remove(ns));
    if m.handles.dom().contains(ns) {
        assert(m.handles.dom().insert(ns) =~= m.handles.dom());
    } else {
        assert(m.handles.dom().remove(ns) =~= m.handles.dom());
    }
}

/// While the pool is no larger than the gauge can show, the gauge shows its
/// size.
pub proof fn law_gauge_shows_the_pool(m: ManagerView, t: MetricsView)
    requires
        counted(m, t),
        m.handles.len() <= i64::MAX,
    ensures
        t.cached_handles == m.handles.len(),
{
}

/// A search or a listing in a namespace without data ends with nothing found,
/// unless the search sets both vector fields, which is refused; no table is
/// opened for it, so none is created.
pub proof fn law_reads_never_create_tables(ns: Seq<char>, task: Task)
    requires
        task is Query || task is List,
    ensures
        plan(ns, task, None) is Err,
        plan(ns, task, None)->Err_0 is Ok <==> !(task matches Task::Query(req) && sets_both(req)),
{
}

/// A search that sets both vector fields is refused, with a table or without.
pub proof fn law_both_vector_fields_are_refused(
    ns: Seq<char>,
    req: QueryRequest,
    known: Option<NamespaceSchemaInfo>,
)
    requires
        sets_both(req),
    ensures
        plan(ns, Task::Query(req), known) == Err::<Planned, Result<OutcomeView, ErrorView>>(
            Err(both_fields()),
        ),
{
}

/// Only a write may create a table: every other operation on a namespace
/// without data ends without asking for one.
pub proof fn law_only_writes_create_tables(ns: Seq<char>, task: Task)
    requires
        !(task is Upsert),
    ensures
        plan(ns, task, None) is Err,
{
}

/// After a successful index build or compaction the namespace has no pooled
/// handle, so the next operation opens the table afresh; after a successful
/// write or read the pool is as it was.
pub proof fn law_handles_are_dropped_exactly_when_outdated(
    m: ManagerView,
    ns: Seq<char>,
    planned: Planned,
)
    ensures
        (planned.work is VectorIndex || planned.work is TextIndex || planned.work is ScalarIndex
            || planned.work is Compact) ==> !after_work(m, ns, planned).handles.dom().contains(ns),
        (planned.work is Merge || planned.work is Search || planned.work is Scan) ==> after_work(
            m,
            ns,
            planned,
        ).handles == m.handles,
{
}

/// The first write of a namespace does not leave the pool cold: once the index
/// on `id` is built and the table opened again, its handle is pooled, and the
/// gauge is what it was with the old handle.
pub proof fn law_first_write_leaves_a_warm_handle(
    m: ManagerView,
    t: MetricsView,
    ns: Seq<char>,
    handle: u64,
)
    requires
        m.handles.dom().contains(ns),
    ensures
        pooled(evicted(m, ns), ns, handle).handles == m.handles.insert(ns, handle),
        pooled_count(evicted(m, ns), evicted_count(m, t, ns), ns) == t,
{
    assert(m.handles.remove(ns).insert(ns, handle) =~= m.handles.insert(ns, handle));
}

/// A written namespace is known by the facts of the write, and a deleted one
/// is unknown: the next write may choose another shape.
pub proof fn law_writes_teach_and_deletes_forget(
    m: ManagerView,
    ns: Seq<char>,
    planned: Planned,
)
    requires
        planned.work is Merge,
    ensures
        after_work(m, ns, planned).schemas[ns] == planned.info,
        after_work(m, ns, planned).schemas.dom().contains(ns),
        !m.schemas.remove(ns).dom().contains(ns),
{
}

/// What an operation on one namespace does leaves every other namespace alone.
pub proof fn law_namespaces_do_not_interfere(
    m: ManagerView,
    ns: Seq<char>,
    other: Seq<char>,
    planned: Planned,
    reply: OpenReply,
    handle: u64,
    task: Task,
)
    requires
        ns != other,
    ensures
        first_step(after_work(m, ns, planned), other, task) == first_step(m, other, task),
        first_step(after_open(m, ns, reply), other, task) == first_step(m, other, task),
        first_step(pooled(m, ns, handle), other, task) == first_step(m, other, task),
        first_step(evicted(m, ns), other, task) == first_step(m, other, task),
{
}

/// Whether a namespace of these facts can be searched as a request asks: by one
/// vector of its width, by a bag of vectors of its width, or by text alone.
pub open spec fn searchable(info: NamespaceSchemaInfo, req: QueryRequest) -> bool {
    if req.vector@.len() > 0 {
        info.kind is Single && req.vectors is None && req.vector@.len() == info.dim
    } else if req.vectors is Some && req.vectors->0@.len() > 0 {
        info.kind is Multivector && forall|i: int|
            0 <= i < req.vectors->0@.len() ==> (#[trigger] req.vectors->0@[i])@.len() == info.dim
    } else {
        req.text is Some
    }
}

proof fn lemma_off_width(subs: Seq<Vec<u32>>, dim: usize, from: int)
    requires
        0 <= from,
    ensures
        off_width(subs, dim, from) is None <==> forall|i: int|
            from <= i < subs.len() ==> (#[trigger] subs[i])@.len() == dim,
        off_width(subs, dim, from) matches Some(i) ==> from <= i < subs.len() && subs[i]@.len()
            != dim && forall|j: int| from <= j < i ==> (#[trigger] subs[j])@.len() == dim,
    decreases subs.len() - from,
{
    if from < subs.len() {
        lemma_off_width(subs, dim, from + 1);
    }
}

/// The search that is planned for a request is the one it asks for. It goes by
/// the request's vector, by its bag, or by nothing but text, whichever the
/// request gives; and it has the request's text, predicate, number of results
/// and choice of vectors, and the request's partitions or else twenty.
pub proof fn law_searches_are_what_requests_ask(
    ns: Seq<char>,
    req: QueryRequest,
    known: Option<NamespaceSchemaInfo>,
    planned: Planned,
)
    requires
        plan(ns, Task::Query(req), known) == Ok::<Planned, Result<OutcomeView, ErrorView>>(planned),
    ensures
        known == Some(planned.info),
        !planned.fresh,
        planned.work is Search,
        planned.work->text == req.text,
        planned.work->filter == req.filter,
        planned.work->limit == req.k,
        planned.work->Search_include_vector == req.include_vector,
        req.nprobes matches Some(n) ==> planned.work->nprobes == n,
        req.nprobes is None ==> planned.work->nprobes == 20,
        req.vector@.len() > 0 ==> planned.work->shape == QueryShape::Single(req.vector),
        req.vector@.len() == 0 && req.vectors is Some && req.vectors->0@.len() > 0
            ==> planned.work->shape == QueryShape::Multi(req.vectors->0),
        req.vector@.len() == 0 && (req.vectors is None || req.vectors->0@.len() == 0)
            ==> planned.work->shape is Text && req.text is Some,
{
}

/// A search returns the stored vectors exactly where the request asks for them;
/// where it does not, it returns the id and the text, and the write time where
/// the table has it.
pub proof fn law_searches_return_the_columns_asked_for(
    ns: Seq<char>,
    req: QueryRequest,
    known: Option<NamespaceSchemaInfo>,
    planned: Planned,
)
    requires
        plan(ns, Task::Query(req), known) == Ok::<Planned, Result<OutcomeView, ErrorView>>(planned),
    ensures
        req.include_vector ==> projected(planned.work->projection) is None,
        !req.include_vector ==> (projected(planned.work->projection) matches Some(columns)
            && !columns.contains("vector"@) && columns.contains("id"@) && columns.contains("text"@)
            && (columns.contains("_ingested_at"@) <==> planned.info.has_ingested_at)),
{
    reveal_strlit("id");
    reveal_strlit("text");
    reveal_strlit("vector");
    reveal_strlit("_ingested_at");
    assert("id"@.len() == 2 && "text"@.len() == 4 && "vector"@.len() == 6 && "_ingested_at"@.len()
        == 12);
    if !req.include_vector {
        let columns = projected(planned.work->projection)->0;
        assert(columns[0] == "id"@ && columns[1] == "text"@);
        if planned.info.has_ingested_at {
            assert(columns[2] == "_ingested_at"@);
        }
    }
}

/// A search is planned exactly where there is a table that it fits. Where there
/// is none it ends with no hits, unless both vector fields are set; and whatever
/// does not fit is refused as the caller's mistake.
pub proof fn law_searches_are_planned_where_they_fit(
    ns: Seq<char>,
    req: QueryRequest,
    known: Option<NamespaceSchemaInfo>,
)
    ensures
        plan(ns, Task::Query(req), known) is Ok <==> (known matches Some(info) && searchable(
            info,
            req,
        )),
        known is None && !(req.vector@.len() > 0 && req.vectors is Some) ==> plan(
            ns,
            Task::Query(req),
            known,
        ) == Err::<Planned, Result<OutcomeView, ErrorView>>(
            Ok(OutcomeView::Hits(Seq::empty(), Seq::empty())),
        ),
        (known is Some || (req.vector@.len() > 0 && req.vectors is Some)) && plan(
            ns,
            Task::Query(req),
            known,
        ) is Err ==> (plan(ns, Task::Query(req), known)->Err_0 matches Err(e)
            && e is InvalidRequest),
{
    if let (Some(info), Some(subs)) = (known, req.vectors) {
        lemma_off_width(subs@, info.dim, 0);
    }
}

/// The vector index of a namespace of single vectors goes by Euclidean distance,
/// that of a multivector namespace by cosine, the only one that late interaction
/// has. It has the partitions, sub-vectors and bits that were asked for.
pub proof fn law_vector_indexes_are_what_requests_ask(
    ns: Seq<char>,
    partitions: Option<u32>,
    sub_vectors: Option<u32>,
    bits: Option<u32>,
    info: NamespaceSchemaInfo,
)
    ensures
        ({
            let planned = plan(ns, Task::Index(partitions, sub_vectors, bits), Some(info))->Ok_0;
            &&& plan(ns, Task::Index(partitions, sub_vectors, bits), Some(info)) is Ok
            &&& planned.info == info
            &&& !planned.fresh
            &&& planned.work is VectorIndex
            &&& info.kind is Single ==> planned.work->distance is L2
            &&& info.kind is Multivector ==> planned.work->distance is Cosine
            &&& planned.work->num_partitions == partitions
            &&& planned.work->num_sub_vectors == sub_vectors
            &&& planned.work->num_bits == bits
        }),
{
}

/// Building the text index, building a scalar index and compacting are planned as
/// just that, a scalar index on the column that was asked for. A scalar index is
/// refused only where it is to be on write times that the table does not have.
pub proof fn law_other_maintenance_is_what_requests_ask(
    ns: Seq<char>,
    column: String,
    info: NamespaceSchemaInfo,
)
    ensures
        plan(ns, Task::FtsIndex, Some(info)) == Ok::<Planned, Result<OutcomeView, ErrorView>>(
            Planned { info, fresh: false, work: Work::TextIndex },
        ),
        plan(ns, Task::Compact, Some(info)) == Ok::<Planned, Result<OutcomeView, ErrorView>>(
            Planned { info, fresh: false, work: Work::Compact },
        ),
        plan(ns, Task::ScalarIndex(column), Some(info)) is Ok <==> (info.has_ingested_at || column@
            != "_ingested_at"@),
        plan(ns, Task::ScalarIndex(column), Some(info)) is Ok ==> plan(
            ns,
            Task::ScalarIndex(column),
            Some(info),
        )->Ok_0 == (Planned { info, fresh: false, work: Work::ScalarIndex(column) }),
        plan(ns, Task::ScalarIndex(column), Some(info)) is Err ==> (plan(
            ns,
            Task::ScalarIndex(column),
            Some(info),
        )->Err_0 matches Err(e) && e is Unsupported),
{
}

/// Maintenance of a namespace without data is refused as the caller's mistake.
pub proof fn law_maintenance_needs_data(ns: Seq<char>, task: Task)
    requires
        task is Index || task is FtsIndex || task is ScalarIndex || task is Compact,
    ensures
        plan(ns, task, None) matches Err(Err(e)) && e is InvalidRequest,
{
}

/// A listing is planned as a scan of the page, order and position that were asked
/// for; without a table it is an empty last page, and without write times it is
/// refused.
pub proof fn law_listings_are_what_requests_ask(
    ns: Seq<char>,
    limit: usize,
    order: ListOrder,
    at: Option<(i64, u64)>,
    info: NamespaceSchemaInfo,
)
    ensures
        info.has_ingested_at ==> plan(ns, Task::List(limit, order, at), Some(info)) == Ok::<
            Planned,
            Result<OutcomeView, ErrorView>,
        >(Planned { info, fresh: false, work: Work::Scan(limit, order, at) }),
        !info.has_ingested_at ==> (plan(
            ns,
            Task::List(limit, order, at),
            Some(info),
        ) matches Err(Err(e)) && e is Unsupported),
        plan(ns, Task::List(limit, order, at), None) == Err::<
            Planned,
            Result<OutcomeView, ErrorView>,
        >(Ok(OutcomeView::Page(Seq::empty(), None))),
{
}

/// A write is planned as a merge of exactly the rows that were sent. It is
/// written under the facts of the table, or, where there is none, under the
/// representation and width of its first row.
pub proof fn law_writes_are_what_requests_ask(
    ns: Seq<char>,
    rows: Vec<UpsertRow>,
    known: Option<NamespaceSchemaInfo>,
    planned: Planned,
)
    requires
        rows@.len() > 0,
        plan(ns, Task::Upsert(rows), known) == Ok::<Planned, Result<OutcomeView, ErrorView>>(
            planned,
        ),
    ensures
        planned.work == Work::Merge(rows),
        planned.fresh <==> known is None,
        known matches Some(info) ==> planned.info == info,
        known is None ==> planned.info.has_ingested_at,
        known is None && rows@[0].vector@.len() > 0 ==> planned.info.kind is Single
            && planned.info.dim == rows@[0].vector@.len(),
        known is None && rows@[0].vector@.len() == 0 ==> planned.info.kind is Multivector
            && planned.info.dim == rows@[0].vectors->0@[0]@.len(),
{
}

/// An operation goes on with what it was started with. Where the schema facts are
/// known it is planned at once, and the plan is carried out on the open table, or
/// on one still to open; else the schema is read from the open table, or the table
/// opened, with the task as it was.
pub proof fn law_first_steps_carry_the_task(m: ManagerView, ns: Seq<char>, task: Task)
    ensures
        match first_step(m, ns, task) {
            StepView::ReadSchema(handle, t) => t == task && !m.schemas.dom().contains(ns)
                && m.handles.dom().contains(ns) && handle == m.handles[ns],
            StepView::OpenExisting(t) => t == task && !m.schemas.dom().contains(ns)
                && !m.handles.dom().contains(ns),
            StepView::Perform(handle, p) => m.schemas.dom().contains(ns) && plan(
                ns,
                task,
                Some(m.schemas[ns]),
            ) == Ok::<Planned, Result<OutcomeView, ErrorView>>(p) && m.handles.dom().contains(ns)
                && handle == m.handles[ns],
            StepView::OpenTable(p) => m.schemas.dom().contains(ns) && plan(
                ns,
                task,
                Some(m.schemas[ns]),
            ) == Ok::<Planned, Result<OutcomeView, ErrorView>>(p) && !m.handles.dom().contains(ns),
            StepView::Finish(end) => m.schemas.dom().contains(ns) && plan(
                ns,
                task,
                Some(m.schemas[ns]),
            ) == Err::<Planned, Result<OutcomeView, ErrorView>>(end),
            _ => false,
        },
{
}

/// A table counts as absent exactly where storage says there is none. A table
/// that was opened is known by its own handle and its own columns, and any other
/// trouble is an error of the backend that carries what storage said.
pub proof fn law_only_missing_tables_are_absent(ns: Seq<char>, reply: OpenReply)
    ensures
        open_result(ns, reply) == Ok::<Option<(u64, NamespaceSchemaInfo)>, ErrorView>(None)
            <==> reply is NotFound,
        reply matches OpenReply::Opened(handle, fields) ==> (open_result(ns, reply) matches Ok(Some(
            found,
        )) ==> found.0 == handle && schema::schema_info(schema::fields_of(fields@)) == Ok::<
            NamespaceSchemaInfo,
            ErrorView,
        >(found.1)),
        reply matches OpenReply::Schema(handle, fields) ==> (open_result(ns, reply) matches Ok(Some(
            found,
        )) ==> found.0 == handle && schema::schema_info(schema::fields_of(fields@)) == Ok::<
            NamespaceSchemaInfo,
            ErrorView,
        >(found.1)),
        reply matches OpenReply::Failed(f) ==> (open_result(ns, reply) matches Err(
            ErrorView::Backend(said),
        ) && (self_explaining(f.stage) || exists|label: Seq<char>| said == #[trigger] (label
            + f.text@))),
{
    if let OpenReply::Failed(f) = reply {
        if !self_explaining(f.stage) {
            let label = stage_label(f.stage, ns) + ": "@;
            assert(failure(f, ns) == ErrorView::Backend(label + f.text@));
        }
    }
}

/// An opened table is pooled under its namespace with its own handle, where its
/// columns can be read; nothing else changes the pool, and the schema facts are
/// left alone.
pub proof fn law_opened_tables_are_pooled(m: ManagerView, ns: Seq<char>, reply: OpenReply)
    ensures
        after_open(m, ns, reply).schemas == m.schemas,
        (reply matches OpenReply::Opened(handle, fields) && schema::schema_info(
            schema::fields_of(fields@),
        ) is Ok) ==> after_open(m, ns, reply).handles == m.handles.insert(ns, reply->Opened_0),
        !(reply matches OpenReply::Opened(handle, fields) && schema::schema_info(
            schema::fields_of(fields@),
        ) is Ok) ==> after_open(m, ns, reply).handles == m.handles,
{
}

/// What a search found is answered in full and in order, a batch after the other;
/// what a scan found as its first rows, as many as the page holds; and what a
/// compaction did with its two counts as they are, none where it did not run.
pub proof fn law_answers_are_what_the_work_brought(
    handle: u64,
    planned: Planned,
    batches: Vec<Batch>,
    counts: Option<(usize, usize)>,
)
    ensures
        planned.work is Search ==> step_after(handle, planned, WorkReply::Batches(batches))
            == StepView::Finish(
            match batch::all_hits(
                batches@,
                planned.info.kind,
                planned.work->Search_include_vector,
            ) {
                Ok(hits) => Ok(OutcomeView::Hits(Seq::empty(), hits)),
                Err(e) => Err(e),
            },
        ),
        planned.work is Scan && batch::all_rows(batches@, planned.info.kind) is Ok ==> (step_after(
            handle,
            planned,
            WorkReply::Batches(batches),
        ) matches StepView::Finish(Ok(OutcomeView::Page(rows, next))) && ({
            let all = batch::all_rows(batches@, planned.info.kind)->Ok_0;
            let limit = cursor::clamped(planned.work->Scan_0) as int;
            &&& rows.len() == (if all.len() < limit {
                all.len() as int
            } else {
                limit
            })
            &&& forall|i: int| 0 <= i < rows.len() ==> rows[i] == all[i]
            &&& next is Some <==> all.len() > limit
        })),
        planned.work is Compact && counts is Some ==> step_after(
            handle,
            planned,
            WorkReply::Compacted(counts),
        ) == StepView::Finish(
            Ok(
                OutcomeView::Compacted(
                    CompactResult {
                        fragments_removed: (counts->0).0,
                        fragments_added: (counts->0).1,
                    },
                ),
            ),
        ),
        planned.work is Compact && counts is None ==> step_after(
            handle,
            planned,
            WorkReply::Compacted(counts),
        ) == StepView::Finish(
            Ok(
                OutcomeView::Compacted(
                    CompactResult { fragments_removed: 0, fragments_added: 0 },
                ),
            ),
        ),
{
}

/// A first write goes on to build the index on `id`, on the table that it wrote
/// to; every later one is done.
pub proof fn law_first_writes_build_the_id_index(handle: u64, planned: Planned)
    requires
        planned.work is Merge,
    ensures
        step_after(handle, planned, WorkReply::Done) == (if planned.fresh {
            StepView::BuildIdIndex(handle, planned.info)
        } else {
            StepView::Finish(Ok(OutcomeView::Done))
        }),
{
}

/// Where metadata and generations are read from: the namespace's own open table,
/// if it has one.
pub proof fn law_probes_use_the_open_table(m: ManagerView, ns: Seq<char>)
    ensures
        m.handles.dom().contains(ns) ==> NamespaceManager::probe(m, ns) == Probe::Open(
            m.handles[ns],
        ),
        !m.handles.dom().contains(ns) ==> NamespaceManager::probe(m, ns) is Absent,
{
}

/// Each storage option sets the part of an S3 client that it is named after, and
/// a switch is on exactly where its value is `true`. Options of other names set
/// nothing.
pub proof fn law_s3_options_set_their_part(key: Seq<char>, value: Seq<char>)
    ensures
        s3_option(key, value) == Some(S3Setting::AccessKeyId) <==> key == "aws_access_key_id"@,
        s3_option(key, value) == Some(S3Setting::SecretAccessKey) <==> key
            == "aws_secret_access_key"@,
        s3_option(key, value) == Some(S3Setting::Region) <==> key == "aws_region"@,
        s3_option(key, value) == Some(S3Setting::Endpoint) <==> key == "aws_endpoint"@,
        key == "allow_http"@ ==> s3_option(key, value) == Some(
            S3Setting::AllowHttp(value == "true"@),
        ),
        key == "aws_virtual_hosted_style_request"@ ==> s3_option(key, value) == Some(
            S3Setting::VirtualHostedStyle(value == "true"@),
        ),
        s3_option(key, value) is None <==> key != "aws_access_key_id"@ && key
            != "aws_secret_access_key"@ && key != "aws_region"@ && key != "aws_endpoint"@ && key
            != "allow_http"@ && key != "aws_virtual_hosted_style_request"@,
{
    reveal_strlit("aws_access_key_id");
    reveal_strlit("aws_secret_access_key");
    reveal_strlit("aws_region");
    reveal_strlit("aws_endpoint");
    reveal_strlit("allow_http");
    reveal_strlit("aws_virtual_hosted_style_request");
    assert("aws_access_key_id"@.len() == 17 && "aws_secret_access_key"@.len() == 21
        && "aws_region"@.len() == 10 && "aws_endpoint"@.len() == 12);
    assert("allow_http"@.len() == 10 && "aws_virtual_hosted_style_request"@.len() == 32);
    assert("allow_http"@[1] == 'l' && "aws_region"@[1] == 'w');
}

/// The names that a service-account file goes by set its path, and nothing else
/// does; a service-account key and application-default credentials each have one
/// name.
pub proof fn law_gcs_options_set_their_part(key: Seq<char>)
    ensures
        gcs_option(key) == Some(GcsSetting::ServiceAccountPath) <==> (key
            == "google_service_account"@ || key == "google_service_account_path"@),
        gcs_option(key) == Some(GcsSetting::ServiceAccountKey) <==> key
            == "google_service_account_key"@,
        gcs_option(key) == Some(GcsSetting::ApplicationCredentials) <==> key
            == "google_application_credentials"@,
{
    reveal_strlit("google_service_account");
    reveal_strlit("google_service_account_path");
    reveal_strlit("google_service_account_key");
    reveal_strlit("google_application_credentials");
    assert("google_service_account"@.len() == 22 && "google_service_account_path"@.len() == 27
        && "google_service_account_key"@.len() == 26 && "google_application_credentials"@.len()
        == 30);
}

/// The metadata of a namespace says of each thing what its table says: every
/// count is its own, and each kind of index is there exactly where the table has
/// one of it.
pub proof fn law_metadata_is_the_tables(
    r: NamespaceInfo,
    ns: Seq<char>,
    info: NamespaceSchemaInfo,
    row_count: usize,
    indexes: Seq<IndexType>,
    fragment_count: usize,
    table_version: u64,
)
    requires
        describes(r, ns, info, row_count, indexes, fragment_count, table_version),
    ensures
        r.namespace@ == ns,
        r.kind == info.kind,
        r.vector_dim == info.dim,
        r.row_count == row_count,
        r.fragment_count == fragment_count,
        r.table_version == table_version,
        indexes.contains(IndexType::FTS) ==> r.has_fts_index,
        indexes.contains(IndexType::BTree) || indexes.contains(IndexType::Bitmap)
            || indexes.contains(IndexType::LabelList) ==> r.has_scalar_index,
        indexes.contains(IndexType::IvfPq) || indexes.contains(IndexType::IvfFlat)
            || indexes.contains(IndexType::IvfSq) || indexes.contains(IndexType::IvfRq)
            || indexes.contains(IndexType::IvfHnswPq) || indexes.contains(IndexType::IvfHnswSq)
            || indexes.contains(IndexType::IvfHnswFlat) ==> r.has_vector_index,
        indexes.len() == 0 ==> !r.has_vector_index && !r.has_fts_index && !r.has_scalar_index,
        r.has_vector_index && !r.has_scalar_index && !r.has_fts_index ==> exists|i: int|
            0 <= i < indexes.len() && !(#[trigger] indexes[i] is FTS) && !(indexes[i] is BTree)
                && !(indexes[i] is Bitmap) && !(indexes[i] is LabelList),
{
}
/// A failed call into storage is told by its name, by the namespace where the call
/// names one, and by what storage said; a table of the wrong kind says it all.
pub proof fn law_failures_name_the_call(f: Failure, ns: Seq<char>)
    ensures
        failure(f, ns) is Backend,
        !self_explaining(f.stage) ==> (": "@ + f.text@).is_suffix_of(failure(f, ns)->Backend_0),
        f.stage is Connect ==> "lancedb connect"@.is_prefix_of(failure(f, ns)->Backend_0),
        f.stage is OpenTable ==> ("open table "@ + ns).is_prefix_of(failure(f, ns)->Backend_0),
        f.stage is CreateTable ==> "create_table"@.is_prefix_of(failure(f, ns)->Backend_0),
        f.stage is ReadSchema ==> "read schema"@.is_prefix_of(failure(f, ns)->Backend_0),
        f.stage is MergeInsert ==> "table.merge_insert"@.is_prefix_of(failure(f, ns)->Backend_0),
        f.stage is QueryNearest ==> "query.nearest_to"@.is_prefix_of(failure(f, ns)->Backend_0),
        f.stage is QueryAddVector ==> "query.add_query_vector"@.is_prefix_of(failure(f, ns)->Backend_0),
        f.stage is QueryExecute ==> "query.execute"@.is_prefix_of(failure(f, ns)->Backend_0),
        f.stage is FtsExecute ==> "fts.execute"@.is_prefix_of(failure(f, ns)->Backend_0),
        f.stage is QueryCollect ==> "query.collect"@.is_prefix_of(failure(f, ns)->Backend_0),
        f.stage is CreateIndex ==> "create_index"@.is_prefix_of(failure(f, ns)->Backend_0),
        f.stage is CreateFtsIndex ==> "create_fts_index"@.is_prefix_of(failure(f, ns)->Backend_0),
        f.stage is CreateScalarIndex ==> "create_scalar_index"@.is_prefix_of(failure(f, ns)->Backend_0),
        f.stage is Optimize ==> "optimize"@.is_prefix_of(failure(f, ns)->Backend_0),
        f.stage is ResolveDataset ==> "resolve dataset"@.is_prefix_of(failure(f, ns)->Backend_0),
        f.stage is ScanFilter ==> "scan.filter"@.is_prefix_of(failure(f, ns)->Backend_0),
        f.stage is ScanOrder ==> "scan.order_by"@.is_prefix_of(failure(f, ns)->Backend_0),
        f.stage is ScanLimit ==> "scan.limit"@.is_prefix_of(failure(f, ns)->Backend_0),
        f.stage is ScanStream ==> "scan.try_into_stream"@.is_prefix_of(failure(f, ns)->Backend_0),
        f.stage is ScanCollect ==> "scan.collect"@.is_prefix_of(failure(f, ns)->Backend_0),
        f.stage is CountRows ==> "count_rows"@.is_prefix_of(failure(f, ns)->Backend_0),
        f.stage is ListIndices ==> "list_indices"@.is_prefix_of(failure(f, ns)->Backend_0),
        f.stage is ListObjects ==> ("list "@ + ns).is_prefix_of(failure(f, ns)->Backend_0),
        f.stage is BuildS3Store ==> "build object store"@.is_prefix_of(failure(f, ns)->Backend_0),
        f.stage is BuildGcsStore ==> "build GCS object store"@.is_prefix_of(failure(f, ns)->Backend_0),
        f.stage is BuildLocalStore ==> "build local object store"@.is_prefix_of(failure(f, ns)->Backend_0),
        f.stage is ListNative ==> "list requires a native lance table"@.is_prefix_of(failure(f, ns)->Backend_0),
        f.stage is GenerationNative ==> "generation requires a native lance table"@.is_prefix_of(failure(f, ns)->Backend_0),
        f.stage is InfoNative ==> "namespace info requires a native lance table"@.is_prefix_of(failure(f, ns)->Backend_0),
{
    let label = stage_label(f.stage, ns);
    let m = failure(f, ns)->Backend_0;
    assert(label =~= m.subrange(0, label.len() as int));
    if !self_explaining(f.stage) {
        let said = ": "@ + f.text@;
        assert(said =~= m.subrange(m.len() - said.len(), m.len() as int));
    }
}

/// The refusal of maintenance without data tells what was asked for, and of which
/// namespace.
pub proof fn law_missing_data_is_told(ns: Seq<char>, task: Task)
    ensures
        ({
            let m = plan(ns, task, None)->Err_0->Err_0->InvalidRequest_0;
            &&& task is Index ==> ("cannot index namespace "@ + ns).is_prefix_of(m)
            &&& task is FtsIndex ==> ("cannot create FTS index on namespace "@ + ns).is_prefix_of(m)
            &&& task is ScalarIndex ==> ("cannot create scalar index on namespace "@
                + ns).is_prefix_of(m)
            &&& task is Compact ==> ("cannot compact namespace "@ + ns).is_prefix_of(m)
        }),
{
    let m = plan(ns, task, None)->Err_0->Err_0->InvalidRequest_0;
    if task is Index {
        reveal_strlit("cannot ");
        reveal_strlit("index");
        reveal_strlit(" namespace ");
        reveal_strlit("cannot index namespace ");
        assert("cannot index namespace "@ =~= "cannot "@ + "index"@ + " namespace "@);
        let told = "cannot index namespace "@ + ns;
        assert(told =~= m.subrange(0, told.len() as int));
    }
    if task is FtsIndex {
        reveal_strlit("cannot ");
        reveal_strlit("create FTS index on");
        reveal_strlit(" namespace ");
        reveal_strlit("cannot create FTS index on namespace ");
        assert("cannot create FTS index on namespace "@ =~= "cannot "@ + "create FTS index on"@ + " namespace "@);
        let told = "cannot create FTS index on namespace "@ + ns;
        assert(told =~= m.subrange(0, told.len() as int));
    }
    if task is ScalarIndex {
        reveal_strlit("cannot ");
        reveal_strlit("create scalar index on");
        reveal_strlit(" namespace ");
        reveal_strlit("cannot create scalar index on namespace ");
        assert("cannot create scalar index on namespace "@ =~= "cannot "@ + "create scalar index on"@ + " namespace "@);
        let told = "cannot create scalar index on namespace "@ + ns;
        assert(told =~= m.subrange(0, told.len() as int));
    }
    if task is Compact {
        reveal_strlit("cannot ");
        reveal_strlit("compact");
        reveal_strlit(" namespace ");
        reveal_strlit("cannot compact namespace ");
        assert("cannot compact namespace "@ =~= "cannot "@ + "compact"@ + " namespace "@);
        let told = "cannot compact namespace "@ + ns;
        assert(told =~= m.subrange(0, told.len() as int));
    }
}
/// A search of another width than its namespace is told the width that it has, and
/// the width that it should have; one for the other representation is told the
/// namespace.
pub proof fn law_refused_searches_are_told(
    ns: Seq<char>,
    info: NamespaceSchemaInfo,
    req: QueryRequest,
)
    ensures
        req.vector@.len() > 0 && req.vectors is None && info.kind is Single && req.vector@.len()
            != info.dim ==> search_work(ns, info, req) == Err::<Work, ErrorView>(
            ErrorView::InvalidRequest(
                "query vector length "@ + text::dec(req.vector@.len()) + ", expected "@
                    + text::dec(info.dim as nat),
            ),
        ),
        req.vector@.len() > 0 && req.vectors is None && info.kind is Multivector ==> (search_work(
            ns,
            info,
            req,
        ) matches Err(ErrorView::InvalidRequest(m)) && ("namespace "@ + ns).is_prefix_of(m)),
        req.vector@.len() == 0 && query::has_vectors(req.vectors) && info.kind is Single ==> (
        search_work(ns, info, req) matches Err(ErrorView::InvalidRequest(m)) && ("namespace "@
            + ns).is_prefix_of(m)),
        req.vector@.len() == 0 && query::has_vectors(req.vectors) && info.kind is Multivector
            && search_work(ns, info, req) is Err ==> exists|i: int|
            0 <= i < req.vectors->0@.len() && (#[trigger] req.vectors->0@[i])@.len() != info.dim
                && search_work(ns, info, req) == Err::<Work, ErrorView>(
                ErrorView::InvalidRequest(
                    "query sub-vector "@ + text::dec(i as nat) + " length "@ + text::dec(
                        req.vectors->0@[i]@.len(),
                    ) + ", expected "@ + text::dec(info.dim as nat),
                ),
            ),
{
    let head = "namespace "@ + ns;
    if let Err(ErrorView::InvalidRequest(m)) = search_work(ns, info, req) {
        if head.len() <= m.len() {
            assert((head + m.skip(head.len() as int)).subrange(0, head.len() as int) =~= head);
        }
        let a = " is multivector, expected `vectors: [[...], ...]` but got `vector: [...]`"@;
        let b = " is single-vector, expected `vector: [...]` but got `vectors: [[...], ...]`"@;
        assert((head + a).subrange(0, head.len() as int) =~= head);
        assert((head + b).subrange(0, head.len() as int) =~= head);
    }
    if query::has_vectors(req.vectors) {
        lemma_off_width_found(req.vectors->0@, info.dim, 0);
    }
}

proof fn lemma_off_width_found(subs: Seq<Vec<u32>>, dim: usize, from: int)
    requires
        0 <= from,
    ensures
        rows::first_off_width(subs, dim, from) matches Some(i) ==> from <= i < subs.len()
            && subs[i]@.len() != dim,
    decreases subs.len() - from,
{
    if from < subs.len() {
        lemma_off_width_found(subs, dim, from + 1);
    }
}
/// A step is seen as what it is, with all that it carries; so is what an operation
/// ends with.
pub proof fn law_steps_are_seen_whole(s: Step, o: Outcome)
    ensures
        s matches Step::ReadSchema(h, t) ==> s@ == StepView::ReadSchema(h, t),
        s matches Step::OpenExisting(t) ==> s@ == StepView::OpenExisting(t),
        s matches Step::OpenTable(p) ==> s@ == StepView::OpenTable(p),
        s matches Step::Perform(h, p) ==> s@ == StepView::Perform(h, p),
        s matches Step::BuildIdIndex(h, i) ==> s@ == StepView::BuildIdIndex(h, i),
        s matches Step::Reopen(i) ==> s@ == StepView::Reopen(i),
        s matches Step::Finish(Ok(x)) ==> s@ == StepView::Finish(Ok(x@)),
        s matches Step::Finish(Err(e)) ==> s@ == StepView::Finish(Err(e@)),
        o is Done ==> o@ is Done,
        o matches Outcome::Hits(h) ==> o@ == OutcomeView::Hits(h@.0, h@.1),
        o matches Outcome::Compacted(c) ==> o@ == OutcomeView::Compacted(c),
        o matches Outcome::Page(p) ==> o@ == OutcomeView::Page(p@.0, p@.1),
{
}

} // verus!
