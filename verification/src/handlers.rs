//! What each endpoint decides: which requests are refused, what work starts,
//! and what is answered.
use vstd::prelude::*;
use crate::auth;
use crate::clock;
use crate::cursor::{self, LIST_MAX_LIMIT};
use crate::error::{self, ApiError, ApiErrorView, ErrorReply, ErrorView, FirnflowError};
use crate::namespace::{self, NamespaceId};
use crate::operations::{self, OperationKind, OperationRecord, OperationRegistry, OperationStatus};
use crate::operations::RegistryView;
use crate::metrics::{self, CoreMetrics};
use crate::query::{self, FacetRequest, IndexRequest, QueryRequest};
use crate::result::{ListOrder, NamespaceInfo};
use crate::rows::UpsertRow;
use crate::schema::{self, Field, FieldType};
use crate::service::{self, QueryCacheSource};
use crate::text;

verus! {

/// Request header that asks for the cache source of a query.
pub const CACHE_SOURCE_REQUEST_HEADER: &'static str = "x-firn-debug-cache-source";

/// Response header that names the cache source of a query.
pub const CACHE_SOURCE_RESPONSE_HEADER: &'static str = "x-firn-cache-source";

/// Content type of the exposed metrics.
pub const METRICS_CONTENT_TYPE: &'static str = "text/plain; version=0.0.4; charset=utf-8";

/// Rows on a page of a listing that names no limit.
pub const DEFAULT_LIST_LIMIT: usize = 50;

/// Body of a successful delete.
#[derive(Debug, Clone, Copy, PartialEq, Eq, Structural)]
pub struct DeleteResponse {
    /// Objects removed.
    pub objects_deleted: usize,
}

/// Body of a scalar index request.
#[derive(Debug)]
pub struct ScalarIndexRequest {
    /// Column to index.
    pub column: String,
}

/// Body of the answer to a request that started background work.
#[derive(Debug)]
pub struct OperationAccepted {
    /// Handle to poll.
    pub operation_id: String,
    /// Kind of work.
    pub kind: OperationKind,
    /// Namespace that the work targets.
    pub namespace: String,
    /// State at acceptance: running.
    pub status: OperationStatus,
}

/// Body of the answer to a warmup request.
#[derive(Debug)]
pub struct WarmupAccepted {
    /// The operation.
    pub operation: OperationAccepted,
    /// Queries that the background task was asked to run.
    pub queued: usize,
}

/// Body of a successful write.
#[derive(Debug, Clone, Copy, PartialEq, Eq, Structural)]
pub struct UpsertResponse {
    /// Rows of the request.
    pub upserted: usize,
}

/// Body of a write.
#[derive(Debug)]
pub struct UpsertRequest {
    /// Rows to write.
    pub rows: Vec<UpsertRow>,
}

/// Body of a warmup request.
#[derive(Debug)]
pub struct WarmupRequest {
    /// Queries to run in the background.
    pub queries: Vec<QueryRequest>,
}

/// Query parameters of a listing.
#[derive(Debug)]
pub struct ListParams {
    /// Ordering column; only `_ingested_at`.
    pub order_by: Option<String>,
    /// `asc` or `desc`.
    pub order: Option<String>,
    /// Rows on the page.
    pub limit: Option<usize>,
    /// Cursor of the previous page.
    pub cursor: Option<String>,
}

/// The column of a scalar index request that names none.
pub fn default_scalar_index_column() -> (r: String)
    ensures
        r@ == "_ingested_at"@,
{
    "_ingested_at".to_string()
}

/// Body of the liveness probe.
pub fn health() -> (r: &'static str)
    ensures
        r@ == "ok"@,
{
    "ok"
}

// ------------------------------------------------------------ namespaces
/// The error of a request on an invalid namespace name.
pub open spec fn bad_name(name: Seq<char>) -> ApiErrorView {
    ApiErrorView::Core(ErrorView::InvalidNamespace(name))
}

/// The namespace that a path names.
pub fn namespace_of(name: &str) -> (r: Result<NamespaceId, ApiError>)
    ensures
        match r {
            Ok(ns) => namespace::is_name(name@) && ns@ == name@,
            Err(e) => !namespace::is_name(name@) && e@ == bad_name(name@),
        },
{
    match NamespaceId::new(name) {
        Ok(ns) => Ok(ns),
        Err(e) => Err(ApiError::Core(e)),
    }
}

/// The error of a request on a namespace that does not exist.
pub open spec fn no_namespace(name: Seq<char>) -> ApiErrorView {
    ApiErrorView::NotFound("namespace "@ + name + " does not exist"@)
}

/// What a metadata request is answered with.
pub fn info(ns: &NamespaceId, found: Option<NamespaceInfo>) -> (r: Result<NamespaceInfo, ApiError>)
    ensures
        match (r, found) {
            (Ok(i), Some(f)) => i == f,
            (Err(e), None) => e@ == no_namespace(ns@),
            _ => false,
        },
{
    match found {
        Some(i) => Ok(i),
        None => Err(
            ApiError::NotFound(text::cat3("namespace ", ns.as_str(), " does not exist")),
        ),
    }
}

/// What a deletion is answered with. A namespace without objects does not
/// exist.
pub fn delete(ns: &NamespaceId, objects_deleted: usize) -> (r: Result<DeleteResponse, ApiError>)
    ensures
        match r {
            Ok(d) => objects_deleted > 0 && d.objects_deleted == objects_deleted,
            Err(e) => objects_deleted == 0 && e@ == no_namespace(ns@),
        },
{
    if objects_deleted == 0 {
        Err(ApiError::NotFound(text::cat3("namespace ", ns.as_str(), " does not exist")))
    } else {
        Ok(DeleteResponse { objects_deleted })
    }
}

/// What a status request is answered with.
pub fn get_operation(registry: &OperationRegistry, operation_id: &str) -> (r: Result<
    OperationRecord,
    ApiError,
>)
    ensures
        match r {
            Ok(rec) => registry@.records.dom().contains(operation_id@) && rec@
                == registry@.records[operation_id@],
            Err(e) => !registry@.records.dom().contains(operation_id@) && e@
                == ApiErrorView::NotFound("operation "@ + operation_id@ + " not found"@),
        },
{
    match registry.get(operation_id) {
        Some(rec) => Ok(rec),
        None => Err(ApiError::NotFound(text::cat3("operation ", operation_id, " not found"))),
    }
}

/// Starts a write: the namespace, its rows, and what it is answered with once
/// they are written.
pub fn upsert(name: &str, req: UpsertRequest) -> (r: Result<
    (NamespaceId, Vec<UpsertRow>, UpsertResponse),
    ApiError,
>)
    ensures
        match r {
            Ok((ns, rows, answer)) => namespace::is_name(name@) && ns@ == name@ && rows == req.rows
                && answer.upserted == req.rows@.len(),
            Err(e) => !namespace::is_name(name@) && e@ == bad_name(name@),
        },
{
    match namespace_of(name) {
        Ok(ns) => {
            let upserted: usize = req.rows.len();
            Ok((ns, req.rows, UpsertResponse { upserted }))
        },
        Err(e) => Err(e),
    }
}

/// Starts a facet request: the namespace, and the cap on its buckets. A bad
/// shape is refused before any work.
pub fn facet(name: &str, req: &FacetRequest) -> (r: Result<(NamespaceId, usize), ApiError>)
    ensures
        match r {
            Ok((ns, top)) => namespace::is_name(name@) && ns@ == name@ && query::facet_ok(*req)
                && top == query::facet_top(req.top),
            Err(e) => if namespace::is_name(name@) {
                e@ matches ApiErrorView::Core(x) && query::facet_fault(*req, x)
            } else {
                e@ == bad_name(name@)
            },
        },
{
    match namespace_of(name) {
        Ok(ns) => match query::validate_facet_request(req) {
            Ok(top) => Ok((ns, top)),
            Err(e) => Err(ApiError::Core(e)),
        },
        Err(e) => Err(e),
    }
}

/// What a metrics request is answered with: the exposition text, and its content
/// type.
pub fn metrics(t: &CoreMetrics) -> (r: Result<(String, &'static str), ApiError>)
    ensures
        t.wf() ==> r is Ok,
        match r {
            Ok((body, content_type)) => content_type@ == METRICS_CONTENT_TYPE@ && (t.wf()
                ==> metrics::shows(body@, t@)),
            Err(e) => e@ matches ApiErrorView::Core(x) && x is Metrics,
        },
{
    match t.encode() {
        Ok(body) => Ok((body, METRICS_CONTENT_TYPE)),
        Err(e) => Err(ApiError::Core(e)),
    }
}

/// What the response to a query says of its source: its name, where the request
/// asked for it.
pub fn cache_source_header(header: Option<&str>, source: QueryCacheSource) -> (r: Option<
    &'static str,
>)
    ensures
        match r {
            Some(v) => asks_for_source(auth::str_opt(header)) && v@ == service::source_text(source),
            None => !asks_for_source(auth::str_opt(header)),
        },
{
    if wants_cache_source(header) {
        Some(source.as_str())
    } else {
        None
    }
}

/// Whether a header value asks for the cache source.
pub open spec fn asks_for_source(header: Option<Seq<char>>) -> bool {
    header == Some("1"@) || header == Some("true"@) || header == Some("yes"@)
}

/// Whether a request asks for the cache source of its result.
pub fn wants_cache_source(header: Option<&str>) -> (r: bool)
    ensures
        r == asks_for_source(auth::str_opt(header)),
{
    match header {
        Some(h) => text::same(h, "1") || text::same(h, "true") || text::same(h, "yes"),
        None => false,
    }
}

// ------------------------------------------------------- background work
/// Whether an answer is of an operation that was registered just now.
pub open spec fn registered_as(
    a: OperationAccepted,
    before: RegistryView,
    after: RegistryView,
    kind: OperationKind,
    ns: Seq<char>,
) -> bool {
    &&& a.kind == kind
    &&& a.namespace@ == ns
    &&& a.status is Running
    &&& exists|now: u64|
        after == #[trigger] operations::begun(before, a.operation_id@, kind, ns, now)
            && clock::read_millis(now)
    &&& exists|uuid: Seq<char>| #[trigger]
        operations::is_uuid_v7(uuid) && a.operation_id@ == "op_"@ + uuid
}

/// Registers background work and gives the answer to its request.
pub fn accept(registry: &mut OperationRegistry, kind: OperationKind, ns: &NamespaceId) -> (r:
    OperationAccepted)
    requires
        old(registry).wf(),
    ensures
        final(registry).wf(),
        registered_as(r, old(registry)@, final(registry)@, kind, ns@),
{
    let namespace = ns.as_str().to_string();
    let operation_id = registry.start(kind, ns.as_str().to_string());
    let ghost now = choose|now: u64|
        registry@ == #[trigger] operations::begun(
            old(registry)@,
            operation_id@,
            kind,
            namespace@,
            now,
        ) && clock::read_millis(now);
    let a = OperationAccepted { operation_id, kind, namespace, status: OperationStatus::Running };
    assert(registry@ == operations::begun(old(registry)@, a.operation_id@, kind, ns@, now));
    a
}

/// The answer to a request that starts background work, given why it is
/// refused, if it is.
pub open spec fn answered(
    r: Result<(NamespaceId, OperationAccepted), ApiError>,
    refusal: Option<ApiErrorView>,
    before: RegistryView,
    after: RegistryView,
    kind: OperationKind,
    name: Seq<char>,
) -> bool {
    match (r, refusal) {
        (Ok((ns, a)), None) => ns@ == name && registered_as(a, before, after, kind, name),
        (Err(e), Some(why)) => e@ == why && after == before,
        _ => false,
    }
}

/// Why a request that only names a namespace is refused.
pub open spec fn name_refusal(name: Seq<char>) -> Option<ApiErrorView> {
    if namespace::is_name(name) {
        None
    } else {
        Some(bad_name(name))
    }
}

/// Why a vector index request is refused.
pub open spec fn index_refusal(name: Seq<char>, req: IndexRequest) -> Option<ApiErrorView> {
    if !namespace::is_name(name) {
        Some(bad_name(name))
    } else if req.kind@ != "ivf_pq"@ {
        Some(
            ApiErrorView::Core(
                ErrorView::InvalidRequest(
                    "unsupported index kind "@ + text::debug_text(req.kind@)
                        + ", only \"ivf_pq\" is supported"@,
                ),
            ),
        )
    } else {
        match query::ivf_pq_check(req.num_bits, req.num_sub_vectors) {
            Err(e) => Some(ApiErrorView::Core(e)),
            Ok(()) => None,
        }
    }
}

/// Starts a vector index build. Bad options are refused at once, before any
/// work starts.
pub fn create_index(registry: &mut OperationRegistry, name: &str, req: &IndexRequest) -> (r: Result<
    (NamespaceId, OperationAccepted),
    ApiError,
>)
    requires
        old(registry).wf(),
    ensures
        final(registry).wf(),
        answered(
            r,
            index_refusal(name@, *req),
            old(registry)@,
            final(registry)@,
            OperationKind::Index,
            name@,
        ),
{
    let ns = match namespace_of(name) {
        Ok(ns) => ns,
        Err(e) => {
            return Err(e);
        },
    };
    if !text::same(req.kind.as_str(), "ivf_pq") {
        return Err(
            ApiError::Core(
                FirnflowError::InvalidRequest(
                    text::cat3(
                        "unsupported index kind ",
                        text::quoted(req.kind.as_str()).as_str(),
                        ", only \"ivf_pq\" is supported",
                    ),
                ),
            ),
        );
    }
    match query::validate_ivf_pq_options(req.num_bits, req.num_sub_vectors) {
        Ok(()) => {},
        Err(e) => {
            return Err(ApiError::Core(e));
        },
    }
    let accepted = accept(registry, OperationKind::Index, &ns);
    Ok((ns, accepted))
}

/// Starts a full-text index build.
pub fn create_fts_index(registry: &mut OperationRegistry, name: &str) -> (r: Result<
    (NamespaceId, OperationAccepted),
    ApiError,
>)
    requires
        old(registry).wf(),
    ensures
        final(registry).wf(),
        answered(
            r,
            name_refusal(name@),
            old(registry)@,
            final(registry)@,
            OperationKind::FtsIndex,
            name@,
        ),
{
    match namespace_of(name) {
        Ok(ns) => {
            let accepted = accept(registry, OperationKind::FtsIndex, &ns);
            Ok((ns, accepted))
        },
        Err(e) => Err(e),
    }
}

/// The column that a scalar index request asks for.
pub open spec fn asked_column(body: Option<ScalarIndexRequest>) -> Seq<char> {
    match body {
        Some(req) => req.column@,
        None => "_ingested_at"@,
    }
}

/// Whether a column is the table's own, so that no namespace can have an
/// attribute of its name.
pub open spec fn reserved(column: Seq<char>) -> bool {
    column == "vector"@ || column == "vectors"@ || column == "text"@ || (column.len() > 0
        && column[0] == '_')
}

/// Whether only the namespace can say if a column can be indexed: it is neither
/// one that every namespace has, nor reserved.
pub open spec fn up_to_namespace(column: Seq<char>) -> bool {
    !schema::scalar_indexable(column) && !reserved(column)
}

/// Whether only the namespace can say if a column can be indexed.
pub fn asks_namespace(column: &str) -> (r: bool)
    ensures
        r == up_to_namespace(column@),
{
    let chars = text::chars_of(column);
    let underscored = chars.len() > 0 && chars[0] == '_';
    let fixed = text::same(column, "vector") || text::same(column, "vectors") || text::same(
        column,
        "text",
    );
    schema::validate_scalar_index_column(column).is_err() && !fixed && !underscored
}

/// The column that a scalar index request asks for.
pub fn scalar_column(body: Option<ScalarIndexRequest>) -> (r: String)
    ensures
        r@ == asked_column(body),
{
    match body {
        Some(req) => req.column,
        None => default_scalar_index_column(),
    }
}

/// Why a scalar index request is refused. What the namespace says counts where
/// only it can say.
pub open spec fn scalar_refusal(
    name: Seq<char>,
    column: Seq<char>,
    said: Result<(), ErrorView>,
) -> Option<ApiErrorView> {
    if !namespace::is_name(name) {
        Some(bad_name(name))
    } else if up_to_namespace(column) {
        match said {
            Ok(()) => None,
            Err(e) => Some(ApiErrorView::Core(e)),
        }
    } else if !schema::scalar_indexable(column) {
        Some(ApiErrorView::Core(schema::not_indexable(column)))
    } else {
        None
    }
}

/// Starts a scalar index build on a column. A column that cannot be indexed is
/// refused at once; where [`asks_namespace`] says so, the namespace was asked
/// about the column and has said whether it can be.
pub fn create_scalar_index(
    registry: &mut OperationRegistry,
    name: &str,
    column: &str,
    said: Result<(), FirnflowError>,
) -> (r: Result<(NamespaceId, OperationAccepted), ApiError>)
    requires
        old(registry).wf(),
    ensures
        final(registry).wf(),
        answered(
            r,
            scalar_refusal(name@, column@, error::outcome(said)),
            old(registry)@,
            final(registry)@,
            OperationKind::ScalarIndex,
            name@,
        ),
{
    let ns = match namespace_of(name) {
        Ok(ns) => ns,
        Err(e) => {
            return Err(e);
        },
    };
    if asks_namespace(column) {
        if let Err(e) = said {
            return Err(ApiError::Core(e));
        }
    } else if let Err(e) = schema::validate_scalar_index_column(column) {
        return Err(ApiError::Core(e));
    }
    let accepted = accept(registry, OperationKind::ScalarIndex, &ns);
    Ok((ns, accepted))
}

/// Starts a compaction.
pub fn compact(registry: &mut OperationRegistry, name: &str) -> (r: Result<
    (NamespaceId, OperationAccepted),
    ApiError,
>)
    requires
        old(registry).wf(),
    ensures
        final(registry).wf(),
        answered(
            r,
            name_refusal(name@),
            old(registry)@,
            final(registry)@,
            OperationKind::Compact,
            name@,
        ),
{
    match namespace_of(name) {
        Ok(ns) => {
            let accepted = accept(registry, OperationKind::Compact, &ns);
            Ok((ns, accepted))
        },
        Err(e) => Err(e),
    }
}

/// What a failed operation tells its client. What the caller can act on is
/// passed on; what a backend, cache, I/O or metrics failure says is not.
pub open spec fn client_message(e: ErrorView) -> Seq<char> {
    match e {
        ErrorView::InvalidNamespace(m) => "invalid namespace: "@ + m,
        ErrorView::InvalidRequest(m) => "invalid request: "@ + m,
        ErrorView::Unsupported(m) => "unsupported: "@ + m,
        ErrorView::StorageRegionRedirect(region) => error::region_hint(region),
        ErrorView::Backend(_) | ErrorView::Cache(_) | ErrorView::Io(_) | ErrorView::Metrics(_) =>
            "operation failed"@,
    }
}

/// What a failed operation tells its client.
pub fn operation_error_message(err: &FirnflowError) -> (r: String)
    ensures
        r@ == client_message(err@),
{
    match err {
        FirnflowError::InvalidNamespace(m) => text::cat2("invalid namespace: ", m.as_str()),
        FirnflowError::InvalidRequest(m) => text::cat2("invalid request: ", m.as_str()),
        FirnflowError::Unsupported(m) => text::cat2("unsupported: ", m.as_str()),
        FirnflowError::StorageRegionRedirect { configured_region } => error::region_hint_text(
            configured_region,
        ),
        FirnflowError::Backend(_)
        | FirnflowError::Cache(_)
        | FirnflowError::Io(_)
        | FirnflowError::Metrics(_) => "operation failed".to_string(),
    }
}

/// The registry after background work has ended: with success, or with what
/// the failure tells its client.
pub open spec fn settled_as(
    before: RegistryView,
    id: Seq<char>,
    failed: Option<Seq<char>>,
    now: u64,
) -> RegistryView {
    operations::finished(
        before,
        id,
        if failed is Some {
            OperationStatus::Failed
        } else {
            OperationStatus::Succeeded
        },
        failed,
        now,
    )
}

/// What the outcome of background work tells its client, if it failed.
pub open spec fn failure_text(failed: Option<&FirnflowError>) -> Option<Seq<char>> {
    match failed {
        Some(e) => Some(client_message(e@)),
        None => None,
    }
}

/// Records how background work has ended.
pub fn finish_operation(
    registry: &mut OperationRegistry,
    operation_id: &str,
    failed: Option<&FirnflowError>,
)
    requires
        old(registry).wf(),
    ensures
        final(registry).wf(),
        exists|now: u64|
            final(registry)@ == #[trigger] settled_as(
                old(registry)@,
                operation_id@,
                failure_text(failed),
                now,
            ) && clock::read_millis(now),
{
    match failed {
        None => {
            registry.succeed(operation_id);
            proof {
                let now = choose|now: u64|
                    registry@ == #[trigger] operations::finished(
                        old(registry)@,
                        operation_id@,
                        OperationStatus::Succeeded,
                        None,
                        now,
                    ) && clock::read_millis(now);
                assert(registry@ == settled_as(old(registry)@, operation_id@, None, now));
            }
        },
        Some(e) => {
            let msg = operation_error_message(e);
            registry.fail(operation_id, msg.as_str());
            proof {
                let now = choose|now: u64|
                    registry@ == #[trigger] operations::finished(
                        old(registry)@,
                        operation_id@,
                        OperationStatus::Failed,
                        Some(msg@),
                        now,
                    ) && clock::read_millis(now);
                assert(registry@ == settled_as(old(registry)@, operation_id@, Some(msg@), now));
            }
        },
    }
}

// ---------------------------------------------------------------- warmup
/// How a warmup has gone so far.
#[derive(Debug)]
pub struct WarmupTally {
    /// Queries run.
    pub total: usize,
    /// Queries that failed.
    pub failures: usize,
    /// What the first failure tells the client.
    pub first_error: Option<String>,
}

/// Starts a warmup. It is accepted whatever its queries are.
pub fn warmup(registry: &mut OperationRegistry, name: &str, req: &WarmupRequest) -> (r: Result<
    (NamespaceId, WarmupAccepted),
    ApiError,
>)
    requires
        old(registry).wf(),
    ensures
        final(registry).wf(),
        match r {
            Ok((ns, w)) => w.queued == req.queries@.len() && answered(
                Ok((ns, w.operation)),
                name_refusal(name@),
                old(registry)@,
                final(registry)@,
                OperationKind::Warmup,
                name@,
            ),
            Err(e) => answered(
                Err(e),
                name_refusal(name@),
                old(registry)@,
                final(registry)@,
                OperationKind::Warmup,
                name@,
            ),
        },
{
    match namespace_of(name) {
        Ok(ns) => {
            let operation = accept(registry, OperationKind::Warmup, &ns);
            let queued: usize = req.queries.len();
            Ok((ns, WarmupAccepted { operation, queued }))
        },
        Err(e) => Err(e),
    }
}

/// The errors of some outcomes, in order.
pub open spec fn failures_in(outcomes: Seq<Option<ErrorView>>) -> Seq<ErrorView>
    decreases outcomes.len(),
{
    if outcomes.len() == 0 {
        Seq::empty()
    } else {
        match outcomes.last() {
            Some(e) => failures_in(outcomes.drop_last()).push(e),
            None => failures_in(outcomes.drop_last()),
        }
    }
}

/// Whether a tally is of these outcomes.
pub open spec fn tallies(t: WarmupTally, outcomes: Seq<Option<ErrorView>>) -> bool {
    let failed = failures_in(outcomes);
    &&& t.total == outcomes.len()
    &&& t.failures == failed.len()
    &&& text::text_opt(t.first_error) == (if failed.len() > 0 {
        Some(client_message(failed[0]))
    } else {
        None
    })
}

/// The message of a warmup, or none where every query succeeded.
pub open spec fn warmup_message(outcomes: Seq<Option<ErrorView>>) -> Option<Seq<char>> {
    let failed = failures_in(outcomes);
    if failed.len() == 0 {
        None
    } else {
        Some(
            text::dec(failed.len()) + " of "@ + text::dec(outcomes.len())
                + " warmup queries failed; first error: "@ + client_message(failed[0]),
        )
    }
}

/// How an outcome counts: by its error, if it has one.
pub open spec fn counted_as(failed: Option<&FirnflowError>) -> Option<ErrorView> {
    match failed {
        Some(e) => Some(e@),
        None => None,
    }
}

impl WarmupTally {
    /// Nothing has run yet.
    pub fn new() -> (r: WarmupTally)
        ensures
            tallies(r, Seq::empty()),
    {
        WarmupTally { total: 0, failures: 0, first_error: None }
    }

    /// Counts one query. Every query is attempted, whatever came before.
    pub fn record(&mut self, failed: Option<&FirnflowError>)
        requires
            old(self).total < usize::MAX,
            old(self).failures <= old(self).total,
        ensures
            forall|outcomes: Seq<Option<ErrorView>>| #[trigger]
                tallies(*old(self), outcomes) ==> tallies(
                    *final(self),
                    outcomes.push(counted_as(failed)),
                ),
            final(self).failures <= final(self).total,
            final(self).total == old(self).total + 1,
    {
        self.total = self.total + 1;
        if let Some(e) = failed {
            self.failures = self.failures + 1;
            if self.first_error.is_none() {
                self.first_error = Some(operation_error_message(e));
            }
        }
        proof {
            assert forall|outcomes: Seq<Option<ErrorView>>| #[trigger]
                tallies(*old(self), outcomes) implies tallies(
                *self,
                outcomes.push(counted_as(failed)),
            ) by {
                let next = outcomes.push(counted_as(failed));
                assert(next.drop_last() =~= outcomes);
            }
        }
    }

    /// The message of the warmup, or none where every query succeeded.
    pub fn message(&self) -> (r: Option<String>)
        ensures
            forall|outcomes: Seq<Option<ErrorView>>| #[trigger]
                tallies(*self, outcomes) ==> text::text_opt(r) == warmup_message(outcomes),
    {
        if self.failures == 0 {
            return None;
        }
        let first = match &self.first_error {
            Some(m) => m.clone(),
            None => "operation failed".to_string(),
        };
        Some(
            text::cat5(
                text::dec_text(self.failures as u64).as_str(),
                " of ",
                text::dec_text(self.total as u64).as_str(),
                " warmup queries failed; first error: ",
                first.as_str(),
            ),
        )
    }
}

/// Records how a warmup has ended: with success where every query succeeded,
/// else with how many failed and the first message.
pub fn finish_warmup(registry: &mut OperationRegistry, operation_id: &str, tally: &WarmupTally)
    requires
        old(registry).wf(),
    ensures
        final(registry).wf(),
        forall|outcomes: Seq<Option<ErrorView>>| #[trigger]
            tallies(*tally, outcomes) ==> exists|now: u64|
                final(registry)@ == #[trigger] settled_as(
                    old(registry)@,
                    operation_id@,
                    warmup_message(outcomes),
                    now,
                ) && clock::read_millis(now),
{
    let message = tally.message();
    match &message {
        None => {
            registry.succeed(operation_id);
            proof {
                let now = choose|now: u64|
                    registry@ == #[trigger] operations::finished(
                        old(registry)@,
                        operation_id@,
                        OperationStatus::Succeeded,
                        None,
                        now,
                    ) && clock::read_millis(now);
                assert(registry@ == settled_as(old(registry)@, operation_id@, None, now));
            }
        },
        Some(msg) => {
            registry.fail(operation_id, msg.as_str());
            proof {
                let now = choose|now: u64|
                    registry@ == #[trigger] operations::finished(
                        old(registry)@,
                        operation_id@,
                        OperationStatus::Failed,
                        Some(msg@),
                        now,
                    ) && clock::read_millis(now);
                assert(registry@ == settled_as(old(registry)@, operation_id@, Some(msg@), now));
            }
        },
    }
}

// ---------------------------------------------------------------- import
/// The media type of a content-type header: what stands before the first
/// semicolon, trimmed; empty without a header.
pub open spec fn media_type(header: Option<Seq<char>>) -> Seq<char> {
    match header {
        Some(h) => text::trimmed(text::before(h, ';')),
        None => Seq::empty(),
    }
}

/// Whether a body of this media type can be imported.
pub open spec fn importable(media: Seq<char>) -> bool {
    media == "application/vnd.apache.arrow.stream"@ || media == "application/octet-stream"@
}

/// How an import request starts out.
#[derive(Debug)]
pub enum ImportStart {
    /// Its body may be read.
    Read(NamespaceId),
    /// It is refused with this reply.
    Refused(ErrorReply),
}

/// Starts an import: the content type must be that of an Arrow stream, or of
/// plain bytes.
pub fn start_import(name: &str, content_type: Option<&str>) -> (r: Result<ImportStart, ApiError>)
    ensures
        match r {
            Err(e) => !namespace::is_name(name@) && e@ == bad_name(name@),
            Ok(ImportStart::Read(ns)) => namespace::is_name(name@) && ns@ == name@ && importable(
                media_type(auth::str_opt(content_type)),
            ),
            Ok(ImportStart::Refused(reply)) => namespace::is_name(name@) && !importable(
                media_type(auth::str_opt(content_type)),
            ) && reply@ == error::plain_reply(
                415,
                "import requires Content-Type: application/vnd.apache.arrow.stream"@,
            ),
        },
{
    let ns = match namespace_of(name) {
        Ok(ns) => ns,
        Err(e) => {
            return Err(e);
        },
    };
    let media = match content_type {
        Some(h) => text::trim(text::cut_before(h, ';').as_str()),
        None => String::new(),
    };
    assert(media@ =~= media_type(auth::str_opt(content_type)));
    if text::same(media.as_str(), "application/vnd.apache.arrow.stream") || text::same(
        media.as_str(),
        "application/octet-stream",
    ) {
        Ok(ImportStart::Read(ns))
    } else {
        Ok(
            ImportStart::Refused(
                error::plain(
                    415,
                    "import requires Content-Type: application/vnd.apache.arrow.stream".to_string(),
                ),
            ),
        )
    }
}

/// The bytes of an import that were spooled so far, and how many may be; a cap
/// of 0 is no cap.
#[derive(Debug, Clone, Copy, PartialEq, Eq, Structural)]
pub struct Spool {
    /// Most bytes that are accepted.
    pub cap: u64,
    /// Bytes received.
    pub written: u64,
}

impl Spool {
    /// Nothing received yet.
    pub fn new(cap: u64) -> (r: Spool)
        ensures
            r == (Spool { cap, written: 0 }),
    {
        Spool { cap, written: 0 }
    }

    /// Takes in a chunk: it may be written, or the body is too large.
    pub fn take(&mut self, len: u64) -> (r: Result<(), ErrorReply>)
        requires
            old(self).written + len <= u64::MAX,
        ensures
            *final(self) == (Spool { written: (old(self).written + len) as u64, ..*old(self) }),
            match r {
                Ok(()) => old(self).cap == 0 || old(self).written + len <= old(self).cap,
                Err(reply) => old(self).cap != 0 && old(self).written + len > old(self).cap
                    && reply@ == error::plain_reply(
                    413,
                    "import body exceeds FIRNFLOW_IMPORT_MAX_BYTES ("@ + text::dec(
                        old(self).cap as nat,
                    ) + " bytes)"@,
                ),
            },
    {
        self.written = self.written + len;
        if self.cap != 0 && self.written > self.cap {
            return Err(
                error::plain(
                    413,
                    text::cat3(
                        "import body exceeds FIRNFLOW_IMPORT_MAX_BYTES (",
                        text::dec_text(self.cap).as_str(),
                        " bytes)",
                    ),
                ),
            );
        }
        Ok(())
    }
}

/// A step of an import that can fail.
#[derive(Debug, Clone, Copy, PartialEq, Eq, Structural)]
pub enum ImportStage {
    CreateTemp,
    OpenSpool,
    ReadBody,
    WriteSpool,
    FlushSpool,
    ReopenTemp,
    ReadStream,
}

/// The error of a failed step. What the client sent wrong is the client's to
/// know; the rest is the server's.
pub open spec fn import_error(stage: ImportStage, cause: Seq<char>) -> ErrorView {
    match stage {
        ImportStage::CreateTemp => ErrorView::Backend("import: create temp file: "@ + cause),
        ImportStage::OpenSpool => ErrorView::Backend("import: open spool file: "@ + cause),
        ImportStage::ReadBody => ErrorView::InvalidRequest("import: body read error: "@ + cause),
        ImportStage::WriteSpool => ErrorView::Backend("import: spool write: "@ + cause),
        ImportStage::FlushSpool => ErrorView::Backend("import: spool flush: "@ + cause),
        ImportStage::ReopenTemp => ErrorView::Backend("import: reopen temp: "@ + cause),
        ImportStage::ReadStream => ErrorView::InvalidRequest(
            "import: not a valid Arrow IPC stream: "@ + cause,
        ),
    }
}

/// The error of a failed step.
pub fn import_failure(stage: ImportStage, cause: &str) -> (r: FirnflowError)
    ensures
        r@ == import_error(stage, cause@),
{
    match stage {
        ImportStage::CreateTemp => FirnflowError::Backend(
            text::cat2("import: create temp file: ", cause),
        ),
        ImportStage::OpenSpool => FirnflowError::Backend(
            text::cat2("import: open spool file: ", cause),
        ),
        ImportStage::ReadBody => FirnflowError::InvalidRequest(
            text::cat2("import: body read error: ", cause),
        ),
        ImportStage::WriteSpool => FirnflowError::Backend(
            text::cat2("import: spool write: ", cause),
        ),
        ImportStage::FlushSpool => FirnflowError::Backend(
            text::cat2("import: spool flush: ", cause),
        ),
        ImportStage::ReopenTemp => FirnflowError::Backend(
            text::cat2("import: reopen temp: ", cause),
        ),
        ImportStage::ReadStream => FirnflowError::InvalidRequest(
            text::cat2("import: not a valid Arrow IPC stream: ", cause),
        ),
    }
}

/// A step that fails once an import is accepted and its spooled body is read
/// again.
#[derive(Debug, Clone, Copy, PartialEq, Eq, Structural)]
pub enum ResumeStage {
    ReopenTemp,
    ReadStream,
}

/// What an import's record says where its spooled body cannot be read again.
pub open spec fn resume_error(stage: ResumeStage, cause: Seq<char>) -> Seq<char> {
    match stage {
        ResumeStage::ReopenTemp => "import: reopen temp: "@ + cause,
        ResumeStage::ReadStream => "import: Arrow stream: "@ + cause,
    }
}

/// What an import's record says where its spooled body cannot be read again.
pub fn resume_failure(stage: ResumeStage, cause: &str) -> (r: String)
    ensures
        r@ == resume_error(stage, cause@),
{
    match stage {
        ResumeStage::ReopenTemp => text::cat2("import: reopen temp: ", cause),
        ResumeStage::ReadStream => text::cat2("import: Arrow stream: ", cause),
    }
}

/// Whether a stream of these columns can be imported: ids, and vectors of one
/// of the two representations.
pub open spec fn import_schema_ok(fields: Seq<schema::FieldView>) -> bool {
    (exists|i: int|
        0 <= i < fields.len() && (#[trigger] fields[i]).0 == "id"@ && fields[i].1 is UInt64)
        && schema::vector_shape(fields) is Some
}

/// The error of a stream that cannot be imported for its columns.
pub open spec fn import_schema_error() -> ErrorView {
    ErrorView::InvalidRequest(
        "import: schema requires an `id` column of UInt64 and a `vector` column of FixedSizeList or List<FixedSizeList>"@,
    )
}

/// Checks the columns of a stream.
pub fn validate_arrow_import_schema(fields: &Vec<Field>) -> (r: Result<(), FirnflowError>)
    ensures
        error::outcome(r) == (if import_schema_ok(schema::fields_of(fields@)) {
            Ok::<(), ErrorView>(())
        } else {
            Err(import_schema_error())
        }),
{
    let ghost all = schema::fields_of(fields@);
    let mut has_id = false;
    let mut i: usize = 0;
    while i < fields.len()
        invariant
            i <= fields@.len(),
            all == schema::fields_of(fields@),
            has_id <==> exists|k: int|
                0 <= k < i && (#[trigger] all[k]).0 == "id"@ && all[k].1 is UInt64,
        decreases fields@.len() - i,
    {
        assert(all[i as int] == fields@[i as int]@);
        if text::same(fields[i].name.as_str(), "id") && matches!(
            fields[i].data_type,
            FieldType::UInt64
        ) {
            has_id = true;
        }
        i = i + 1;
    }
    if has_id && schema::read_schema_info_from_table(fields).is_ok() {
        Ok(())
    } else {
        Err(
            FirnflowError::InvalidRequest(
                "import: schema requires an `id` column of UInt64 and a `vector` column of FixedSizeList or List<FixedSizeList>".to_string(),
            ),
        )
    }
}

/// Accepts an import whose body was spooled, or refuses it for its columns.
pub fn accept_import(registry: &mut OperationRegistry, ns: &NamespaceId, fields: &Vec<Field>) -> (r:
    Result<OperationAccepted, ApiError>)
    requires
        old(registry).wf(),
    ensures
        final(registry).wf(),
        match r {
            Ok(a) => import_schema_ok(schema::fields_of(fields@)) && registered_as(
                a,
                old(registry)@,
                final(registry)@,
                OperationKind::Import,
                ns@,
            ),
            Err(e) => !import_schema_ok(schema::fields_of(fields@)) && e@ == ApiErrorView::Core(
                import_schema_error(),
            ) && final(registry)@ == old(registry)@,
        },
{
    match validate_arrow_import_schema(fields) {
        Ok(()) => Ok(accept(registry, OperationKind::Import, ns)),
        Err(e) => Err(ApiError::Core(e)),
    }
}

// --------------------------------------------------------------- listing
/// The order that a listing asks for, if it is one.
pub open spec fn asked_order(order: Option<Seq<char>>) -> Option<ListOrder> {
    match order {
        None => Some(ListOrder::Desc),
        Some(o) => if o == "desc"@ {
            Some(ListOrder::Desc)
        } else if o == "asc"@ {
            Some(ListOrder::Asc)
        } else {
            None
        },
    }
}

/// The rows that a listing asks for.
pub open spec fn asked_limit(limit: Option<usize>) -> usize {
    match limit {
        Some(n) => n,
        None => DEFAULT_LIST_LIMIT,
    }
}

/// The cursor that a listing starts after, if it names one.
pub open spec fn asked_cursor(cursor: Option<Seq<char>>) -> Option<Seq<char>> {
    match cursor {
        Some(raw) if raw.len() > 0 => Some(raw),
        _ => None,
    }
}

/// Why the parameters of a listing are refused, looked at in this order:
/// column, order, limit, cursor.
pub open spec fn list_refusal(p: ListParams) -> Option<ErrorView> {
    let limit = asked_limit(p.limit);
    if p.order_by matches Some(col) && col@ != "_ingested_at"@ {
        Some(
            ErrorView::InvalidRequest(
                "order_by must be \"_ingested_at\" in v1, got "@ + text::debug_text(
                    p.order_by->0@,
                ),
            ),
        )
    } else if asked_order(text::text_opt(p.order)) is None {
        Some(
            ErrorView::InvalidRequest(
                "order must be \"asc\" or \"desc\", got "@ + text::debug_text(p.order->0@),
            ),
        )
    } else if limit == 0 {
        Some(ErrorView::InvalidRequest("limit must be >= 1"@))
    } else if limit > LIST_MAX_LIMIT {
        Some(
            ErrorView::InvalidRequest(
                "limit "@ + text::dec(limit as nat) + " exceeds maximum 500"@,
            ),
        )
    } else {
        match asked_cursor(text::text_opt(p.cursor)) {
            Some(raw) => if cursor::is_cursor(raw) {
                None
            } else {
                Some(
                    ErrorView::InvalidRequest(
                        "malformed cursor "@ + text::debug_text(raw)
                            + ": expected 32 hex characters"@,
                    ),
                )
            },
            None => None,
        }
    }
}

/// The page size, order and position that the parameters of a listing ask for.
pub fn list(params: &ListParams) -> (r: Result<
    (usize, ListOrder, Option<(i64, u64)>),
    ApiError,
>)
    ensures
        match r {
            Ok((limit, order, at)) => {
                &&& list_refusal(*params) is None
                &&& limit == asked_limit(params.limit)
                &&& Some(order) == asked_order(text::text_opt(params.order))
                &&& match (asked_cursor(text::text_opt(params.cursor)), at) {
                    (Some(raw), Some((ts, id))) => cursor::denotes(raw, ts, id),
                    (None, None) => true,
                    _ => false,
                }
            },
            Err(e) => list_refusal(*params) matches Some(why) && e@ == ApiErrorView::Core(why),
        },
{
    if let Some(col) = &params.order_by {
        if !text::same(col.as_str(), "_ingested_at") {
            return Err(
                ApiError::Core(
                    FirnflowError::InvalidRequest(
                        text::cat2(
                            "order_by must be \"_ingested_at\" in v1, got ",
                            text::quoted(col.as_str()).as_str(),
                        ),
                    ),
                ),
            );
        }
    }
    proof {
        reveal_strlit("desc");
        reveal_strlit("asc");
        assert("desc"@.len() == 4 && "asc"@.len() == 3);
    }
    let order = match &params.order {
        None => ListOrder::Desc,
        Some(o) => if text::same(o.as_str(), "desc") {
            ListOrder::Desc
        } else if text::same(o.as_str(), "asc") {
            ListOrder::Asc
        } else {
            return Err(
                ApiError::Core(
                    FirnflowError::InvalidRequest(
                        text::cat2(
                            "order must be \"asc\" or \"desc\", got ",
                            text::quoted(o.as_str()).as_str(),
                        ),
                    ),
                ),
            );
        },
    };
    let limit: usize = match params.limit {
        Some(n) => n,
        None => DEFAULT_LIST_LIMIT,
    };
    if limit == 0 {
        return Err(
            ApiError::Core(FirnflowError::InvalidRequest("limit must be >= 1".to_string())),
        );
    }
    if limit > LIST_MAX_LIMIT {
        return Err(
            ApiError::Core(
                FirnflowError::InvalidRequest(
                    text::cat3(
                        "limit ",
                        text::dec_text(limit as u64).as_str(),
                        " exceeds maximum 500",
                    ),
                ),
            ),
        );
    }
    match &params.cursor {
        Some(raw) => {
            if text::chars_of(raw.as_str()).len() == 0 {
                return Ok((limit, order, None));
            }
            match cursor::decode_list_cursor(raw.as_str()) {
                Ok(at) => Ok((limit, order, Some(at))),
                Err(e) => Err(ApiError::Core(e)),
            }
        },
        None => Ok((limit, order, None)),
    }
}

// ------------------------------------------------------------------ laws
/// The message of a failed operation follows the policy of the synchronous
/// answers: it is scrubbed exactly where the answer to the same error is.
pub proof fn law_operations_and_answers_scrub_alike(e: ErrorView)
    ensures
        (e is Backend || e is Cache || e is Io || e is Metrics) ==> client_message(e)
            == "operation failed"@ && error::core_reply(e).error == "internal server error"@,
        e is InvalidNamespace || e is InvalidRequest || e is StorageRegionRedirect
            ==> client_message(e) == error::core_reply(e).error,
{
}

/// What a backend, cache, I/O or metrics failure says never reaches a polling
/// client.
pub proof fn law_operation_messages_hide_internals(a: ErrorView, b: ErrorView)
    requires
        a is Backend || a is Cache || a is Io || a is Metrics,
        b is Backend || b is Cache || b is Io || b is Metrics,
    ensures
        client_message(a) == client_message(b),
{
}

/// A cursor from one page is accepted by the next request, and starts after the
/// row that the page ended with.
pub proof fn law_page_cursors_are_accepted(p: ListParams, ts: i64, id: u64)
    requires
        p.order_by is None,
        p.order is None,
        1 <= asked_limit(p.limit) <= LIST_MAX_LIMIT,
        text::text_opt(p.cursor) == Some(cursor::cursor_text(ts, id)),
    ensures
        list_refusal(p) is None,
        asked_cursor(text::text_opt(p.cursor)) == Some(cursor::cursor_text(ts, id)),
        cursor::denotes(cursor::cursor_text(ts, id), ts, id),
{
    cursor::law_cursor_round_trip(ts, id, ts, id);
}

/// A warmup reports success only where every query succeeded.
pub proof fn law_warmup_succeeds_only_whole(outcomes: Seq<Option<ErrorView>>)
    ensures
        warmup_message(outcomes) is None <==> forall|i: int|
            0 <= i < outcomes.len() ==> #[trigger] outcomes[i] is None,
    decreases outcomes.len(),
{
    if outcomes.len() > 0 {
        let front = outcomes.drop_last();
        law_warmup_succeeds_only_whole(front);
        if forall|i: int| 0 <= i < outcomes.len() ==> #[trigger] outcomes[i] is None {
            assert forall|i: int| 0 <= i < front.len() implies #[trigger] front[i] is None by {
                assert(outcomes[i] is None);
            }
            assert(outcomes.last() is None);
        }
        if warmup_message(outcomes) is None {
            assert forall|i: int| 0 <= i < outcomes.len() implies #[trigger] outcomes[i] is None by {
                if i < front.len() {
                    assert(front[i] is None);
                }
            }
        }
    }
}

/// Why a vector index request is refused: a bad name, then a kind that is not
/// `ivf_pq`, then bad options. One with none of these is accepted.
pub proof fn law_index_requests_are_checked(name: Seq<char>, req: IndexRequest)
    ensures
        index_refusal(name, req) is None <==> namespace::is_name(name) && req.kind@ == "ivf_pq"@ && (
        req.num_bits is None || req.num_bits == Some(8u32) || (req.num_bits == Some(4u32) && (
        req.num_sub_vectors matches Some(n) ==> n % 2 == 0))),
        !namespace::is_name(name) ==> index_refusal(name, req) == Some(
            ApiErrorView::Core(ErrorView::InvalidNamespace(name)),
        ),
        namespace::is_name(name) && index_refusal(name, req) is Some ==> (index_refusal(
            name,
            req,
        )->0 matches ApiErrorView::Core(e) && e is InvalidRequest),
{
}

/// A request that only names a namespace is refused exactly for a bad name, which is
/// said back.
pub proof fn law_names_are_checked(name: Seq<char>)
    ensures
        name_refusal(name) is None <==> namespace::is_name(name),
        name_refusal(name) matches Some(e) ==> e == ApiErrorView::Core(
            ErrorView::InvalidNamespace(name),
        ),
        bad_name(name) == ApiErrorView::Core(ErrorView::InvalidNamespace(name)),
        no_namespace(name) is NotFound,
{
}

/// Ids and write times can be indexed in every namespace. The table's own columns and
/// those that begin with an underscore cannot; whether any other column can is what
/// the namespace says.
pub proof fn law_scalar_index_requests_are_checked(
    name: Seq<char>,
    column: Seq<char>,
    said: Result<(), ErrorView>,
)
    requires
        namespace::is_name(name),
    ensures
        column == "id"@ || column == "_ingested_at"@ ==> scalar_refusal(name, column, said) is None,
        column == "vector"@ || column == "vectors"@ || column == "text"@ || (column.len() > 0
            && column[0] == '_' && column != "_ingested_at"@) ==> (scalar_refusal(
            name,
            column,
            said,
        ) matches Some(ApiErrorView::Core(e)) && e is InvalidRequest),
        column != "id"@ && column != "vector"@ && column != "vectors"@ && column != "text"@ && (
        column.len() == 0 || column[0] != '_') ==> scalar_refusal(name, column, said) == (
        match said {
            Ok(()) => None,
            Err(e) => Some(ApiErrorView::Core(e)),
        }),
{
    reveal_strlit("id");
    reveal_strlit("_ingested_at");
    reveal_strlit("vector");
    reveal_strlit("vectors");
    reveal_strlit("text");
    assert("id"@.len() == 2 && "_ingested_at"@.len() == 12 && "vector"@.len() == 6
        && "vectors"@.len() == 7 && "text"@.len() == 4);
    assert("_ingested_at"@[0] == '_' && "id"@[0] == 'i');
}

/// The column of a scalar index request is the one it names, or the write times.
pub proof fn law_scalar_index_columns_are_asked_for(body: Option<ScalarIndexRequest>)
    ensures
        body matches Some(req) ==> asked_column(body) == req.column@,
        body is None ==> asked_column(body) == "_ingested_at"@,
{
}

/// What a caller can act on reaches a polling client word for word.
pub proof fn law_operation_messages_say_the_mistake(e: ErrorView)
    ensures
        e matches ErrorView::InvalidRequest(m) ==> client_message(e) == "invalid request: "@ + m,
        e matches ErrorView::InvalidNamespace(m) ==> client_message(e) == "invalid namespace: "@
            + m,
        e matches ErrorView::Unsupported(m) ==> client_message(e) == "unsupported: "@ + m,
        e matches ErrorView::StorageRegionRedirect(region) ==> client_message(e)
            == error::region_hint(region),
{
}

/// Background work that ended well is on record as succeeded, without a message; work
/// that failed is on record as failed, with what the failure tells the client.
pub proof fn law_background_work_ends_as_it_went(
    before: RegistryView,
    id: Seq<char>,
    failed: Option<&FirnflowError>,
    now: u64,
)
    requires
        operations::bounded(before),
        operations::settled(before),
        before.records.dom().contains(id),
        before.records[id].status is Running,
    ensures
        ({
            let after = settled_as(before, id, failure_text(failed), now);
            &&& after.records.dom().contains(id)
            &&& after.records[id].finished_at_ms == Some(now)
            &&& after.records[id].started_at_ms == before.records[id].started_at_ms
            &&& after.records[id].kind == before.records[id].kind
            &&& after.records[id].namespace == before.records[id].namespace
            &&& failed is None ==> after.records[id].status is Succeeded
                && after.records[id].error is None
            &&& failed matches Some(e) ==> after.records[id].status is Failed
                && after.records[id].error == Some(client_message(e@))
        }),
{
    let status = if failure_text(failed) is Some {
        OperationStatus::Failed
    } else {
        OperationStatus::Succeeded
    };
    operations::law_finished_operation_is_recorded(before, id, status, failure_text(failed), now);
}

/// The number of outcomes that are failures.
pub open spec fn failure_count(outcomes: Seq<Option<ErrorView>>) -> nat
    decreases outcomes.len(),
{
    if outcomes.len() == 0 {
        0
    } else {
        failure_count(outcomes.drop_last()) + (if outcomes.last() is Some {
            1nat
        } else {
            0
        })
    }
}

proof fn lemma_failures(outcomes: Seq<Option<ErrorView>>)
    ensures
        failures_in(outcomes).len() == failure_count(outcomes),
        failures_in(outcomes).len() == 0 ==> forall|i: int|
            0 <= i < outcomes.len() ==> #[trigger] outcomes[i] is None,
        failures_in(outcomes).len() > 0 ==> exists|i: int|
            0 <= i < outcomes.len() && #[trigger] outcomes[i] == Some(failures_in(outcomes)[0])
                && forall|j: int| 0 <= j < i ==> #[trigger] outcomes[j] is None,
    decreases outcomes.len(),
{
    if outcomes.len() > 0 {
        let front = outcomes.drop_last();
        lemma_failures(front);
        let n = front.len() as int;
        if failures_in(front).len() > 0 {
            let i = choose|i: int|
                0 <= i < front.len() && #[trigger] front[i] == Some(failures_in(front)[0])
                    && forall|j: int| 0 <= j < i ==> #[trigger] front[j] is None;
            assert(failures_in(outcomes)[0] == failures_in(front)[0]);
            assert(outcomes[i] == front[i]);
            assert forall|j: int| 0 <= j < i implies #[trigger] outcomes[j] is None by {
                assert(front[j] is None);
            }
        } else {
            assert forall|j: int| 0 <= j < n implies #[trigger] outcomes[j] is None by {
                assert(front[j] is None);
            }
            assert(outcomes[n] == outcomes.last());
        }
    }
}

/// A warmup with failures says how many of how many queries failed, and what the
/// first failure tells the client.
pub proof fn law_warmup_messages_count_the_failures(outcomes: Seq<Option<ErrorView>>)
    requires
        failure_count(outcomes) > 0,
    ensures
        exists|i: int|
            0 <= i < outcomes.len() && #[trigger] outcomes[i] is Some && (forall|j: int|
                0 <= j < i ==> #[trigger] outcomes[j] is None) && warmup_message(outcomes) == Some(
                text::dec(failure_count(outcomes)) + " of "@ + text::dec(outcomes.len())
                    + " warmup queries failed; first error: "@ + client_message(outcomes[i]->0),
            ),
{
    lemma_failures(outcomes);
    let i = choose|i: int|
        0 <= i < outcomes.len() && #[trigger] outcomes[i] == Some(failures_in(outcomes)[0])
            && forall|j: int| 0 <= j < i ==> #[trigger] outcomes[j] is None;
    assert(outcomes[i] is Some);
}

/// The parameters of a listing are accepted exactly where the column is the write
/// time, the order one of the two, the limit between one and five hundred, and the
/// cursor thirty-two hexadecimal digits; each of them may be left out, and an empty
/// cursor is none. Anything else is the caller's mistake.
pub proof fn law_listing_parameters_are_checked(p: ListParams)
    ensures
        list_refusal(p) is None <==> (p.order_by matches Some(c) ==> c@ == "_ingested_at"@) && (
        p.order matches Some(o) ==> o@ == "asc"@ || o@ == "desc"@) && (p.limit matches Some(n)
            ==> 1 <= n && n <= 500) && (p.cursor matches Some(c) ==> c@.len() == 0
            || cursor::is_cursor(c@)),
        list_refusal(p) matches Some(e) ==> e is InvalidRequest,
{
}

/// A listing is newest first unless it asks for the oldest first, has fifty rows on a
/// page unless it asks for another number, and starts at the beginning unless it
/// names a cursor.
pub proof fn law_listing_defaults(p: ListParams)
    ensures
        p.order is None ==> asked_order(text::text_opt(p.order)) == Some(ListOrder::Desc),
        p.order matches Some(o) ==> (o@ == "desc"@ ==> asked_order(text::text_opt(p.order)) == Some(
            ListOrder::Desc,
        )) && (o@ == "asc"@ ==> asked_order(text::text_opt(p.order)) == Some(ListOrder::Asc)),
        p.limit is None ==> asked_limit(p.limit) == 50,
        p.limit matches Some(n) ==> asked_limit(p.limit) == n,
        p.cursor is None ==> asked_cursor(text::text_opt(p.cursor)) is None,
        p.cursor matches Some(c) ==> (c@.len() == 0 ==> asked_cursor(
            text::text_opt(p.cursor),
        ) is None) && (c@.len() > 0 ==> asked_cursor(text::text_opt(p.cursor)) == Some(c@)),
{
    reveal_strlit("asc");
    reveal_strlit("desc");
    assert("asc"@.len() == 3 && "desc"@.len() == 4);
}

/// A body can be imported where its content type, without parameters and without
/// whitespace around it, is that of an Arrow stream or of plain bytes; without a
/// content type it cannot.
pub proof fn law_imports_need_their_content_type(header: Option<Seq<char>>, media: Seq<char>)
    ensures
        importable(media) <==> media == "application/vnd.apache.arrow.stream"@ || media
            == "application/octet-stream"@,
        header is None ==> !importable(media_type(header)),
        header matches Some(h) ==> media_type(header) == text::trimmed(text::before(h, ';')),
{
    reveal_strlit("application/vnd.apache.arrow.stream");
    reveal_strlit("application/octet-stream");
    assert("application/vnd.apache.arrow.stream"@.len() == 35
        && "application/octet-stream"@.len() == 24);
}

/// A body that cannot be read, or is no stream, is the sender's mistake; whatever
/// else goes wrong with an import is the server's. Either says what the cause was.
pub proof fn law_import_failures_are_told_apart(stage: ImportStage, cause: Seq<char>)
    ensures
        import_error(stage, cause) is InvalidRequest <==> stage is ReadBody || stage is ReadStream,
        import_error(stage, cause) is Backend <==> !(stage is ReadBody || stage is ReadStream),
        exists|step: Seq<char>|
            #![trigger step + cause]
            import_error(stage, cause) == ErrorView::Backend(step + cause) || import_error(
                stage,
                cause,
            ) == ErrorView::InvalidRequest(step + cause),
{
    let step = match stage {
        ImportStage::CreateTemp => "import: create temp file: "@,
        ImportStage::OpenSpool => "import: open spool file: "@,
        ImportStage::ReadBody => "import: body read error: "@,
        ImportStage::WriteSpool => "import: spool write: "@,
        ImportStage::FlushSpool => "import: spool flush: "@,
        ImportStage::ReopenTemp => "import: reopen temp: "@,
        ImportStage::ReadStream => "import: not a valid Arrow IPC stream: "@,
    };
    assert(import_error(stage, cause) == ErrorView::Backend(step + cause) || import_error(
        stage,
        cause,
    ) == ErrorView::InvalidRequest(step + cause));
}

/// A stream can be imported exactly where it has ids that are numbers, and vectors of
/// one of the two representations.
pub proof fn law_imported_streams_have_ids_and_vectors(fields: Seq<schema::FieldView>)
    ensures
        import_schema_ok(fields) ==> schema::schema_info(fields) is Ok && exists|i: int|
            0 <= i < fields.len() && (#[trigger] fields[i]).0 == "id"@ && fields[i].1
                == FieldType::UInt64,
        schema::schema_info(fields) is Ok && (exists|i: int|
            0 <= i < fields.len() && (#[trigger] fields[i]).0 == "id"@ && fields[i].1
                == FieldType::UInt64) ==> import_schema_ok(fields),
        import_schema_error() is InvalidRequest,
{
}

/// The cache source is asked for with `1`, `true` or `yes`, and with nothing else.
pub proof fn law_cache_source_is_asked_for(header: Option<Seq<char>>)
    ensures
        asks_for_source(Some("1"@)) && asks_for_source(Some("true"@)) && asks_for_source(
            Some("yes"@),
        ),
        !asks_for_source(None),
        asks_for_source(header) ==> header == Some("1"@) || header == Some("true"@) || header
            == Some("yes"@),
{
}

/// An accepted operation is on record as running, for the namespace and the kind of
/// work that its answer names, and nothing else is touched.
pub proof fn law_accepted_operations_are_on_record(
    a: OperationAccepted,
    before: RegistryView,
    after: RegistryView,
    kind: OperationKind,
    ns: Seq<char>,
    other: Seq<char>,
)
    requires
        registered_as(a, before, after, kind, ns),
        other != a.operation_id@,
    ensures
        a.kind == kind && a.namespace@ == ns && a.status is Running,
        after.records.dom().contains(a.operation_id@),
        after.records[a.operation_id@].operation_id == a.operation_id@,
        after.records[a.operation_id@].kind == kind,
        after.records[a.operation_id@].namespace == ns,
        after.records[a.operation_id@].status is Running,
        after.records[a.operation_id@].finished_at_ms is None,
        after.records[a.operation_id@].error is None,
        clock::read_millis(after.records[a.operation_id@].started_at_ms),
        after.completed == before.completed,
        after.records.dom().contains(other) <==> before.records.dom().contains(other),
        before.records.dom().contains(other) ==> after.records[other] == before.records[other],
{
}

/// A request that starts background work is answered exactly one way: refused for
/// what is wrong with it, and nothing is on record; or accepted.
pub proof fn law_requests_are_refused_or_accepted(
    r: Result<(NamespaceId, OperationAccepted), ApiError>,
    refusal: Option<ApiErrorView>,
    before: RegistryView,
    after: RegistryView,
    kind: OperationKind,
    name: Seq<char>,
)
    requires
        answered(r, refusal, before, after, kind, name),
    ensures
        r is Ok <==> refusal is None,
        r matches Err(e) ==> Some(e@) == refusal && after == before,
        r matches Ok(x) ==> x.0@ == name && x.1.namespace@ == name && x.1.kind == kind
            && after.records.dom().contains(x.1.operation_id@),
{
}
/// What stopped an accepted import is told with what it was being done, and with
/// its cause.
pub proof fn law_stopped_imports_tell_the_cause(stage: ResumeStage, cause: Seq<char>)
    ensures
        stage is ReopenTemp ==> resume_error(stage, cause) == "import: reopen temp: "@ + cause,
        stage is ReadStream ==> resume_error(stage, cause) == "import: Arrow stream: "@ + cause,
        cause.is_suffix_of(resume_error(stage, cause)),
{
    let m = resume_error(stage, cause);
    assert(cause =~= m.subrange(m.len() - cause.len(), m.len() as int));
}

} // verus!
