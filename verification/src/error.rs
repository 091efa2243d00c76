//! Error types of the core and of the API in front of it, and what a client
//! gets to see of each.
use vstd::prelude::*;
use crate::text;

verus! {

/// Top-level error type of the core operations.
#[derive(Debug)]
pub enum FirnflowError {
    /// A cache backend operation failed.
    Cache(String),
    /// A storage backend operation failed.
    Backend(String),
    /// Object storage redirected the request: the configured region most
    /// likely does not match the bucket's region.
    StorageRegionRedirect {
        /// The configured region, if known.
        configured_region: Option<String>,
    },
    /// An I/O error, by its text.
    Io(String),
    /// The requested namespace name is invalid.
    InvalidNamespace(String),
    /// A request payload failed validation.
    InvalidRequest(String),
    /// The operation or configuration is not supported.
    Unsupported(String),
    /// A metrics registry or encoding operation failed.
    Metrics(String),
}

/// The mathematical content of a [`FirnflowError`].
pub enum ErrorView {
    Cache(Seq<char>),
    Backend(Seq<char>),
    StorageRegionRedirect(Option<Seq<char>>),
    Io(Seq<char>),
    InvalidNamespace(Seq<char>),
    InvalidRequest(Seq<char>),
    Unsupported(Seq<char>),
    Metrics(Seq<char>),
}

impl View for FirnflowError {
    type V = ErrorView;

    open spec fn view(&self) -> ErrorView {
        match *self {
            FirnflowError::Cache(m) => ErrorView::Cache(m@),
            FirnflowError::Backend(m) => ErrorView::Backend(m@),
            FirnflowError::StorageRegionRedirect { configured_region } =>
                ErrorView::StorageRegionRedirect(text::text_opt(configured_region)),
            FirnflowError::Io(m) => ErrorView::Io(m@),
            FirnflowError::InvalidNamespace(m) => ErrorView::InvalidNamespace(m@),
            FirnflowError::InvalidRequest(m) => ErrorView::InvalidRequest(m@),
            FirnflowError::Unsupported(m) => ErrorView::Unsupported(m@),
            FirnflowError::Metrics(m) => ErrorView::Metrics(m@),
        }
    }
}

/// A result with its error taken by its content.
pub open spec fn outcome<T>(r: Result<T, FirnflowError>) -> Result<T, ErrorView> {
    match r {
        Ok(v) => Ok(v),
        Err(e) => Err(e@),
    }
}

/// The one-line description of an error.
pub open spec fn error_message(e: ErrorView) -> Seq<char> {
    match e {
        ErrorView::Cache(m) => "cache backend error: "@ + m,
        ErrorView::Backend(m) => "storage backend error: "@ + m,
        ErrorView::StorageRegionRedirect(region) =>
            "object storage redirected the request; configured region "@ + (match region {
                Some(r) => "Some("@ + text::debug_text(r) + ")"@,
                None => "None"@,
            }) + " likely does not match the bucket's region"@,
        ErrorView::Io(m) => "io error: "@ + m,
        ErrorView::InvalidNamespace(m) => "invalid namespace name: "@ + text::debug_text(m),
        ErrorView::InvalidRequest(m) => "invalid request: "@ + m,
        ErrorView::Unsupported(m) => "unsupported: "@ + m,
        ErrorView::Metrics(m) => "metrics error: "@ + m,
    }
}

impl FirnflowError {
    /// The one-line description of the error, for logs and error chains.
    pub fn message(&self) -> (r: String)
        ensures
            r@ == error_message(self@),
    {
        match self {
            FirnflowError::Cache(m) => text::cat2("cache backend error: ", m.as_str()),
            FirnflowError::Backend(m) => text::cat2("storage backend error: ", m.as_str()),
            FirnflowError::StorageRegionRedirect { configured_region } => {
                let region = match configured_region {
                    Some(r) => text::cat3("Some(", text::quoted(r.as_str()).as_str(), ")"),
                    None => "None".to_string(),
                };
                text::cat3(
                    "object storage redirected the request; configured region ",
                    region.as_str(),
                    " likely does not match the bucket's region",
                )
            },
            FirnflowError::Io(m) => text::cat2("io error: ", m.as_str()),
            FirnflowError::InvalidNamespace(m) => {
                let shown = text::quoted(m.as_str());
                text::cat2("invalid namespace name: ", shown.as_str())
            },
            FirnflowError::InvalidRequest(m) => text::cat2("invalid request: ", m.as_str()),
            FirnflowError::Unsupported(m) => text::cat2("unsupported: ", m.as_str()),
            FirnflowError::Metrics(m) => text::cat2("metrics error: ", m.as_str()),
        }
    }
}

/// API error variants: what the core reports, and the conditions that only the
/// API layer knows.
#[derive(Debug)]
pub enum ApiError {
    /// An error of the core.
    Core(FirnflowError),
    /// No valid bearer token.
    Unauthorized,
    /// A valid token without the scope for the route.
    Forbidden,
    /// The addressed resource does not exist.
    NotFound(String),
    /// Shed by a rate limiter; the whole seconds to wait.
    RateLimited(u64),
}

/// The mathematical content of an [`ApiError`].
pub enum ApiErrorView {
    Core(ErrorView),
    Unauthorized,
    Forbidden,
    NotFound(Seq<char>),
    RateLimited(u64),
}

impl View for ApiError {
    type V = ApiErrorView;

    open spec fn view(&self) -> ApiErrorView {
        match *self {
            ApiError::Core(e) => ApiErrorView::Core(e@),
            ApiError::Unauthorized => ApiErrorView::Unauthorized,
            ApiError::Forbidden => ApiErrorView::Forbidden,
            ApiError::NotFound(m) => ApiErrorView::NotFound(m@),
            ApiError::RateLimited(s) => ApiErrorView::RateLimited(s),
        }
    }
}

impl From<FirnflowError> for ApiError {
    fn from(e: FirnflowError) -> (r: ApiError) {
        ApiError::Core(e)
    }
}

impl vstd::std_specs::convert::FromSpecImpl<FirnflowError> for ApiError {
    open spec fn obeys_from_spec() -> bool {
        true
    }

    open spec fn from_spec(e: FirnflowError) -> ApiError {
        ApiError::Core(e)
    }
}

/// A response that reports an error: its status, the text under `error` in the
/// JSON body, and the headers that some statuses carry.
#[derive(Debug)]
pub struct ErrorReply {
    /// HTTP status code.
    pub status: u16,
    /// Text under `error` in the JSON body.
    pub error: String,
    /// Value of the `WWW-Authenticate` header, where there is one.
    pub www_authenticate: Option<String>,
    /// Value of the `Retry-After` header in seconds, where there is one.
    pub retry_after: Option<u64>,
}

/// The mathematical content of an [`ErrorReply`].
pub struct ReplyView {
    pub status: u16,
    pub error: Seq<char>,
    pub www_authenticate: Option<Seq<char>>,
    pub retry_after: Option<u64>,
}

impl View for ErrorReply {
    type V = ReplyView;

    open spec fn view(&self) -> ReplyView {
        ReplyView {
            status: self.status,
            error: self.error@,
            www_authenticate: text::text_opt(self.www_authenticate),
            retry_after: self.retry_after,
        }
    }
}

/// A reply that carries only a status and a text.
pub open spec fn plain_reply(status: u16, error: Seq<char>) -> ReplyView {
    ReplyView { status, error, www_authenticate: None, retry_after: None }
}

/// The hint that a region redirect is answered with. It names the configured
/// region and the setting to change, and nothing that the backend said.
pub open spec fn region_hint(region: Option<Seq<char>>) -> Seq<char> {
    "object storage redirected the request, which usually means the configured region does not match the bucket's region."@
        + (match region {
        Some(r) => " The configured region is `"@ + r + "`."@,
        None => ""@,
    }) + " Set FIRNFLOW_S3_REGION (or AWS_REGION) to the bucket's region."@
}

/// The status and text that an error of the core is answered with.
pub open spec fn core_reply(e: ErrorView) -> ReplyView {
    match e {
        ErrorView::InvalidNamespace(name) => plain_reply(400, "invalid namespace: "@ + name),
        ErrorView::InvalidRequest(m) => plain_reply(400, "invalid request: "@ + m),
        ErrorView::Unsupported(m) => plain_reply(501, "not supported: "@ + m),
        ErrorView::StorageRegionRedirect(region) => plain_reply(500, region_hint(region)),
        ErrorView::Backend(_) | ErrorView::Cache(_) | ErrorView::Io(_) | ErrorView::Metrics(_) =>
            plain_reply(500, "internal server error"@),
    }
}

/// What each API error is answered with.
pub open spec fn api_reply(e: ApiErrorView) -> ReplyView {
    match e {
        ApiErrorView::Core(e) => core_reply(e),
        ApiErrorView::Unauthorized => ReplyView {
            status: 401,
            error: "unauthorized"@,
            www_authenticate: Some("Bearer realm=\"firnflow\""@),
            retry_after: None,
        },
        ApiErrorView::Forbidden => plain_reply(403, "forbidden"@),
        ApiErrorView::NotFound(m) => plain_reply(404, m),
        ApiErrorView::RateLimited(secs) => ReplyView {
            status: 429,
            error: "rate limited"@,
            www_authenticate: None,
            retry_after: Some(if secs < 1 { 1 } else { secs }),
        },
    }
}

/// A reply that carries only a status and a text.
pub fn plain(status: u16, error: String) -> (r: ErrorReply)
    ensures
        r@ == plain_reply(status, error@),
{
    ErrorReply { status, error, www_authenticate: None, retry_after: None }
}

/// The hint for a region redirect.
pub fn region_hint_text(configured_region: &Option<String>) -> (r: String)
    ensures
        r@ == region_hint(text::text_opt(*configured_region)),
{
    let region = match configured_region {
        Some(r) => text::cat3(" The configured region is `", r.as_str(), "`."),
        None => "".to_string(),
    };
    text::cat3(
        "object storage redirected the request, which usually means the configured region does not match the bucket's region.",
        region.as_str(),
        " Set FIRNFLOW_S3_REGION (or AWS_REGION) to the bucket's region.",
    )
}

/// The reply to an error of the core. Texts of backend, cache, I/O and metrics
/// failures never reach the client.
pub fn core_response(err: &FirnflowError) -> (r: ErrorReply)
    ensures
        r@ == core_reply(err@),
{
    match err {
        FirnflowError::InvalidNamespace(name) => plain(
            400,
            text::cat2("invalid namespace: ", name.as_str()),
        ),
        FirnflowError::InvalidRequest(m) => plain(400, text::cat2("invalid request: ", m.as_str())),
        FirnflowError::Unsupported(m) => plain(501, text::cat2("not supported: ", m.as_str())),
        FirnflowError::StorageRegionRedirect { configured_region } => plain(
            500,
            region_hint_text(configured_region),
        ),
        FirnflowError::Backend(_)
        | FirnflowError::Cache(_)
        | FirnflowError::Io(_)
        | FirnflowError::Metrics(_) => plain(500, "internal server error".to_string()),
    }
}

impl ApiError {
    /// The reply that this error is answered with.
    pub fn into_response(self) -> (r: ErrorReply)
        ensures
            r@ == api_reply(self@),
    {
        match self {
            ApiError::Core(err) => core_response(&err),
            ApiError::Unauthorized => ErrorReply {
                status: 401,
                error: "unauthorized".to_string(),
                www_authenticate: Some("Bearer realm=\"firnflow\"".to_string()),
                retry_after: None,
            },
            ApiError::Forbidden => plain(403, "forbidden".to_string()),
            ApiError::NotFound(m) => plain(404, m),
            ApiError::RateLimited(secs) => ErrorReply {
                status: 429,
                error: "rate limited".to_string(),
                www_authenticate: None,
                retry_after: Some(if secs < 1 { 1 } else { secs }),
            },
        }
    }
}

// ------------------------------------------------------------------ laws
/// What a backend, cache, I/O or metrics failure says never reaches a client:
/// two such failures get the same reply, whatever their texts.
pub proof fn law_internal_texts_are_scrubbed(a: ErrorView, b: ErrorView)
    requires
        a is Backend || a is Cache || a is Io || a is Metrics,
        b is Backend || b is Cache || b is Io || b is Metrics,
    ensures
        core_reply(a) == core_reply(b),
        core_reply(a) == plain_reply(500, "internal server error"@),
{
}

/// Every error is answered with a client or server error status; a client's
/// mistake is never answered with a server error, nor the other way round.
pub proof fn law_reply_statuses(e: ErrorView)
    ensures
        core_reply(e).status == 400 <==> (e is InvalidNamespace || e is InvalidRequest),
        core_reply(e).status == 501 <==> e is Unsupported,
        core_reply(e).status == 400 || core_reply(e).status == 500 || core_reply(e).status == 501,
{
}

/// What the caller got wrong is said back word for word behind what kind of mistake
/// it is; a region that does not match is said with the configured region, if there
/// is one, and with the setting to change.
pub proof fn law_callers_are_told_their_mistake(e: ErrorView)
    ensures
        e matches ErrorView::InvalidRequest(m) ==> core_reply(e).error == "invalid request: "@ + m,
        e matches ErrorView::InvalidNamespace(m) ==> core_reply(e).error == "invalid namespace: "@
            + m,
        e matches ErrorView::Unsupported(m) ==> core_reply(e).error == "not supported: "@ + m,
        e matches ErrorView::StorageRegionRedirect(Some(region)) ==> text::occurs(
            core_reply(e).error,
            "`"@ + region + "`"@,
        ),
        e is StorageRegionRedirect ==> text::occurs(core_reply(e).error, "FIRNFLOW_S3_REGION"@),
        core_reply(e).www_authenticate is None,
        core_reply(e).retry_after is None,
{
    if let ErrorView::StorageRegionRedirect(region) = e {
        let said = core_reply(e).error;
        reveal_strlit(" Set FIRNFLOW_S3_REGION (or AWS_REGION) to the bucket's region.");
        reveal_strlit("FIRNFLOW_S3_REGION");
        let tail = " Set FIRNFLOW_S3_REGION (or AWS_REGION) to the bucket's region."@;
        let name = "FIRNFLOW_S3_REGION"@;
        let at = said.len() - tail.len() + 5;
        assert(name.len() == 18 && tail.len() == 63);
        assert(said.subrange(at, at + 18) =~= name) by {
            assert forall|i: int| 0 <= i < 18 implies said[at + i] == name[i] by {
                assert(said[at + i] == tail[5 + i]);
                assert(tail[5 + i] == name[i]);
            }
        }
        assert(text::occurs_at(said, name, at));
        if let Some(r) = region {
            reveal_strlit("`");
            reveal_strlit("`.");
            reveal_strlit(" The configured region is `");
            let head = "object storage redirected the request, which usually means the configured region does not match the bucket's region."@;
            let lead = " The configured region is `"@;
            let marked = "`"@ + r + "`"@;
            let from = head.len() + lead.len() - 1;
            assert(lead.len() == 27 && lead[26] == '`' && "`"@.len() == 1 && "`."@[0] == '`');
            assert(said.subrange(from, from + marked.len()) =~= marked);
            assert(text::occurs_at(said, marked, from));
        }
    }
}

/// How each error of the API is answered: who is not known is asked for a bearer
/// token, who may not is forbidden, what does not exist is not found, and who comes
/// too often is told to wait at least a second.
pub proof fn law_api_errors_have_their_status(e: ApiErrorView)
    ensures
        e is Unauthorized ==> api_reply(e).status == 401 && api_reply(e).www_authenticate is Some,
        e is Forbidden ==> api_reply(e).status == 403,
        e matches ApiErrorView::NotFound(m) ==> api_reply(e).status == 404 && api_reply(e).error
            == m,
        e matches ApiErrorView::RateLimited(secs) ==> api_reply(e).status == 429 && (
        api_reply(e).retry_after matches Some(wait) && wait >= 1 && wait >= secs && (secs >= 1
            ==> wait == secs) && (secs == 0 ==> wait == 1)),
        e matches ApiErrorView::Core(c) ==> api_reply(e) == core_reply(c),
        !(e is Unauthorized) ==> api_reply(e).www_authenticate is None,
        !(e is RateLimited) ==> api_reply(e).retry_after is None,
{
}

/// The description of an error ends with what went wrong, behind where it did.
pub proof fn law_descriptions_say_what_went_wrong(e: ErrorView)
    ensures
        e matches ErrorView::Cache(m) ==> error_message(e) == "cache backend error: "@ + m,
        e matches ErrorView::Backend(m) ==> error_message(e) == "storage backend error: "@ + m,
        e matches ErrorView::Io(m) ==> error_message(e) == "io error: "@ + m,
        e matches ErrorView::InvalidRequest(m) ==> error_message(e) == "invalid request: "@ + m,
        e matches ErrorView::InvalidNamespace(m) ==> error_message(e) == "invalid namespace name: "@
            + text::debug_text(m),
        e matches ErrorView::Unsupported(m) ==> error_message(e) == "unsupported: "@ + m,
        e matches ErrorView::Metrics(m) ==> error_message(e) == "metrics error: "@ + m,
{
}
/// An error is seen as what it is, with its own text.
pub proof fn law_errors_are_seen_whole(e: FirnflowError, a: ApiError, r: ErrorReply)
    ensures
        e matches FirnflowError::Cache(m) ==> e@ == ErrorView::Cache(m@),
        e matches FirnflowError::Backend(m) ==> e@ == ErrorView::Backend(m@),
        e matches FirnflowError::Io(m) ==> e@ == ErrorView::Io(m@),
        e matches FirnflowError::InvalidNamespace(m) ==> e@ == ErrorView::InvalidNamespace(m@),
        e matches FirnflowError::InvalidRequest(m) ==> e@ == ErrorView::InvalidRequest(m@),
        e matches FirnflowError::Unsupported(m) ==> e@ == ErrorView::Unsupported(m@),
        e matches FirnflowError::Metrics(m) ==> e@ == ErrorView::Metrics(m@),
        e matches FirnflowError::StorageRegionRedirect { configured_region } ==> e@
            is StorageRegionRedirect && (configured_region is Some
            <==> e@->StorageRegionRedirect_0 is Some) && (configured_region matches Some(region)
            ==> e@->StorageRegionRedirect_0 == Some(region@)),
        a matches ApiError::Core(x) ==> a@ == ApiErrorView::Core(x@),
        a matches ApiError::NotFound(m) ==> a@ == ApiErrorView::NotFound(m@),
        a matches ApiError::RateLimited(s) ==> a@ == ApiErrorView::RateLimited(s),
        a is Unauthorized ==> a@ is Unauthorized,
        a is Forbidden ==> a@ is Forbidden,
        r@.status == r.status,
        r@.error == r.error@,
        r@.retry_after == r.retry_after,
        r.www_authenticate is None <==> r@.www_authenticate is None,
        r.www_authenticate matches Some(w) ==> r@.www_authenticate == Some(w@),
{
}

} // verus!
