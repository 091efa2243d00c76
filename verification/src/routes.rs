//! The endpoints: where each is mounted, and whom it lets in.
use vstd::prelude::*;
use crate::auth::{self, AuthConfig, KeysView, Principal, Rejection};

verus! {

/// An endpoint.
#[derive(Debug, Clone, Copy, PartialEq, Eq, Structural)]
pub enum Endpoint {
    Health,
    Metrics,
    Upsert,
    Query,
    Facet,
    List,
    Warmup,
    Info,
    GetOperation,
    Import,
    Delete,
    CreateIndex,
    CreateFtsIndex,
    CreateScalarIndex,
    Compact,
}

/// Whom an endpoint lets in.
#[derive(Debug, Clone, Copy, PartialEq, Eq, Structural)]
pub enum Access {
    /// Everyone, whatever keys are set.
    Public,
    /// Holders of the metrics token, where one is set.
    Metrics,
    /// Those who may read and write.
    Write,
    /// Those who may administer.
    Admin,
}

/// Every endpoint.
pub open spec fn endpoints() -> Seq<Endpoint> {
    seq![
        Endpoint::Health,
        Endpoint::Metrics,
        Endpoint::Upsert,
        Endpoint::Query,
        Endpoint::Facet,
        Endpoint::List,
        Endpoint::Warmup,
        Endpoint::Info,
        Endpoint::GetOperation,
        Endpoint::Import,
        Endpoint::Delete,
        Endpoint::CreateIndex,
        Endpoint::CreateFtsIndex,
        Endpoint::CreateScalarIndex,
        Endpoint::Compact,
    ]
}

/// Every endpoint.
pub fn all_endpoints() -> (r: Vec<Endpoint>)
    ensures
        r@ == endpoints(),
{
    let r = vec![
        Endpoint::Health,
        Endpoint::Metrics,
        Endpoint::Upsert,
        Endpoint::Query,
        Endpoint::Facet,
        Endpoint::List,
        Endpoint::Warmup,
        Endpoint::Info,
        Endpoint::GetOperation,
        Endpoint::Import,
        Endpoint::Delete,
        Endpoint::CreateIndex,
        Endpoint::CreateFtsIndex,
        Endpoint::CreateScalarIndex,
        Endpoint::Compact,
    ];
    assert(r@ =~= endpoints());
    r
}

/// Whom an endpoint lets in. Metadata and the state of an operation are
/// reading; what deletes or rebuilds is administration.
pub open spec fn access_of(e: Endpoint) -> Access {
    match e {
        Endpoint::Health => Access::Public,
        Endpoint::Metrics => Access::Metrics,
        Endpoint::Upsert | Endpoint::Query | Endpoint::Facet | Endpoint::List | Endpoint::Warmup
        | Endpoint::Info | Endpoint::GetOperation | Endpoint::Import => Access::Write,
        Endpoint::Delete | Endpoint::CreateIndex | Endpoint::CreateFtsIndex
        | Endpoint::CreateScalarIndex | Endpoint::Compact => Access::Admin,
    }
}

/// The method of an endpoint.
pub open spec fn method_of(e: Endpoint) -> Seq<char> {
    match e {
        Endpoint::Health | Endpoint::Metrics | Endpoint::List | Endpoint::Info
        | Endpoint::GetOperation => "GET"@,
        Endpoint::Delete => "DELETE"@,
        _ => "POST"@,
    }
}

/// The path of an endpoint.
pub open spec fn path_of(e: Endpoint) -> Seq<char> {
    match e {
        Endpoint::Health => "/health"@,
        Endpoint::Metrics => "/metrics"@,
        Endpoint::Upsert => "/ns/{namespace}/upsert"@,
        Endpoint::Query => "/ns/{namespace}/query"@,
        Endpoint::Facet => "/ns/{namespace}/facet"@,
        Endpoint::List => "/ns/{namespace}/list"@,
        Endpoint::Warmup => "/ns/{namespace}/warmup"@,
        Endpoint::Info | Endpoint::Delete => "/ns/{namespace}"@,
        Endpoint::GetOperation => "/operations/{operation_id}"@,
        Endpoint::Import => "/ns/{namespace}/import"@,
        Endpoint::CreateIndex => "/ns/{namespace}/index"@,
        Endpoint::CreateFtsIndex => "/ns/{namespace}/fts-index"@,
        Endpoint::CreateScalarIndex => "/ns/{namespace}/scalar-index"@,
        Endpoint::Compact => "/ns/{namespace}/compact"@,
    }
}

/// What a request may do, or why it may not.
pub open spec fn entry(e: Endpoint, k: KeysView, header: Option<Seq<char>>) -> Result<
    Option<Principal>,
    Rejection,
> {
    match access_of(e) {
        Access::Public => Ok(None),
        Access::Metrics => match auth::metrics_access(k, header) {
            Ok(()) => Ok(None),
            Err(r) => Err(r),
        },
        Access::Write => match auth::write_access(k, header) {
            Ok(p) => Ok(Some(p)),
            Err(r) => Err(r),
        },
        Access::Admin => match auth::admin_access(k, header) {
            Ok(p) => Ok(Some(p)),
            Err(r) => Err(r),
        },
    }
}

impl Endpoint {
    /// Whom the endpoint lets in.
    pub fn access(self) -> (r: Access)
        ensures
            r == access_of(self),
    {
        match self {
            Endpoint::Health => Access::Public,
            Endpoint::Metrics => Access::Metrics,
            Endpoint::Upsert
            | Endpoint::Query
            | Endpoint::Facet
            | Endpoint::List
            | Endpoint::Warmup
            | Endpoint::Info
            | Endpoint::GetOperation
            | Endpoint::Import => Access::Write,
            Endpoint::Delete
            | Endpoint::CreateIndex
            | Endpoint::CreateFtsIndex
            | Endpoint::CreateScalarIndex
            | Endpoint::Compact => Access::Admin,
        }
    }

    /// The method of the endpoint.
    pub fn method(self) -> (r: &'static str)
        ensures
            r@ == method_of(self),
    {
        match self {
            Endpoint::Health
            | Endpoint::Metrics
            | Endpoint::List
            | Endpoint::Info
            | Endpoint::GetOperation => "GET",
            Endpoint::Delete => "DELETE",
            _ => "POST",
        }
    }

    /// The path of the endpoint.
    pub fn path(self) -> (r: &'static str)
        ensures
            r@ == path_of(self),
    {
        match self {
            Endpoint::Health => "/health",
            Endpoint::Metrics => "/metrics",
            Endpoint::Upsert => "/ns/{namespace}/upsert",
            Endpoint::Query => "/ns/{namespace}/query",
            Endpoint::Facet => "/ns/{namespace}/facet",
            Endpoint::List => "/ns/{namespace}/list",
            Endpoint::Warmup => "/ns/{namespace}/warmup",
            Endpoint::Info | Endpoint::Delete => "/ns/{namespace}",
            Endpoint::GetOperation => "/operations/{operation_id}",
            Endpoint::Import => "/ns/{namespace}/import",
            Endpoint::CreateIndex => "/ns/{namespace}/index",
            Endpoint::CreateFtsIndex => "/ns/{namespace}/fts-index",
            Endpoint::CreateScalarIndex => "/ns/{namespace}/scalar-index",
            Endpoint::Compact => "/ns/{namespace}/compact",
        }
    }

    /// Whether the cap on request bodies holds. An import streams its body past
    /// it, under a cap of its own.
    pub fn body_capped(self) -> (r: bool)
        ensures
            r == !(self is Import),
    {
        !matches!(self, Endpoint::Import)
    }

    /// Whether the rate limits hold: they spare health and metrics.
    pub fn rate_limited(self) -> (r: bool)
        ensures
            r == (access_of(self) is Write || access_of(self) is Admin),
    {
        matches!(self.access(), Access::Write | Access::Admin)
    }

    /// Lets a request in, or rejects it.
    pub fn let_in(self, keys: &AuthConfig, header: Option<&str>) -> (r: Result<
        Option<Principal>,
        Rejection,
    >)
        ensures
            r == entry(self, keys@, auth::str_opt(header)),
    {
        match self.access() {
            Access::Public => Ok(None),
            Access::Metrics => match keys.require_metrics_token(header) {
                Ok(()) => Ok(None),
                Err(r) => Err(r),
            },
            Access::Write => match keys.require_write(header) {
                Ok(p) => Ok(Some(p)),
                Err(r) => Err(r),
            },
            Access::Admin => match keys.require_admin(header) {
                Ok(p) => Ok(Some(p)),
                Err(r) => Err(r),
            },
        }
    }
}

// ------------------------------------------------------------------ laws
/// The list of endpoints leaves none out and names each once.
pub proof fn law_every_endpoint_is_listed(e: Endpoint)
    ensures
        endpoints().contains(e),
        endpoints().no_duplicates(),
{
    let s = endpoints();
    assert(s[0] is Health && s[1] is Metrics && s[2] is Upsert && s[3] is Query && s[4] is Facet
        && s[5] is List && s[6] is Warmup && s[7] is Info && s[8] is GetOperation && s[9] is Import
        && s[10] is Delete && s[11] is CreateIndex && s[12] is CreateFtsIndex
        && s[13] is CreateScalarIndex && s[14] is Compact);
}

/// No two endpoints share both method and path.
pub proof fn law_routes_are_distinct(a: Endpoint, b: Endpoint)
    requires
        method_of(a) == method_of(b),
        path_of(a) == path_of(b),
    ensures
        a == b,
{
    reveal_strlit("GET");
    reveal_strlit("DELETE");
    reveal_strlit("POST");
    assert("GET"@.len() == 3 && "DELETE"@.len() == 6 && "POST"@.len() == 4);
    reveal_strlit("/health");
    reveal_strlit("/metrics");
    reveal_strlit("/ns/{namespace}");
    reveal_strlit("/ns/{namespace}/upsert");
    reveal_strlit("/ns/{namespace}/query");
    reveal_strlit("/ns/{namespace}/facet");
    reveal_strlit("/ns/{namespace}/list");
    reveal_strlit("/ns/{namespace}/warmup");
    reveal_strlit("/operations/{operation_id}");
    reveal_strlit("/ns/{namespace}/import");
    reveal_strlit("/ns/{namespace}/index");
    reveal_strlit("/ns/{namespace}/fts-index");
    reveal_strlit("/ns/{namespace}/scalar-index");
    reveal_strlit("/ns/{namespace}/compact");
    assert("/health"@.len() == 7);
    assert("/metrics"@.len() == 8);
    assert("/ns/{namespace}"@.len() == 15);
    assert("/ns/{namespace}/upsert"@.len() == 22 && "/ns/{namespace}/upsert"@[16] == 'u');
    assert("/ns/{namespace}/query"@.len() == 21 && "/ns/{namespace}/query"@[16] == 'q');
    assert("/ns/{namespace}/facet"@.len() == 21 && "/ns/{namespace}/facet"@[16] == 'f');
    assert("/ns/{namespace}/list"@.len() == 20);
    assert("/ns/{namespace}/warmup"@.len() == 22 && "/ns/{namespace}/warmup"@[16] == 'w');
    assert("/operations/{operation_id}"@.len() == 26);
    assert("/ns/{namespace}/import"@.len() == 22 && "/ns/{namespace}/import"@[16] == 'i');
    assert("/ns/{namespace}/index"@.len() == 21 && "/ns/{namespace}/index"@[16] == 'i');
    assert("/ns/{namespace}/fts-index"@.len() == 25);
    assert("/ns/{namespace}/scalar-index"@.len() == 28);
    assert("/ns/{namespace}/compact"@.len() == 23);
}

/// Health answers everyone, whatever keys are set.
pub proof fn law_health_is_open(k: KeysView, header: Option<Seq<char>>)
    ensures
        entry(Endpoint::Health, k, header) is Ok,
{
}

/// Once a key is set, no endpoint but health and metrics lets a request in that
/// carries no key.
pub proof fn law_guarded_endpoints_need_a_key(e: Endpoint, k: KeysView)
    requires
        !auth::open_to_all(k),
        !(e is Health),
        !(e is Metrics),
    ensures
        entry(e, k, None) is Err,
{
}

/// With a key for each scope, the read/write key opens no endpoint that deletes
/// or rebuilds.
pub proof fn law_write_key_cannot_administer(e: Endpoint, k: KeysView, header: Seq<char>)
    requires
        access_of(e) is Admin,
        k.admin is Some,
        auth::write_access(k, Some(header)) == Ok::<Principal, Rejection>(Principal::Write),
    ensures
        entry(e, k, Some(header)) == Err::<Option<Principal>, Rejection>(Rejection::Forbidden),
{
}

/// What deletes or rebuilds is for administrators: deleting, the three index builds
/// and compacting. Health is open, metrics have a token of their own, and all the
/// rest reads and writes.
pub proof fn law_destructive_endpoints_are_for_administrators(e: Endpoint)
    ensures
        access_of(e) is Admin <==> e == Endpoint::Delete || e == Endpoint::CreateIndex || e
            == Endpoint::CreateFtsIndex || e == Endpoint::CreateScalarIndex || e
            == Endpoint::Compact,
        access_of(e) is Public <==> e == Endpoint::Health,
        access_of(e) is Metrics <==> e == Endpoint::Metrics,
        access_of(e) is Write <==> e == Endpoint::Upsert || e == Endpoint::Query || e
            == Endpoint::Facet || e == Endpoint::List || e == Endpoint::Warmup || e
            == Endpoint::Info || e == Endpoint::GetOperation || e == Endpoint::Import,
{
}

/// Each endpoint asks for the key that its access calls for, and for no other.
pub proof fn law_endpoints_ask_for_their_key(e: Endpoint, k: KeysView, header: Option<Seq<char>>)
    ensures
        access_of(e) is Public ==> entry(e, k, header) == Ok::<Option<Principal>, Rejection>(None),
        access_of(e) is Metrics ==> (entry(e, k, header) is Ok <==> auth::metrics_access(
            k,
            header,
        ) is Ok),
        access_of(e) is Write ==> (entry(e, k, header) is Ok <==> auth::write_access(
            k,
            header,
        ) is Ok),
        access_of(e) is Admin ==> (entry(e, k, header) is Ok <==> auth::admin_access(
            k,
            header,
        ) is Ok),
        entry(e, k, header) matches Ok(Some(p)) ==> auth::write_access(k, header) is Ok && (p
            == Principal::Admin || access_of(e) is Write || auth::open_to_all(k)),
        access_of(e) is Write && entry(e, k, header) is Err ==> entry(e, k, header)->Err_0
            == auth::write_access(k, header)->Err_0,
        access_of(e) is Admin && entry(e, k, header) is Err ==> entry(e, k, header)->Err_0
            == auth::admin_access(k, header)->Err_0,
        access_of(e) is Metrics && entry(e, k, header) is Err ==> entry(e, k, header)->Err_0
            == auth::metrics_access(k, header)->Err_0,
{
}

/// Where each endpoint is mounted. What only reads is a `GET`, but for searches and
/// facets, whose requests have a body.
pub proof fn law_endpoints_are_mounted(e: Endpoint)
    ensures
        e is Health ==> method_of(e) == "GET"@ && path_of(e) == "/health"@,
        e is Metrics ==> method_of(e) == "GET"@ && path_of(e) == "/metrics"@,
        e is Upsert ==> method_of(e) == "POST"@ && path_of(e) == "/ns/{namespace}/upsert"@,
        e is Query ==> method_of(e) == "POST"@ && path_of(e) == "/ns/{namespace}/query"@,
        e is Facet ==> method_of(e) == "POST"@ && path_of(e) == "/ns/{namespace}/facet"@,
        e is List ==> method_of(e) == "GET"@ && path_of(e) == "/ns/{namespace}/list"@,
        e is Warmup ==> method_of(e) == "POST"@ && path_of(e) == "/ns/{namespace}/warmup"@,
        e is Info ==> method_of(e) == "GET"@ && path_of(e) == "/ns/{namespace}"@,
        e is GetOperation ==> method_of(e) == "GET"@ && path_of(e)
            == "/operations/{operation_id}"@,
        e is Import ==> method_of(e) == "POST"@ && path_of(e) == "/ns/{namespace}/import"@,
        e is Delete ==> method_of(e) == "DELETE"@ && path_of(e) == "/ns/{namespace}"@,
        e is CreateIndex ==> method_of(e) == "POST"@ && path_of(e) == "/ns/{namespace}/index"@,
        e is CreateFtsIndex ==> method_of(e) == "POST"@ && path_of(e)
            == "/ns/{namespace}/fts-index"@,
        e is CreateScalarIndex ==> method_of(e) == "POST"@ && path_of(e)
            == "/ns/{namespace}/scalar-index"@,
        e is Compact ==> method_of(e) == "POST"@ && path_of(e) == "/ns/{namespace}/compact"@,
{
}

} // verus!
