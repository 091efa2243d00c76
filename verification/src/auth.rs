//! Who may call which route.
//!
//! Two keys guard the service: one for reading and writing, one for
//! destructive operations. A third token guards the metrics. Where a key is
//! absent, so is the check that it stands for.
use vstd::prelude::*;
use crate::error::{self, ApiError, ApiErrorView};
use crate::metrics::{self, CoreMetrics, MetricsView};
use crate::prom;
use crate::text;

verus! {

/// A configured key. Its text is compared, and never shown.
pub struct Secret {
    value: String,
}

impl View for Secret {
    type V = Seq<char>;

    closed spec fn view(&self) -> Seq<char> {
        self.value@
    }
}

impl Clone for Secret {
    fn clone(&self) -> (r: Secret)
        ensures
            r == *self,
    {
        Secret { value: self.value.clone() }
    }
}

impl Secret {
    /// Wraps a key.
    pub fn new(value: &str) -> (r: Secret)
        ensures
            r@ == value@,
    {
        Secret { value: value.to_string() }
    }

    /// Whether a token is this key.
    pub fn matches_token(&self, token: &str) -> (r: bool)
        ensures
            r == (self@ == token@),
    {
        text::same(self.value.as_str(), token)
    }

    /// What stands for the key wherever a configuration is shown.
    pub fn redacted(&self) -> (r: String)
        ensures
            r@ == "Secret(***)"@,
    {
        "Secret(***)".to_string()
    }
}

/// The characters of an optional key.
pub open spec fn key_text(k: Option<Secret>) -> Option<Seq<char>> {
    match k {
        Some(s) => Some(s@),
        None => None,
    }
}

/// A copy of an optional key.
pub fn copy_key(k: &Option<Secret>) -> (r: Option<Secret>)
    ensures
        r == *k,
{
    match k {
        Some(s) => Some(s.clone()),
        None => None,
    }
}

/// The configured keys.
pub struct AuthConfig {
    write_key: Option<Secret>,
    admin_key: Option<Secret>,
    metrics_key: Option<Secret>,
    trust_proxy_headers: bool,
}

/// The configured keys by their texts: write, admin, metrics.
pub struct KeysView {
    pub write: Option<Seq<char>>,
    pub admin: Option<Seq<char>>,
    pub metrics: Option<Seq<char>>,
    pub trust_proxy_headers: bool,
}

impl View for AuthConfig {
    type V = KeysView;

    closed spec fn view(&self) -> KeysView {
        KeysView {
            write: key_text(self.write_key),
            admin: key_text(self.admin_key),
            metrics: key_text(self.metrics_key),
            trust_proxy_headers: self.trust_proxy_headers,
        }
    }
}

/// Whom a request comes from.
#[derive(Debug, Clone, Copy, PartialEq, Eq, Structural)]
pub enum Principal {
    /// No keys are configured, so nobody is asked.
    Anonymous,
    /// The holder of the read/write key.
    Write,
    /// The holder of the admin key, or of the only key.
    Admin,
}

/// Why a request is turned away.
#[derive(Debug, Clone, Copy, PartialEq, Eq, Structural)]
pub enum Rejection {
    /// No `Authorization` header.
    Missing,
    /// A header without a configured key in it.
    Invalid,
    /// A configured key without the scope for the route.
    Forbidden,
}

/// The label under which a rejection is counted.
pub open spec fn rejection_label(r: Rejection) -> Seq<char> {
    match r {
        Rejection::Missing => "missing"@,
        Rejection::Invalid => "invalid"@,
        Rejection::Forbidden => "forbidden"@,
    }
}

/// The error that a rejection is answered with.
pub open spec fn rejection_error(r: Rejection) -> ApiErrorView {
    match r {
        Rejection::Missing | Rejection::Invalid => ApiErrorView::Unauthorized,
        Rejection::Forbidden => ApiErrorView::Forbidden,
    }
}

/// The token of a bearer header, if it is one.
pub open spec fn bearer(header: Seq<char>) -> Option<Seq<char>> {
    if "Bearer "@.is_prefix_of(header) {
        Some(header.skip("Bearer "@.len() as int))
    } else {
        None
    }
}

/// Whether no key guards reading, writing or administration.
pub open spec fn open_to_all(k: KeysView) -> bool {
    k.write is None && k.admin is None
}

/// Whom a token belongs to. The admin key is looked at first; a sole
/// read/write key is a read/write principal here, and is promoted where a
/// route asks for more.
pub open spec fn holder(k: KeysView, token: Seq<char>) -> Option<Principal> {
    if k.admin == Some(token) {
        Some(Principal::Admin)
    } else if k.write == Some(token) {
        Some(Principal::Write)
    } else {
        None
    }
}

/// Whether a request may read and write.
pub open spec fn write_access(k: KeysView, header: Option<Seq<char>>) -> Result<
    Principal,
    Rejection,
> {
    if open_to_all(k) {
        Ok(Principal::Anonymous)
    } else {
        match header {
            None => Err(Rejection::Missing),
            Some(h) => match bearer(h) {
                None => Err(Rejection::Invalid),
                Some(token) => match holder(k, token) {
                    Some(p) => Ok(p),
                    None => Err(Rejection::Invalid),
                },
            },
        }
    }
}

/// Whether a request may administer: like reading and writing, but a
/// read/write key is enough only where it is the only key.
pub open spec fn admin_access(k: KeysView, header: Option<Seq<char>>) -> Result<
    Principal,
    Rejection,
> {
    match write_access(k, header) {
        Ok(Principal::Write) => if k.admin is None {
            Ok(Principal::Admin)
        } else {
            Err(Rejection::Forbidden)
        },
        other => other,
    }
}

/// Whether a request may read the metrics.
pub open spec fn metrics_access(k: KeysView, header: Option<Seq<char>>) -> Result<(), Rejection> {
    match (k.metrics, header) {
        (None, _) => Ok(()),
        (Some(_), None) => Err(Rejection::Missing),
        (Some(key), Some(h)) => if bearer(h) == Some(key) {
            Ok(())
        } else {
            Err(Rejection::Invalid)
        },
    }
}

/// The characters of an optional text.
pub open spec fn str_opt(o: Option<&str>) -> Option<Seq<char>> {
    match o {
        Some(s) => Some(s@),
        None => None,
    }
}

/// The token of a bearer header.
fn bearer_token(header: &str) -> (r: Option<String>)
    ensures
        text::text_opt(r) == bearer(header@),
{
    if text::begins_with(header, "Bearer ") {
        proof {
            reveal_strlit("Bearer ");
            assert("Bearer "@.len() == 7);
        }
        let chars = text::chars_of(header);
        let r = text::string_of(&chars, 7, chars.len());
        assert(r@ =~= header@.skip(7));
        Some(r)
    } else {
        None
    }
}

impl AuthConfig {
    /// No keys at all.
    pub fn disabled() -> (r: AuthConfig)
        ensures
            r@ == (KeysView { write: None, admin: None, metrics: None, trust_proxy_headers: false }),
    {
        AuthConfig {
            write_key: None,
            admin_key: None,
            metrics_key: None,
            trust_proxy_headers: false,
        }
    }

    /// With this read/write key.
    pub fn with_write_key(self, key: Option<Secret>) -> (r: AuthConfig)
        ensures
            r@ == (KeysView { write: key_text(key), ..self@ }),
    {
        AuthConfig { write_key: key, ..self }
    }

    /// With this admin key.
    pub fn with_admin_key(self, key: Option<Secret>) -> (r: AuthConfig)
        ensures
            r@ == (KeysView { admin: key_text(key), ..self@ }),
    {
        AuthConfig { admin_key: key, ..self }
    }

    /// With this metrics token.
    pub fn with_metrics_key(self, key: Option<Secret>) -> (r: AuthConfig)
        ensures
            r@ == (KeysView { metrics: key_text(key), ..self@ }),
    {
        AuthConfig { metrics_key: key, ..self }
    }

    /// With proxy headers trusted or not.
    pub fn with_trust_proxy_headers(self, trust: bool) -> (r: AuthConfig)
        ensures
            r@ == (KeysView { trust_proxy_headers: trust, ..self@ }),
    {
        AuthConfig { trust_proxy_headers: trust, ..self }
    }

    /// Whether no key guards reading, writing or administration.
    pub fn is_open(&self) -> (r: bool)
        ensures
            r == open_to_all(self@),
    {
        self.write_key.is_none() && self.admin_key.is_none()
    }

    /// Whether the read/write key and the admin key are the same text.
    pub fn duplicate_write_and_admin_keys(&self) -> (r: bool)
        ensures
            r == (self@.write is Some && self@.write == self@.admin),
    {
        match (&self.write_key, &self.admin_key) {
            (Some(w), Some(a)) => text::same(w.value.as_str(), a.value.as_str()),
            _ => false,
        }
    }

    /// Whom a token belongs to.
    pub fn principal_for(&self, token: &str) -> (r: Option<Principal>)
        ensures
            r == holder(self@, token@),
    {
        if let Some(k) = &self.admin_key {
            if k.matches_token(token) {
                return Some(Principal::Admin);
            }
        }
        if let Some(k) = &self.write_key {
            if k.matches_token(token) {
                return Some(Principal::Write);
            }
        }
        None
    }

    /// Decides on a request that reads or writes.
    pub fn require_write(&self, header: Option<&str>) -> (r: Result<Principal, Rejection>)
        ensures
            r == write_access(self@, str_opt(header)),
    {
        if self.is_open() {
            return Ok(Principal::Anonymous);
        }
        let h = match header {
            Some(h) => h,
            None => {
                return Err(Rejection::Missing);
            },
        };
        match bearer_token(h) {
            None => Err(Rejection::Invalid),
            Some(token) => match self.principal_for(token.as_str()) {
                Some(p) => Ok(p),
                None => Err(Rejection::Invalid),
            },
        }
    }

    /// Decides on a request that administers.
    pub fn require_admin(&self, header: Option<&str>) -> (r: Result<Principal, Rejection>)
        ensures
            r == admin_access(self@, str_opt(header)),
    {
        match self.require_write(header) {
            Ok(Principal::Write) => if self.admin_key.is_none() {
                Ok(Principal::Admin)
            } else {
                Err(Rejection::Forbidden)
            },
            other => other,
        }
    }

    /// Decides on a request for the metrics.
    pub fn require_metrics_token(&self, header: Option<&str>) -> (r: Result<(), Rejection>)
        ensures
            r == metrics_access(self@, str_opt(header)),
    {
        let key = match &self.metrics_key {
            Some(k) => k,
            None => {
                return Ok(());
            },
        };
        match header {
            None => Err(Rejection::Missing),
            Some(h) => match bearer_token(h) {
                Some(token) => if key.matches_token(token.as_str()) {
                    Ok(())
                } else {
                    Err(Rejection::Invalid)
                },
                None => Err(Rejection::Invalid),
            },
        }
    }
}

impl Default for AuthConfig {
    fn default() -> (r: AuthConfig)
        ensures
            r@ == (KeysView { write: None, admin: None, metrics: None, trust_proxy_headers: false }),
    {
        AuthConfig::disabled()
    }
}

/// Counts a rejection and gives the error that it is answered with.
pub fn reject(rejection: Rejection, metrics: &mut CoreMetrics) -> (r: ApiError)
    requires
        old(metrics).wf(),
    ensures
        r@ == rejection_error(rejection),
        final(metrics).wf(),
        final(metrics)@ == (MetricsView {
            auth_rejections: prom::bumped(
                old(metrics)@.auth_rejections,
                metrics::slot1(rejection_label(rejection)),
            ),
            ..old(metrics)@
        }),
{
    match rejection {
        Rejection::Missing => {
            metrics.record_auth_rejection("missing");
            ApiError::Unauthorized
        },
        Rejection::Invalid => {
            metrics.record_auth_rejection("invalid");
            ApiError::Unauthorized
        },
        Rejection::Forbidden => {
            metrics.record_auth_rejection("forbidden");
            ApiError::Forbidden
        },
    }
}

// ------------------------------------------------------------------ laws
/// Without keys every request is served.
pub proof fn law_open_service_serves_everyone(k: KeysView, header: Option<Seq<char>>)
    requires
        open_to_all(k),
    ensures
        write_access(k, header) is Ok,
        admin_access(k, header) is Ok,
{
}

/// With a key configured, a request without a configured key in its header is
/// never served.
pub proof fn law_guarded_service_needs_a_key(k: KeysView, header: Option<Seq<char>>)
    requires
        !open_to_all(k),
        header matches Some(h) ==> (bearer(h) matches Some(t) ==> k.write != Some(t) && k.admin
            != Some(t)),
    ensures
        write_access(k, header) is Err,
        admin_access(k, header) is Err,
        rejection_error(write_access(k, header)->Err_0) is Unauthorized,
        rejection_error(admin_access(k, header)->Err_0) is Unauthorized,
{
}

/// Where a separate admin key is configured, the read/write key never
/// administers, and the answer is a refusal of scope; where none is, the
/// read/write key does.
pub proof fn law_scope_split(k: KeysView, header: Seq<char>)
    requires
        k.write is Some,
        k.write != k.admin,
        bearer(header) == k.write,
    ensures
        k.admin is Some ==> admin_access(k, Some(header)) == Err::<Principal, Rejection>(
            Rejection::Forbidden,
        ),
        k.admin is None ==> admin_access(k, Some(header)) == Ok::<Principal, Rejection>(
            Principal::Admin,
        ),
        write_access(k, Some(header)) is Ok,
{
}

/// The admin key is enough for every route that the other key opens.
pub proof fn law_admin_key_opens_everything(k: KeysView, header: Seq<char>)
    requires
        k.admin is Some,
        bearer(header) == k.admin,
    ensures
        write_access(k, Some(header)) == Ok::<Principal, Rejection>(Principal::Admin),
        admin_access(k, Some(header)) == Ok::<Principal, Rejection>(Principal::Admin),
{
}

/// Administration is never opened wider than reading and writing.
pub proof fn law_admin_access_implies_write_access(k: KeysView, header: Option<Seq<char>>)
    requires
        admin_access(k, header) is Ok,
    ensures
        write_access(k, header) is Ok,
{
}

/// A bearer header is `Bearer`, one space and the token, and nothing else is one.
pub proof fn law_bearer_headers_carry_their_token(header: Seq<char>, token: Seq<char>)
    ensures
        bearer(header) == Some(token) <==> header == "Bearer "@ + token,
{
    if header == "Bearer "@ + token {
        assert(header.skip("Bearer "@.len() as int) =~= token);
        assert("Bearer "@.is_prefix_of(header));
    }
    if bearer(header) == Some(token) {
        assert(header =~= "Bearer "@ + header.skip("Bearer "@.len() as int));
    }
}

/// Who a request comes from. Without keys it is nobody in particular; else it is the
/// holder of the admin key, or of the read/write key, that its header carries. A
/// missing header and a wrong one are told apart, and every other request is turned
/// away.
pub proof fn law_principals_hold_their_key(k: KeysView, header: Option<Seq<char>>)
    ensures
        write_access(k, header) == Ok::<Principal, Rejection>(Principal::Anonymous) <==> k.write is None
            && k.admin is None,
        write_access(k, header) == Ok::<Principal, Rejection>(Principal::Admin) <==> (k.admin is Some
            && header == Some("Bearer "@ + k.admin->0)),
        write_access(k, header) == Ok::<Principal, Rejection>(Principal::Write) <==> (k.write is Some
            && header == Some("Bearer "@ + k.write->0) && k.admin != k.write),
        write_access(k, header) == Err::<Principal, Rejection>(Rejection::Missing) <==> header is None
            && (k.write is Some || k.admin is Some),
        write_access(k, header) != Err::<Principal, Rejection>(Rejection::Forbidden),
{
    if let Some(h) = header {
        if let Some(a) = k.admin {
            law_bearer_headers_carry_their_token(h, a);
        }
        if let Some(w) = k.write {
            law_bearer_headers_carry_their_token(h, w);
        }
        if let Some(t) = bearer(h) {
            law_bearer_headers_carry_their_token(h, t);
        }
    }
}

/// Administration is open without keys, to the holder of the admin key, and, where
/// there is no admin key, to the holder of the only one.
pub proof fn law_administrators_hold_their_key(k: KeysView, header: Option<Seq<char>>)
    ensures
        admin_access(k, header) is Ok <==> (k.write is None && k.admin is None) || (k.admin is Some
            && header == Some("Bearer "@ + k.admin->0)) || (k.admin is None && k.write is Some
            && header == Some("Bearer "@ + k.write->0)),
        admin_access(k, header) == Err::<Principal, Rejection>(Rejection::Forbidden) <==> (
        k.admin is Some && k.write is Some && k.admin != k.write && header == Some(
            "Bearer "@ + k.write->0,
        )),
{
    law_principals_hold_their_key(k, header);
}

/// The metrics are open where no token guards them, whatever other keys there are;
/// else they are for its holder alone, and a missing header is told from a wrong one.
pub proof fn law_metrics_are_for_the_tokens_holder(k: KeysView, header: Option<Seq<char>>)
    ensures
        k.metrics is None ==> metrics_access(k, header) is Ok,
        k.metrics matches Some(token) ==> (metrics_access(k, header) is Ok <==> header == Some(
            "Bearer "@ + token,
        )),
        k.metrics is Some && header is None ==> metrics_access(k, header) == Err::<(), Rejection>(
            Rejection::Missing,
        ),
        k.metrics is Some && header is Some && metrics_access(k, header) is Err ==> metrics_access(
            k,
            header,
        ) == Err::<(), Rejection>(Rejection::Invalid),
{
    if let (Some(token), Some(h)) = (k.metrics, header) {
        law_bearer_headers_carry_their_token(h, token);
    }
}

/// A request without a good key is asked to authenticate; one with a good key of the
/// wrong scope is forbidden. Each reason is counted under its own label.
pub proof fn law_rejections_are_answered_for_what_they_are(r: Rejection)
    ensures
        rejection_error(r) is Forbidden <==> r is Forbidden,
        rejection_error(r) is Unauthorized <==> r is Missing || r is Invalid,
        r is Missing ==> rejection_label(r) == "missing"@,
        r is Invalid ==> rejection_label(r) == "invalid"@,
        r is Forbidden ==> rejection_label(r) == "forbidden"@,
{
}

} // verus!
