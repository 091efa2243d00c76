//! Configuration from environment variables.
use vstd::prelude::*;
use crate::auth::{self, AuthConfig, KeysView, Secret};
use crate::storage_root::{self, RootView, Scheme, StorageRoot};
use crate::text;

verus! {

/// Names and values, in order.
pub type Pairs = Seq<(Seq<char>, Seq<char>)>;

/// Names and values by their characters.
pub open spec fn pairs(v: Seq<(String, String)>) -> Pairs {
    v.map_values(|p: (String, String)| (p.0@, p.1@))
}

/// Why a configuration is refused: a message, and what it rests on.
#[derive(Debug)]
pub struct ConfigError {
    /// What is wrong.
    pub message: String,
    /// The failure behind it, where there is one.
    pub cause: Option<String>,
}

/// A refusal by its texts.
pub struct FaultView {
    pub message: Seq<char>,
    pub cause: Option<Seq<char>>,
}

impl View for ConfigError {
    type V = FaultView;

    open spec fn view(&self) -> FaultView {
        FaultView { message: self.message@, cause: text::text_opt(self.cause) }
    }
}

/// A refusal that says only this.
pub open spec fn fault(message: Seq<char>) -> FaultView {
    FaultView { message, cause: None }
}

/// A refusal that says only this.
pub fn refuse(message: String) -> (r: ConfigError)
    ensures
        r@ == fault(message@),
{
    ConfigError { message, cause: None }
}

/// Rate limits; a limit that is not given is off.
#[derive(Debug, Clone, Copy, PartialEq, Eq, Structural)]
pub struct RateLimitSettings {
    /// Requests per second of one principal.
    pub per_principal_rps: Option<u64>,
    /// Requests that may come at once.
    pub burst_size: Option<u32>,
    /// Requests per second of one address, before authentication.
    pub preauth_ip_rps: Option<u64>,
    /// Whether the headers of a proxy name the address.
    pub trust_proxy_headers: bool,
}

impl Default for RateLimitSettings {
    fn default() -> (r: RateLimitSettings)
        ensures
            r == (RateLimitSettings {
                per_principal_rps: None,
                burst_size: None,
                preauth_ip_rps: None,
                trust_proxy_headers: false,
            }),
    {
        RateLimitSettings {
            per_principal_rps: None,
            burst_size: None,
            preauth_ip_rps: None,
            trust_proxy_headers: false,
        }
    }
}

/// The configuration of the service. It has no derived debug output: storage
/// options may carry credentials. See [`AppConfig::debug`].
pub struct AppConfig {
    /// Address to listen on.
    pub bind: String,
    /// Where every namespace lives.
    pub storage_root: StorageRoot,
    /// Capacity of the memory tier, in bytes.
    pub cache_memory_bytes: usize,
    /// Directory of the NVMe tier.
    pub cache_nvme_path: String,
    /// Capacity of the NVMe tier, in bytes.
    pub cache_nvme_bytes: usize,
    /// Most bytes of a request body.
    pub max_body_bytes: usize,
    /// Options of the object store, each name once.
    pub storage_options: Vec<(String, String)>,
    /// Key for reading and writing.
    pub api_key: Option<Secret>,
    /// Key for administration.
    pub admin_api_key: Option<Secret>,
    /// Token for the metrics.
    pub metrics_token: Option<Secret>,
    /// Rate limits.
    pub rate_limit: RateLimitSettings,
    /// Whether reads of the object store are cached.
    pub object_cache_enabled: bool,
    /// Directory of the object cache.
    pub object_cache_dir: String,
    /// Capacity of the object cache, in bytes.
    pub object_cache_bytes: u64,
    /// Largest read that the object cache keeps.
    pub object_cache_max_entry_bytes: u64,
    /// Most bytes of an import; 0 is no cap.
    pub import_max_bytes: u64,
    /// Directory in which imports are spooled.
    pub import_tmp_dir: String,
}

/// A configuration by its values.
#[verifier::ext_equal]
pub struct ConfigView {
    pub bind: Seq<char>,
    pub storage_root: RootView,
    pub cache_memory_bytes: nat,
    pub cache_nvme_path: Seq<char>,
    pub cache_nvme_bytes: nat,
    pub max_body_bytes: nat,
    pub storage_options: Pairs,
    pub api_key: Option<Seq<char>>,
    pub admin_api_key: Option<Seq<char>>,
    pub metrics_token: Option<Seq<char>>,
    pub rate_limit: RateLimitSettings,
    pub object_cache_enabled: bool,
    pub object_cache_dir: Seq<char>,
    pub object_cache_bytes: nat,
    pub object_cache_max_entry_bytes: nat,
    pub import_max_bytes: nat,
    pub import_tmp_dir: Seq<char>,
}

impl View for AppConfig {
    type V = ConfigView;

    open spec fn view(&self) -> ConfigView {
        ConfigView {
            bind: self.bind@,
            storage_root: self.storage_root@,
            cache_memory_bytes: self.cache_memory_bytes as nat,
            cache_nvme_path: self.cache_nvme_path@,
            cache_nvme_bytes: self.cache_nvme_bytes as nat,
            max_body_bytes: self.max_body_bytes as nat,
            storage_options: pairs(self.storage_options@),
            api_key: auth::key_text(self.api_key),
            admin_api_key: auth::key_text(self.admin_api_key),
            metrics_token: auth::key_text(self.metrics_token),
            rate_limit: self.rate_limit,
            object_cache_enabled: self.object_cache_enabled,
            object_cache_dir: self.object_cache_dir@,
            object_cache_bytes: self.object_cache_bytes as nat,
            object_cache_max_entry_bytes: self.object_cache_max_entry_bytes as nat,
            import_max_bytes: self.import_max_bytes as nat,
            import_tmp_dir: self.import_tmp_dir@,
        }
    }
}

// ------------------------------------------------------------- variables
/// The value of a variable, if it is set.
pub open spec fn value_of(env: Pairs, key: Seq<char>) -> Option<Seq<char>>
    decreases env.len(),
{
    if env.len() == 0 {
        None
    } else if env[0].0 == key {
        Some(env[0].1)
    } else {
        value_of(env.drop_first(), key)
    }
}

proof fn lemma_value_found(env: Pairs, key: Seq<char>, n: int)
    requires
        0 <= n <= env.len(),
        forall|k: int| 0 <= k < n ==> (#[trigger] env[k]).0 != key,
        n == env.len() || env[n].0 == key,
    ensures
        value_of(env, key) == (if n == env.len() {
            None
        } else {
            Some(env[n].1)
        }),
    decreases env.len(),
{
    if env.len() > 0 && env[0].0 != key {
        lemma_value_found(env.drop_first(), key, n - 1);
    }
}

/// The value of a variable, if it is set.
pub fn env_value(env: &Vec<(String, String)>, key: &str) -> (r: Option<String>)
    ensures
        text::text_opt(r) == value_of(pairs(env@), key@),
{
    let mut n: usize = 0;
    while n < env.len()
        invariant
            n <= env@.len(),
            forall|k: int| 0 <= k < n ==> (#[trigger] pairs(env@)[k]).0 != key@,
        decreases env@.len() - n,
    {
        if text::same(env[n].0.as_str(), key) {
            proof {
                lemma_value_found(pairs(env@), key@, n as int);
            }
            return Some(env[n].1.clone());
        }
        n = n + 1;
    }
    proof {
        lemma_value_found(pairs(env@), key@, n as int);
    }
    None
}

/// The value of a variable, or a default where it is not set.
pub open spec fn value_or(env: Pairs, key: Seq<char>, default: Seq<char>) -> Seq<char> {
    match value_of(env, key) {
        Some(v) => v,
        None => default,
    }
}

/// The value of a variable, or a default where it is not set.
pub fn env_or(env: &Vec<(String, String)>, key: &str, default: &str) -> (r: String)
    ensures
        r@ == value_or(pairs(env@), key@, default@),
{
    match env_value(env, key) {
        Some(v) => v,
        None => default.to_string(),
    }
}

/// The number that a text writes; the message of one that writes none is the
/// name of its variable.
pub open spec fn number_in(key: Seq<char>, v: Seq<char>, max: nat) -> Result<nat, FaultView> {
    match text::parsed(v, max) {
        Some(n) => Ok(n),
        None => Err(FaultView { message: key, cause: Some(text::number_complaint(v, max)) }),
    }
}

/// The number that a variable holds, or its default.
pub open spec fn number(env: Pairs, key: Seq<char>, default: Seq<char>, max: nat) -> Result<
    nat,
    FaultView,
> {
    number_in(key, value_or(env, key, default), max)
}

/// The number that a text writes.
pub fn parse_number(key: &str, v: &str, max: u64) -> (r: Result<u64, ConfigError>)
    ensures
        match r {
            Ok(n) => n <= max && number_in(key@, v@, max as nat) == Ok::<nat, FaultView>(n as nat),
            Err(e) => number_in(key@, v@, max as nat) == Err::<nat, FaultView>(e@),
        },
{
    match text::parse_unsigned(v, max) {
        Some(n) => Ok(n),
        None => Err(
            ConfigError { message: key.to_string(), cause: Some(text::number_fault(v, max)) },
        ),
    }
}

/// The number that a variable holds, or its default.
pub fn env_number(env: &Vec<(String, String)>, key: &str, default: &str, max: u64) -> (r: Result<
    u64,
    ConfigError,
>)
    ensures
        match r {
            Ok(n) => n <= max && number(pairs(env@), key@, default@, max as nat) == Ok::<
                nat,
                FaultView,
            >(n as nat),
            Err(e) => number(pairs(env@), key@, default@, max as nat) == Err::<nat, FaultView>(e@),
        },
{
    parse_number(key, env_or(env, key, default).as_str(), max)
}

/// The key that a variable holds; an empty value is none.
pub open spec fn secret_of(env: Pairs, key: Seq<char>) -> Option<Seq<char>> {
    match value_of(env, key) {
        Some(v) if v.len() > 0 => Some(v),
        _ => None,
    }
}

/// A value that is set and not empty.
fn filled(env: &Vec<(String, String)>, key: &str) -> (r: Option<String>)
    ensures
        text::text_opt(r) == secret_of(pairs(env@), key@),
{
    match env_value(env, key) {
        Some(v) => if text::chars_of(v.as_str()).len() > 0 {
            Some(v)
        } else {
            None
        },
        None => None,
    }
}

/// The key that a variable holds; an empty value is none.
pub fn optional_secret(env: &Vec<(String, String)>, key: &str) -> (r: Option<Secret>)
    ensures
        auth::key_text(r) == secret_of(pairs(env@), key@),
{
    match filled(env, key) {
        Some(v) => Some(Secret::new(v.as_str())),
        None => None,
    }
}

/// The number that a variable holds, if it is set and not empty.
pub open spec fn optional_number(env: Pairs, key: Seq<char>, max: nat) -> Result<
    Option<nat>,
    FaultView,
> {
    match secret_of(env, key) {
        Some(v) => match number_in(key, v, max) {
            Ok(n) => Ok(Some(n)),
            Err(e) => Err(e),
        },
        None => Ok(None),
    }
}

/// The number that a variable holds, if it is set and not empty.
pub fn optional_u64(env: &Vec<(String, String)>, key: &str) -> (r: Result<
    Option<u64>,
    ConfigError,
>)
    ensures
        match r {
            Ok(n) => optional_number(pairs(env@), key@, u64::MAX as nat) == Ok::<
                Option<nat>,
                FaultView,
            >(
                match n {
                    Some(n) => Some(n as nat),
                    None => None,
                },
            ),
            Err(e) => optional_number(pairs(env@), key@, u64::MAX as nat) == Err::<
                Option<nat>,
                FaultView,
            >(e@),
        },
{
    match filled(env, key) {
        Some(v) => match parse_number(key, v.as_str(), u64::MAX) {
            Ok(n) => Ok(Some(n)),
            Err(e) => Err(e),
        },
        None => Ok(None),
    }
}

/// The number that a variable holds, if it is set and not empty.
pub fn optional_u32(env: &Vec<(String, String)>, key: &str) -> (r: Result<
    Option<u32>,
    ConfigError,
>)
    ensures
        match r {
            Ok(n) => optional_number(pairs(env@), key@, u32::MAX as nat) == Ok::<
                Option<nat>,
                FaultView,
            >(
                match n {
                    Some(n) => Some(n as nat),
                    None => None,
                },
            ),
            Err(e) => optional_number(pairs(env@), key@, u32::MAX as nat) == Err::<
                Option<nat>,
                FaultView,
            >(e@),
        },
{
    match filled(env, key) {
        Some(v) => match parse_number(key, v.as_str(), u32::MAX as u64) {
            Ok(n) => Ok(Some(n as u32)),
            Err(e) => Err(e),
        },
        None => Ok(None),
    }
}

/// What a word says of a switch, in any case of letters; nothing says off.
pub open spec fn switch(word: Seq<char>) -> Option<bool> {
    let w = text::lowered(word);
    if w == "1"@ || w == "true"@ || w == "yes"@ || w == "on"@ {
        Some(true)
    } else if w == "0"@ || w == "false"@ || w == "no"@ || w == "off"@ || w == ""@ {
        Some(false)
    } else {
        None
    }
}

/// The switch that a variable holds, or its default where it is not set.
pub open spec fn flag(env: Pairs, key: Seq<char>, default: bool) -> Result<bool, FaultView> {
    match value_of(env, key) {
        Some(v) => match switch(v) {
            Some(b) => Ok(b),
            None => Err(
                fault(
                    key + " must be one of: true, false, 1, 0, yes, no, on, off — got "@
                        + text::debug_text(text::lowered(v)),
                ),
            ),
        },
        None => Ok(default),
    }
}

/// The switch that a variable holds, or its default where it is not set.
pub fn env_bool(env: &Vec<(String, String)>, key: &str, default: bool) -> (r: Result<
    bool,
    ConfigError,
>)
    ensures
        match r {
            Ok(b) => flag(pairs(env@), key@, default) == Ok::<bool, FaultView>(b),
            Err(e) => flag(pairs(env@), key@, default) == Err::<bool, FaultView>(e@),
        },
{
    match env_value(env, key) {
        Some(v) => {
            let w = text::lower(v.as_str());
            let w = w.as_str();
            if text::same(w, "1") || text::same(w, "true") || text::same(w, "yes") || text::same(
                w,
                "on",
            ) {
                Ok(true)
            } else if text::same(w, "0") || text::same(w, "false") || text::same(w, "no")
                || text::same(w, "off") || text::same(w, "") {
                Ok(false)
            } else {
                Err(
                    refuse(
                        text::cat3(
                            key,
                            " must be one of: true, false, 1, 0, yes, no, on, off — got ",
                            text::quoted(w).as_str(),
                        ),
                    ),
                )
            }
        },
        None => Ok(default),
    }
}

// ---------------------------------------------------------- storage root
/// A storage root, and whether only the bucket variable named it.
#[derive(Debug)]
pub struct ResolvedStorageRoot {
    /// The root.
    pub root: StorageRoot,
    /// Whether a hint at the preferred variable is due.
    pub fallback_logged: bool,
}

/// A text, unless nothing is left of it once it is trimmed.
pub open spec fn given(raw: Option<Seq<char>>) -> Option<Seq<char>> {
    match raw {
        Some(v) if text::trimmed(v).len() > 0 => Some(text::trimmed(v)),
        _ => None,
    }
}

/// The root that a URI names, or why it names none.
pub open spec fn uri_root(uri: Seq<char>) -> Result<RootView, FaultView> {
    match storage_root::parse_root(uri) {
        Some(root) => Ok(root),
        None => Err(
            FaultView {
                message: "FIRNFLOW_STORAGE_URI ("@ + text::debug_text(uri)
                    + ") failed to parse as a storage URI"@,
                cause: Some(
                    "invalid request: "@ + ("invalid storage URI "@ + text::debug_text(uri)),
                ),
            },
        ),
    }
}

/// The root that a bucket names, or why it names none.
pub open spec fn bucket_root(bucket: Seq<char>) -> Result<RootView, FaultView> {
    if storage_root::is_bucket(bucket) {
        Ok((Scheme::S3, bucket, None))
    } else {
        Err(
            FaultView {
                message: "FIRNFLOW_S3_BUCKET ("@ + text::debug_text(bucket)
                    + ") is not a valid bucket name"@,
                cause: Some(
                    "invalid request: "@ + ("invalid bucket name "@ + text::debug_text(bucket)),
                ),
            },
        )
    }
}

/// Why a URI and a bucket that name different roots are refused.
pub open spec fn disagreement(
    uri: Seq<char>,
    from_uri: RootView,
    bucket: Seq<char>,
    from_bucket: RootView,
) -> FaultView {
    fault(
        "FIRNFLOW_STORAGE_URI and FIRNFLOW_S3_BUCKET disagree. FIRNFLOW_STORAGE_URI="@
            + text::debug_text(uri) + " parses as "@ + storage_root::root_text(from_uri)
            + ", but FIRNFLOW_S3_BUCKET="@ + text::debug_text(bucket) + " parses as "@
            + storage_root::root_text(from_bucket)
            + ". Set only one, or set both to consistent values."@,
    )
}

/// The root that the two variables name together, and whether only the bucket
/// named it. The URI is preferred; the two must agree where both are given.
pub open spec fn resolved(uri: Option<Seq<char>>, bucket: Option<Seq<char>>) -> Result<
    (RootView, bool),
    FaultView,
> {
    match (given(uri), given(bucket)) {
        (None, None) => Err(
            fault(
                "set FIRNFLOW_STORAGE_URI=s3://bucket or FIRNFLOW_STORAGE_URI=gs://bucket, or the legacy FIRNFLOW_S3_BUCKET=bucket"@,
            ),
        ),
        (Some(u), None) => match uri_root(u) {
            Ok(root) => Ok((root, false)),
            Err(e) => Err(e),
        },
        (None, Some(b)) => match bucket_root(b) {
            Ok(root) => Ok((root, true)),
            Err(e) => Err(e),
        },
        (Some(u), Some(b)) => match (uri_root(u), bucket_root(b)) {
            (Err(e), _) => Err(e),
            (Ok(_), Err(e)) => Err(e),
            (Ok(x), Ok(y)) => if x == y {
                Ok((x, false))
            } else {
                Err(disagreement(u, x, b, y))
            },
        },
    }
}

fn trim_given(raw: Option<&str>) -> (r: Option<String>)
    ensures
        text::text_opt(r) == given(auth::str_opt(raw)),
{
    match raw {
        Some(v) => {
            let t = text::trim(v);
            if text::chars_of(t.as_str()).len() > 0 {
                Some(t)
            } else {
                None
            }
        },
        None => None,
    }
}

/// The value of a variable, trimmed, unless nothing is left of it.
pub fn given_value(env: &Vec<(String, String)>, key: &str) -> (r: Option<String>)
    ensures
        text::text_opt(r) == given(value_of(pairs(env@), key@)),
{
    let v = env_value(env, key);
    trim_given(as_str_opt(&v))
}

fn root_from_uri(uri: &str) -> (r: Result<StorageRoot, ConfigError>)
    ensures
        match r {
            Ok(root) => uri_root(uri@) == Ok::<RootView, FaultView>(root@),
            Err(e) => uri_root(uri@) == Err::<RootView, FaultView>(e@),
        },
{
    match StorageRoot::parse(uri) {
        Ok(root) => Ok(root),
        Err(e) => Err(
            ConfigError {
                message: text::cat3(
                    "FIRNFLOW_STORAGE_URI (",
                    text::quoted(uri).as_str(),
                    ") failed to parse as a storage URI",
                ),
                cause: Some(e.message()),
            },
        ),
    }
}

fn root_from_bucket(bucket: &str) -> (r: Result<StorageRoot, ConfigError>)
    ensures
        match r {
            Ok(root) => bucket_root(bucket@) == Ok::<RootView, FaultView>(root@),
            Err(e) => bucket_root(bucket@) == Err::<RootView, FaultView>(e@),
        },
{
    match StorageRoot::s3_bucket(bucket) {
        Ok(root) => Ok(root),
        Err(e) => Err(
            ConfigError {
                message: text::cat3(
                    "FIRNFLOW_S3_BUCKET (",
                    text::quoted(bucket).as_str(),
                    ") is not a valid bucket name",
                ),
                cause: Some(e.message()),
            },
        ),
    }
}

/// The storage root that the two variables name together.
pub fn resolve_storage_root(uri: Option<&str>, bucket: Option<&str>) -> (r: Result<
    ResolvedStorageRoot,
    ConfigError,
>)
    ensures
        match r {
            Ok(o) => resolved(auth::str_opt(uri), auth::str_opt(bucket)) == Ok::<
                (RootView, bool),
                FaultView,
            >((o.root@, o.fallback_logged)),
            Err(e) => resolved(auth::str_opt(uri), auth::str_opt(bucket)) == Err::<
                (RootView, bool),
                FaultView,
            >(e@),
        },
{
    let uri = trim_given(uri);
    let bucket = trim_given(bucket);
    match (&uri, &bucket) {
        (None, None) => Err(
            refuse(
                "set FIRNFLOW_STORAGE_URI=s3://bucket or FIRNFLOW_STORAGE_URI=gs://bucket, or the legacy FIRNFLOW_S3_BUCKET=bucket".to_string(),
            ),
        ),
        (Some(u), None) => match root_from_uri(u.as_str()) {
            Ok(root) => Ok(ResolvedStorageRoot { root, fallback_logged: false }),
            Err(e) => Err(e),
        },
        (None, Some(b)) => match root_from_bucket(b.as_str()) {
            Ok(root) => Ok(ResolvedStorageRoot { root, fallback_logged: true }),
            Err(e) => Err(e),
        },
        (Some(u), Some(b)) => {
            let from_uri = match root_from_uri(u.as_str()) {
                Ok(root) => root,
                Err(e) => {
                    return Err(e);
                },
            };
            let from_bucket = match root_from_bucket(b.as_str()) {
                Ok(root) => root,
                Err(e) => {
                    return Err(e);
                },
            };
            if from_uri.same_place(&from_bucket) {
                Ok(ResolvedStorageRoot { root: from_uri, fallback_logged: false })
            } else {
                Err(
                    refuse(
                        text::cat9(
                            "FIRNFLOW_STORAGE_URI and FIRNFLOW_S3_BUCKET disagree. FIRNFLOW_STORAGE_URI=",
                            text::quoted(u.as_str()).as_str(),
                            " parses as ",
                            from_uri.to_uri().as_str(),
                            ", but FIRNFLOW_S3_BUCKET=",
                            text::quoted(b.as_str()).as_str(),
                            " parses as ",
                            from_bucket.to_uri().as_str(),
                            ". Set only one, or set both to consistent values.",
                        ),
                    ),
                )
            }
        },
    }
}

/// The root that an environment names.
pub open spec fn env_root(env: Pairs) -> Result<(RootView, bool), FaultView> {
    resolved(value_of(env, "FIRNFLOW_STORAGE_URI"@), value_of(env, "FIRNFLOW_S3_BUCKET"@))
}

fn as_str_opt(o: &Option<String>) -> (r: Option<&str>)
    ensures
        auth::str_opt(r) == text::text_opt(*o),
{
    match o {
        Some(s) => Some(s.as_str()),
        None => None,
    }
}

/// The storage root that an environment names.
pub fn resolve_storage_root_from_env(env: &Vec<(String, String)>) -> (r: Result<
    ResolvedStorageRoot,
    ConfigError,
>)
    ensures
        match r {
            Ok(o) => env_root(pairs(env@)) == Ok::<(RootView, bool), FaultView>(
                (o.root@, o.fallback_logged),
            ),
            Err(e) => env_root(pairs(env@)) == Err::<(RootView, bool), FaultView>(e@),
        },
{
    let uri = env_value(env, "FIRNFLOW_STORAGE_URI");
    let bucket = env_value(env, "FIRNFLOW_S3_BUCKET");
    resolve_storage_root(as_str_opt(&uri), as_str_opt(&bucket))
}

// --------------------------------------------------------------- options
/// One option, if its value is given.
pub open spec fn option_if(name: Seq<char>, value: Option<Seq<char>>) -> Pairs {
    match value {
        Some(v) => seq![(name, v)],
        None => Seq::empty(),
    }
}

/// The options of an S3 client. An endpoint of its own means an S3 emulator:
/// plain HTTP, and the bucket in the path.
pub open spec fn s3_options(env: Pairs) -> Pairs {
    (match value_of(env, "FIRNFLOW_S3_ENDPOINT"@) {
        Some(v) => seq![
            ("aws_endpoint"@, v),
            ("allow_http"@, "true"@),
            ("aws_virtual_hosted_style_request"@, "false"@),
        ],
        None => Seq::empty(),
    }) + option_if("aws_access_key_id"@, value_of(env, "FIRNFLOW_S3_ACCESS_KEY"@)) + option_if(
        "aws_secret_access_key"@,
        value_of(env, "FIRNFLOW_S3_SECRET_KEY"@),
    ) + seq![("aws_region"@, value_or(env, "FIRNFLOW_S3_REGION"@, "us-east-1"@))]
}

/// The options of a GCS client: what the standard variables hold, trimmed;
/// one that holds nothing gives no option.
pub open spec fn gcs_options(env: Pairs) -> Pairs {
    option_if(
        "google_application_credentials"@,
        given(value_of(env, "GOOGLE_APPLICATION_CREDENTIALS"@)),
    ) + option_if(
        "google_service_account_path"@,
        given(value_of(env, "GOOGLE_SERVICE_ACCOUNT_PATH"@)),
    ) + option_if(
        "google_service_account_key"@,
        given(value_of(env, "GOOGLE_SERVICE_ACCOUNT_KEY"@)),
    )
}

/// The options of the object store, by scheme. A local directory needs none.
pub open spec fn options_for(scheme: Scheme, env: Pairs) -> Pairs {
    match scheme {
        Scheme::S3 => s3_options(env),
        Scheme::Gcs => gcs_options(env),
        Scheme::Local => Seq::empty(),
    }
}

fn add_option(opts: &mut Vec<(String, String)>, name: &str, value: Option<String>)
    ensures
        pairs(final(opts)@) == pairs(old(opts)@) + option_if(name@, text::text_opt(value)),
{
    if let Some(v) = value {
        opts.push((name.to_string(), v));
    }
    assert(pairs(opts@) =~= pairs(old(opts)@) + option_if(name@, text::text_opt(value)));
}

/// The options of an S3 client.
pub fn build_s3_storage_options(env: &Vec<(String, String)>) -> (r: Vec<(String, String)>)
    ensures
        pairs(r@) == s3_options(pairs(env@)),
{
    let mut opts: Vec<(String, String)> = Vec::new();
    let endpoint = env_value(env, "FIRNFLOW_S3_ENDPOINT");
    let custom = endpoint.is_some();
    add_option(&mut opts, "aws_endpoint", endpoint);
    if custom {
        add_option(&mut opts, "allow_http", Some("true".to_string()));
        add_option(&mut opts, "aws_virtual_hosted_style_request", Some("false".to_string()));
    }
    let ghost head = pairs(opts@);
    add_option(&mut opts, "aws_access_key_id", env_value(env, "FIRNFLOW_S3_ACCESS_KEY"));
    add_option(&mut opts, "aws_secret_access_key", env_value(env, "FIRNFLOW_S3_SECRET_KEY"));
    add_option(&mut opts, "aws_region", Some(env_or(env, "FIRNFLOW_S3_REGION", "us-east-1")));
    proof {
        let start: Pairs = match value_of(pairs(env@), "FIRNFLOW_S3_ENDPOINT"@) {
            Some(v) => seq![
                ("aws_endpoint"@, v),
                ("allow_http"@, "true"@),
                ("aws_virtual_hosted_style_request"@, "false"@),
            ],
            None => Seq::empty(),
        };
        assert(head =~= start);
        assert(pairs(opts@) =~= s3_options(pairs(env@)));
    }
    opts
}

/// The options of a GCS client.
pub fn build_gcs_storage_options(env: &Vec<(String, String)>) -> (r: Vec<(String, String)>)
    ensures
        pairs(r@) == gcs_options(pairs(env@)),
{
    let mut opts: Vec<(String, String)> = Vec::new();
    let credentials = env_value(env, "GOOGLE_APPLICATION_CREDENTIALS");
    add_option(&mut opts, "google_application_credentials", trim_given(as_str_opt(&credentials)));
    let path = env_value(env, "GOOGLE_SERVICE_ACCOUNT_PATH");
    add_option(&mut opts, "google_service_account_path", trim_given(as_str_opt(&path)));
    let key = env_value(env, "GOOGLE_SERVICE_ACCOUNT_KEY");
    add_option(&mut opts, "google_service_account_key", trim_given(as_str_opt(&key)));
    assert(pairs(opts@) =~= gcs_options(pairs(env@)));
    opts
}

/// The options of the object store, by scheme.
pub fn build_storage_options_for(scheme: Scheme, env: &Vec<(String, String)>) -> (r: Vec<
    (String, String),
>)
    ensures
        pairs(r@) == options_for(scheme, pairs(env@)),
{
    match scheme {
        Scheme::S3 => build_s3_storage_options(env),
        Scheme::Gcs => build_gcs_storage_options(env),
        Scheme::Local => {
            let opts: Vec<(String, String)> = Vec::new();
            assert(pairs(opts@) =~= Seq::empty());
            opts
        },
    }
}

// --------------------------------------------------------------- loading
/// The rate limits that an environment asks for.
pub open spec fn env_limits(env: Pairs) -> RateLimitSettings {
    RateLimitSettings {
        per_principal_rps: match optional_number(
            env,
            "FIRNFLOW_RATE_LIMIT_RPS"@,
            u64::MAX as nat,
        ) {
            Ok(Some(n)) => Some(n as u64),
            _ => None,
        },
        burst_size: match optional_number(env, "FIRNFLOW_RATE_LIMIT_BURST"@, u32::MAX as nat) {
            Ok(Some(n)) => Some(n as u32),
            _ => None,
        },
        preauth_ip_rps: match optional_number(
            env,
            "FIRNFLOW_PREAUTH_IP_LIMIT_RPS"@,
            u64::MAX as nat,
        ) {
            Ok(Some(n)) => Some(n as u64),
            _ => None,
        },
        trust_proxy_headers: flag(env, "FIRNFLOW_TRUST_PROXY_HEADERS"@, false)->Ok_0,
    }
}

/// The first fault of an environment, if it has any: the address, the storage
/// root, the sizes, the object cache, the import, then the rate limits.
pub open spec fn env_fault(env: Pairs, bind: Result<String, String>) -> Option<FaultView> {
    let size = usize::MAX as nat;
    let long = u64::MAX as nat;
    let memory = number(env, "FIRNFLOW_CACHE_MEMORY_BYTES"@, "67108864"@, size);
    let nvme = number(env, "FIRNFLOW_CACHE_NVME_BYTES"@, "268435456"@, size);
    let body = number(env, "FIRNFLOW_MAX_BODY_BYTES"@, "16777216"@, size);
    let cached = flag(env, "FIRNFLOW_OBJECT_CACHE_ENABLED"@, false);
    let objects = number(env, "FIRNFLOW_OBJECT_CACHE_BYTES"@, "10737418240"@, long);
    let entry = number(env, "FIRNFLOW_OBJECT_CACHE_MAX_ENTRY_BYTES"@, "268435456"@, long);
    let import = number(env, "FIRNFLOW_IMPORT_MAX_BYTES"@, "0"@, long);
    let proxy = flag(env, "FIRNFLOW_TRUST_PROXY_HEADERS"@, false);
    let rps = optional_number(env, "FIRNFLOW_RATE_LIMIT_RPS"@, long);
    let preauth = optional_number(env, "FIRNFLOW_PREAUTH_IP_LIMIT_RPS"@, long);
    let burst = optional_number(env, "FIRNFLOW_RATE_LIMIT_BURST"@, u32::MAX as nat);
    if bind is Err {
        Some(FaultView { message: "FIRNFLOW_BIND"@, cause: Some(bind->Err_0@) })
    } else if env_root(env) is Err {
        Some(env_root(env)->Err_0)
    } else if memory is Err {
        Some(memory->Err_0)
    } else if nvme is Err {
        Some(nvme->Err_0)
    } else if body is Err {
        Some(body->Err_0)
    } else if cached is Err {
        Some(cached->Err_0)
    } else if objects is Err {
        Some(objects->Err_0)
    } else if entry is Err {
        Some(entry->Err_0)
    } else if import is Err {
        Some(import->Err_0)
    } else if proxy is Err {
        Some(proxy->Err_0)
    } else if rps is Err {
        Some(rps->Err_0)
    } else if preauth is Err {
        Some(preauth->Err_0)
    } else if burst is Err {
        Some(burst->Err_0)
    } else {
        None
    }
}

/// The configuration that an environment without a fault describes, with the
/// address that was read from it.
pub open spec fn env_config(env: Pairs, bind: Seq<char>) -> ConfigView {
    let size = usize::MAX as nat;
    let long = u64::MAX as nat;
    ConfigView {
        bind,
        storage_root: env_root(env)->Ok_0.0,
        cache_memory_bytes: number(env, "FIRNFLOW_CACHE_MEMORY_BYTES"@, "67108864"@, size)->Ok_0,
        cache_nvme_path: value_or(env, "FIRNFLOW_CACHE_NVME_PATH"@, "/tmp/firnflow-cache"@),
        cache_nvme_bytes: number(env, "FIRNFLOW_CACHE_NVME_BYTES"@, "268435456"@, size)->Ok_0,
        max_body_bytes: number(env, "FIRNFLOW_MAX_BODY_BYTES"@, "16777216"@, size)->Ok_0,
        storage_options: options_for(env_root(env)->Ok_0.0.0, env),
        api_key: secret_of(env, "FIRNFLOW_API_KEY"@),
        admin_api_key: secret_of(env, "FIRNFLOW_ADMIN_API_KEY"@),
        metrics_token: secret_of(env, "FIRNFLOW_METRICS_TOKEN"@),
        rate_limit: env_limits(env),
        object_cache_enabled: flag(env, "FIRNFLOW_OBJECT_CACHE_ENABLED"@, false)->Ok_0,
        object_cache_dir: value_or(
            env,
            "FIRNFLOW_OBJECT_CACHE_DIR"@,
            "/tmp/firnflow-object-cache"@,
        ),
        object_cache_bytes: number(
            env,
            "FIRNFLOW_OBJECT_CACHE_BYTES"@,
            "10737418240"@,
            long,
        )->Ok_0,
        object_cache_max_entry_bytes: number(
            env,
            "FIRNFLOW_OBJECT_CACHE_MAX_ENTRY_BYTES"@,
            "268435456"@,
            long,
        )->Ok_0,
        import_max_bytes: number(env, "FIRNFLOW_IMPORT_MAX_BYTES"@, "0"@, long)->Ok_0,
        import_tmp_dir: value_or(env, "FIRNFLOW_IMPORT_TMP_DIR"@, "/tmp"@),
    }
}

/// The address that an environment asks to listen on.
pub fn bind_setting(env: &Vec<(String, String)>) -> (r: String)
    ensures
        r@ == value_or(pairs(env@), "FIRNFLOW_BIND"@, "0.0.0.0:3000"@),
{
    env_or(env, "FIRNFLOW_BIND", "0.0.0.0:3000")
}

/// Loads the rate limits.
fn limits_from_env(env: &Vec<(String, String)>) -> (r: Result<RateLimitSettings, ConfigError>)
    ensures
        ({
            let e = pairs(env@);
            let proxy = flag(e, "FIRNFLOW_TRUST_PROXY_HEADERS"@, false);
            let rps = optional_number(e, "FIRNFLOW_RATE_LIMIT_RPS"@, u64::MAX as nat);
            let preauth = optional_number(e, "FIRNFLOW_PREAUTH_IP_LIMIT_RPS"@, u64::MAX as nat);
            let burst = optional_number(e, "FIRNFLOW_RATE_LIMIT_BURST"@, u32::MAX as nat);
            match r {
                Ok(l) => proxy is Ok && rps is Ok && preauth is Ok && burst is Ok && l
                    == env_limits(e),
                Err(x) => if proxy is Err {
                    x@ == proxy->Err_0
                } else if rps is Err {
                    x@ == rps->Err_0
                } else if preauth is Err {
                    x@ == preauth->Err_0
                } else {
                    burst is Err && x@ == burst->Err_0
                },
            }
        }),
{
    let trust_proxy_headers = match env_bool(env, "FIRNFLOW_TRUST_PROXY_HEADERS", false) {
        Ok(b) => b,
        Err(e) => {
            return Err(e);
        },
    };
    let per_principal_rps = match optional_u64(env, "FIRNFLOW_RATE_LIMIT_RPS") {
        Ok(n) => n,
        Err(e) => {
            return Err(e);
        },
    };
    let preauth_ip_rps = match optional_u64(env, "FIRNFLOW_PREAUTH_IP_LIMIT_RPS") {
        Ok(n) => n,
        Err(e) => {
            return Err(e);
        },
    };
    let burst_size = match optional_u32(env, "FIRNFLOW_RATE_LIMIT_BURST") {
        Ok(n) => n,
        Err(e) => {
            return Err(e);
        },
    };
    Ok(RateLimitSettings { per_principal_rps, burst_size, preauth_ip_rps, trust_proxy_headers })
}

impl AppConfig {
    /// Loads the configuration from an environment. A storage root is needed;
    /// everything else has a default. The address comes as [`bind_setting`] was
    /// read, or with what is wrong with it.
    pub fn from_env(env: &Vec<(String, String)>, bind: Result<String, String>) -> (r: Result<
        AppConfig,
        ConfigError,
    >)
        ensures
            match r {
                Ok(c) => env_fault(pairs(env@), bind) is None && c@ == env_config(
                    pairs(env@),
                    bind->Ok_0@,
                ),
                Err(e) => env_fault(pairs(env@), bind) == Some(e@),
            },
    {
        let bind = match bind {
            Ok(b) => b,
            Err(m) => {
                return Err(ConfigError { message: "FIRNFLOW_BIND".to_string(), cause: Some(m) });
            },
        };
        let storage_root = match resolve_storage_root_from_env(env) {
            Ok(o) => o.root,
            Err(e) => {
                return Err(e);
            },
        };
        let size: u64 = usize::MAX as u64;
        let memory = match env_number(env, "FIRNFLOW_CACHE_MEMORY_BYTES", "67108864", size) {
            Ok(n) => n,
            Err(e) => {
                return Err(e);
            },
        };
        let nvme = match env_number(env, "FIRNFLOW_CACHE_NVME_BYTES", "268435456", size) {
            Ok(n) => n,
            Err(e) => {
                return Err(e);
            },
        };
        let body = match env_number(env, "FIRNFLOW_MAX_BODY_BYTES", "16777216", size) {
            Ok(n) => n,
            Err(e) => {
                return Err(e);
            },
        };
        let object_cache_enabled = match env_bool(env, "FIRNFLOW_OBJECT_CACHE_ENABLED", false) {
            Ok(b) => b,
            Err(e) => {
                return Err(e);
            },
        };
        let object_cache_bytes = match env_number(
            env,
            "FIRNFLOW_OBJECT_CACHE_BYTES",
            "10737418240",
            u64::MAX,
        ) {
            Ok(n) => n,
            Err(e) => {
                return Err(e);
            },
        };
        let object_cache_max_entry_bytes = match env_number(
            env,
            "FIRNFLOW_OBJECT_CACHE_MAX_ENTRY_BYTES",
            "268435456",
            u64::MAX,
        ) {
            Ok(n) => n,
            Err(e) => {
                return Err(e);
            },
        };
        let import_max_bytes = match env_number(env, "FIRNFLOW_IMPORT_MAX_BYTES", "0", u64::MAX) {
            Ok(n) => n,
            Err(e) => {
                return Err(e);
            },
        };
        let rate_limit = match limits_from_env(env) {
            Ok(l) => l,
            Err(e) => {
                return Err(e);
            },
        };
        let storage_options = build_storage_options_for(storage_root.scheme(), env);
        Ok(
            AppConfig {
                bind,
                storage_root,
                cache_memory_bytes: memory as usize,
                cache_nvme_path: env_or(env, "FIRNFLOW_CACHE_NVME_PATH", "/tmp/firnflow-cache"),
                cache_nvme_bytes: nvme as usize,
                max_body_bytes: body as usize,
                storage_options,
                api_key: optional_secret(env, "FIRNFLOW_API_KEY"),
                admin_api_key: optional_secret(env, "FIRNFLOW_ADMIN_API_KEY"),
                metrics_token: optional_secret(env, "FIRNFLOW_METRICS_TOKEN"),
                rate_limit,
                object_cache_enabled,
                object_cache_dir: env_or(
                    env,
                    "FIRNFLOW_OBJECT_CACHE_DIR",
                    "/tmp/firnflow-object-cache",
                ),
                object_cache_bytes,
                object_cache_max_entry_bytes,
                import_max_bytes,
                import_tmp_dir: env_or(env, "FIRNFLOW_IMPORT_TMP_DIR", "/tmp"),
            },
        )
    }
}

// ------------------------------------------------------------- redaction
/// Whether an option holds a credential: its name, in lower case, holds one of
/// these words.
pub open spec fn is_sensitive(key: Seq<char>) -> bool {
    let k = text::lowered(key);
    text::occurs(k, "secret"@) || text::occurs(k, "password"@) || text::occurs(k, "token"@)
        || text::occurs(k, "access_key"@) || text::occurs(k, "credential"@) || text::occurs(
        k,
        "service_account_key"@,
    )
}

/// Whether an option holds a credential. The path of a credential file is none.
pub fn is_sensitive_storage_key(key: &str) -> (r: bool)
    ensures
        r == is_sensitive(key@),
{
    let k = text::lower_chars(key);
    text::contains(&k, "secret") || text::contains(&k, "password") || text::contains(&k, "token")
        || text::contains(&k, "access_key") || text::contains(&k, "credential") || text::contains(
        &k,
        "service_account_key",
    )
}

/// An option as it is shown: a credential by three stars.
pub open spec fn shown_option(o: (Seq<char>, Seq<char>)) -> Seq<char> {
    text::debug_text(o.0) + ": "@ + text::debug_text(
        if is_sensitive(o.0) {
            "***"@
        } else {
            o.1
        },
    )
}

/// Options as they are shown, with commas between them.
pub open spec fn shown_options(opts: Pairs) -> Seq<char>
    decreases opts.len(),
{
    if opts.len() == 0 {
        Seq::empty()
    } else if opts.len() == 1 {
        shown_option(opts[0])
    } else {
        shown_options(opts.drop_last()) + ", "@ + shown_option(opts.last())
    }
}

fn options_text(opts: &Vec<(String, String)>) -> (r: String)
    ensures
        r@ == shown_options(pairs(opts@)),
{
    let mut r = String::new();
    let mut i: usize = 0;
    while i < opts.len()
        invariant
            i <= opts@.len(),
            r@ == shown_options(pairs(opts@).take(i as int)),
        decreases opts@.len() - i,
    {
        proof {
            let next = pairs(opts@).take(i + 1);
            assert(next.drop_last() =~= pairs(opts@).take(i as int));
            assert(next.last() == (opts@[i as int].0@, opts@[i as int].1@));
        }
        if i > 0 {
            r.append(", ");
        }
        let value: &str = if is_sensitive_storage_key(opts[i].0.as_str()) {
            "***"
        } else {
            opts[i].1.as_str()
        };
        let entry = text::cat3(
            text::quoted(opts[i].0.as_str()).as_str(),
            ": ",
            text::quoted(value).as_str(),
        );
        let ghost before = r@;
        r.append(entry.as_str());
        proof {
            if i == 0 {
                assert(before + entry@ =~= entry@);
            }
        }
        i = i + 1;
    }
    assert(pairs(opts@).take(opts@.len() as int) =~= pairs(opts@));
    r
}

/// Whether a key is set, as it is shown.
pub open spec fn shown_key(key: Option<Seq<char>>) -> Seq<char> {
    if key is Some {
        "Some(Secret(***))"@
    } else {
        "None"@
    }
}

fn key_shown(key: &Option<Secret>) -> (r: &'static str)
    ensures
        r@ == shown_key(auth::key_text(*key)),
{
    if key.is_some() {
        "Some(Secret(***))"
    } else {
        "None"
    }
}

/// An optional number as it is shown.
pub open spec fn shown_number(n: Option<nat>) -> Seq<char> {
    match n {
        Some(n) => "Some("@ + text::dec(n) + ")"@,
        None => "None"@,
    }
}

fn number_text(n: Option<u64>) -> (r: String)
    ensures
        r@ == shown_number(
            match n {
                Some(n) => Some(n as nat),
                None => None,
            },
        ),
{
    match n {
        Some(n) => text::cat3("Some(", text::dec_text(n).as_str(), ")"),
        None => "None".to_string(),
    }
}

/// Rate limits as they are shown.
pub open spec fn shown_limits(l: RateLimitSettings) -> Seq<char> {
    "RateLimitSettings { per_principal_rps: "@ + shown_number(
        match l.per_principal_rps {
            Some(n) => Some(n as nat),
            None => None,
        },
    ) + ", burst_size: "@ + shown_number(
        match l.burst_size {
            Some(n) => Some(n as nat),
            None => None,
        },
    ) + ", preauth_ip_rps: "@ + shown_number(
        match l.preauth_ip_rps {
            Some(n) => Some(n as nat),
            None => None,
        },
    ) + ", trust_proxy_headers: "@ + (if l.trust_proxy_headers {
        "true"@
    } else {
        "false"@
    }) + " }"@
}

fn limits_text(l: &RateLimitSettings) -> (r: String)
    ensures
        r@ == shown_limits(*l),
{
    let burst: Option<u64> = match l.burst_size {
        Some(n) => Some(n as u64),
        None => None,
    };
    let proxy: &'static str = if l.trust_proxy_headers {
        "true"
    } else {
        "false"
    };
    text::cat9(
        "RateLimitSettings { per_principal_rps: ",
        number_text(l.per_principal_rps).as_str(),
        ", burst_size: ",
        number_text(burst).as_str(),
        ", preauth_ip_rps: ",
        number_text(l.preauth_ip_rps).as_str(),
        ", trust_proxy_headers: ",
        proxy,
        " }",
    )
}

/// A configuration as it is shown: without its keys, and without the values of
/// options that hold credentials.
pub open spec fn shown(c: ConfigView) -> Seq<char> {
    "AppConfig { bind: "@ + c.bind + ", storage_root: "@ + storage_root::root_text(c.storage_root)
        + ", cache_memory_bytes: "@ + text::dec(c.cache_memory_bytes) + ", cache_nvme_path: "@
        + text::debug_text(c.cache_nvme_path) + ", cache_nvme_bytes: "@ + text::dec(
        c.cache_nvme_bytes,
    ) + ", max_body_bytes: "@ + text::dec(c.max_body_bytes) + ", storage_options: {"@
        + shown_options(c.storage_options) + "}, api_key: "@ + shown_key(c.api_key)
        + ", admin_api_key: "@ + shown_key(c.admin_api_key) + ", metrics_token: "@ + shown_key(
        c.metrics_token,
    ) + ", rate_limit: "@ + shown_limits(c.rate_limit) + " }"@
}

impl AppConfig {
    /// The configuration for a log, without its secrets.
    pub fn debug(&self) -> (r: String)
        ensures
            r@ == shown(self@),
    {
        let mut r = text::cat9(
            "AppConfig { bind: ",
            self.bind.as_str(),
            ", storage_root: ",
            self.storage_root.to_uri().as_str(),
            ", cache_memory_bytes: ",
            text::dec_text(self.cache_memory_bytes as u64).as_str(),
            ", cache_nvme_path: ",
            text::quoted(self.cache_nvme_path.as_str()).as_str(),
            ", cache_nvme_bytes: ",
        );
        r.append(text::dec_text(self.cache_nvme_bytes as u64).as_str());
        r.append(", max_body_bytes: ");
        r.append(text::dec_text(self.max_body_bytes as u64).as_str());
        r.append(", storage_options: {");
        r.append(options_text(&self.storage_options).as_str());
        r.append("}, api_key: ");
        r.append(key_shown(&self.api_key));
        r.append(", admin_api_key: ");
        r.append(key_shown(&self.admin_api_key));
        r.append(", metrics_token: ");
        r.append(key_shown(&self.metrics_token));
        r.append(", rate_limit: ");
        r.append(limits_text(&self.rate_limit).as_str());
        r.append(" }");
        r
    }
}

// ------------------------------------------------------------------ keys
/// The keys of a configuration.
pub open spec fn keys_of(c: ConfigView) -> KeysView {
    KeysView {
        write: c.api_key,
        admin: c.admin_api_key,
        metrics: c.metrics_token,
        trust_proxy_headers: c.rate_limit.trust_proxy_headers,
    }
}

/// Why a configuration with one key for both scopes is refused.
pub open spec fn same_keys_fault() -> FaultView {
    fault(
        "FIRNFLOW_API_KEY and FIRNFLOW_ADMIN_API_KEY are configured to the same value; the scope split would silently collapse and every authenticated request would be treated as admin. Either set FIRNFLOW_ADMIN_API_KEY to a distinct value, or unset it to use the documented single-key fallback."@,
    )
}

/// The keys of a configuration. One text for both scopes is refused: every
/// request would count as administration.
pub fn build_auth_config(cfg: &AppConfig) -> (r: Result<AuthConfig, ConfigError>)
    ensures
        match r {
            Ok(a) => a@ == keys_of(cfg@) && (cfg@.api_key is None || cfg@.api_key
                != cfg@.admin_api_key),
            Err(e) => cfg@.api_key is Some && cfg@.api_key == cfg@.admin_api_key && e@
                == same_keys_fault(),
        },
{
    let keys = AuthConfig::default().with_write_key(auth::copy_key(&cfg.api_key)).with_admin_key(
        auth::copy_key(&cfg.admin_api_key),
    ).with_metrics_key(auth::copy_key(&cfg.metrics_token)).with_trust_proxy_headers(
        cfg.rate_limit.trust_proxy_headers,
    );
    if keys.duplicate_write_and_admin_keys() {
        return Err(
            refuse(
                "FIRNFLOW_API_KEY and FIRNFLOW_ADMIN_API_KEY are configured to the same value; the scope split would silently collapse and every authenticated request would be treated as admin. Either set FIRNFLOW_ADMIN_API_KEY to a distinct value, or unset it to use the documented single-key fallback.".to_string(),
            ),
        );
    }
    Ok(keys)
}

// ------------------------------------------------------------------ laws
/// Whether two lists of options differ at most in credentials.
pub open spec fn alike_but_for_credentials(a: Pairs, b: Pairs) -> bool {
    a.len() == b.len() && forall|i: int|
        0 <= i < a.len() ==> (#[trigger] a[i]).0 == b[i].0 && (is_sensitive(a[i].0) || a[i].1
            == b[i].1)
}

/// Options that differ in credentials alone are shown alike.
pub proof fn law_shown_options_hide_credentials(a: Pairs, b: Pairs)
    requires
        alike_but_for_credentials(a, b),
    ensures
        shown_options(a) == shown_options(b),
    decreases a.len(),
{
    if a.len() > 0 {
        let n = a.len() - 1;
        assert(a[n].0 == b[n].0);
        assert(a[0].0 == b[0].0);
        assert forall|i: int| 0 <= i < a.drop_last().len() implies (
        #[trigger] a.drop_last()[i]).0 == b.drop_last()[i].0 && (is_sensitive(a.drop_last()[i].0)
            || a.drop_last()[i].1 == b.drop_last()[i].1) by {
            assert(a[i].0 == b[i].0);
        }
        law_shown_options_hide_credentials(a.drop_last(), b.drop_last());
    }
}

/// What is shown of a configuration tells nothing of its keys but whether they
/// are set, and nothing of the credentials in its options.
pub proof fn law_shown_config_hides_secrets(a: ConfigView, b: ConfigView)
    requires
        alike_but_for_credentials(a.storage_options, b.storage_options),
        a.api_key is Some <==> b.api_key is Some,
        a.admin_api_key is Some <==> b.admin_api_key is Some,
        a.metrics_token is Some <==> b.metrics_token is Some,
        b == (ConfigView {
            storage_options: b.storage_options,
            api_key: b.api_key,
            admin_api_key: b.admin_api_key,
            metrics_token: b.metrics_token,
            ..a
        }),
    ensures
        shown(a) == shown(b),
{
    law_shown_options_hide_credentials(a.storage_options, b.storage_options);
}

/// A URI given alone is parsed, a bucket given alone is an S3 bucket, and the
/// two together are accepted exactly where they name one place.
pub proof fn law_storage_root_precedence(uri: Seq<char>, bucket: Seq<char>)
    requires
        given(Some(uri)) == Some(uri),
        given(Some(bucket)) == Some(bucket),
        uri_root(uri) is Ok,
        bucket_root(bucket) is Ok,
    ensures
        resolved(Some(uri), None) == Ok::<(RootView, bool), FaultView>(
            (uri_root(uri)->Ok_0, false),
        ),
        resolved(None, Some(bucket)) == Ok::<(RootView, bool), FaultView>(
            (bucket_root(bucket)->Ok_0, true),
        ),
        resolved(Some(uri), Some(bucket)) is Ok <==> uri_root(uri) == bucket_root(bucket),
        resolved(Some(uri), Some(bucket)) is Ok ==> resolved(Some(uri), Some(bucket)) == resolved(
            Some(uri),
            None,
        ),
{
}

/// `s3://` and a bucket agree with the bucket alone.
pub proof fn law_uri_and_bucket_of_one_name_agree(bucket: Seq<char>)
    requires
        storage_root::is_bucket(bucket),
        given(Some(bucket)) == Some(bucket),
        given(Some("s3://"@ + bucket)) == Some("s3://"@ + bucket),
    ensures
        resolved(Some("s3://"@ + bucket), Some(bucket)) == Ok::<(RootView, bool), FaultView>(
            ((Scheme::S3, bucket, None), false),
        ),
{
    storage_root::law_bucket_and_uri_agree(bucket);
}

/// Keys that a configuration is accepted with keep the scopes apart.
pub proof fn law_accepted_keys_keep_scopes_apart(c: ConfigView, token: Seq<char>)
    requires
        c.api_key == Some(token),
        c.admin_api_key is Some,
        c.admin_api_key != c.api_key,
    ensures
        auth::admin_access(keys_of(c), Some("Bearer "@ + token)) is Err,
{
    assert(("Bearer "@ + token).skip("Bearer "@.len() as int) =~= token);
    assert("Bearer "@.is_prefix_of("Bearer "@ + token));
}

/// The value of a variable is that of its first entry; without one it is not set.
pub proof fn law_first_entries_count(env: Pairs, key: Seq<char>)
    ensures
        match value_of(env, key) {
            Some(v) => exists|i: int|
                0 <= i < env.len() && #[trigger] env[i] == (key, v) && forall|j: int|
                    0 <= j < i ==> (#[trigger] env[j]).0 != key,
            None => forall|i: int| 0 <= i < env.len() ==> (#[trigger] env[i]).0 != key,
        },
    decreases env.len(),
{
    if env.len() > 0 {
        if env[0].0 == key {
            assert(env[0] == (key, env[0].1));
        } else {
            let rest = env.drop_first();
            law_first_entries_count(rest, key);
            match value_of(rest, key) {
                Some(v) => {
                    let i = choose|i: int|
                        0 <= i < rest.len() && #[trigger] rest[i] == (key, v) && forall|j: int|
                            0 <= j < i ==> (#[trigger] rest[j]).0 != key;
                    assert(env[i + 1] == (key, v));
                    assert forall|j: int| 0 <= j < i + 1 implies (#[trigger] env[j]).0 != key by {
                        if j > 0 {
                            assert(rest[j - 1] == env[j]);
                        }
                    }
                },
                None => {
                    assert forall|i: int| 0 <= i < env.len() implies (#[trigger] env[i]).0
                        != key by {
                        if i > 0 {
                            assert(rest[i - 1] == env[i]);
                        }
                    }
                },
            }
        }
    }
}

proof fn lemma_default_sizes(max: nat)
    requires
        max >= 0xffff_ffff,
    ensures
        text::parsed("67108864"@, max) == Some(67_108_864nat),
        text::parsed("268435456"@, max) == Some(268_435_456nat),
        text::parsed("16777216"@, max) == Some(16_777_216nat),
        text::parsed("0"@, max) == Some(0nat),
{
    reveal_strlit("67108864");
    reveal_strlit("268435456");
    reveal_strlit("16777216");
    reveal_strlit("0");
    assert("67108864"@ =~= text::dec(67_108_864)) by {
        reveal_with_fuel(text::dec, 12);
    }
    assert("268435456"@ =~= text::dec(268_435_456)) by {
        reveal_with_fuel(text::dec, 12);
    }
    assert("16777216"@ =~= text::dec(16_777_216)) by {
        reveal_with_fuel(text::dec, 12);
    }
    assert("0"@ =~= text::dec(0));
    text::law_numerals_read_back(67_108_864, max);
    text::law_numerals_read_back(268_435_456, max);
    text::law_numerals_read_back(16_777_216, max);
    text::law_numerals_read_back(0, max);
}

proof fn lemma_default_object_cache()
    ensures
        text::parsed("10737418240"@, u64::MAX as nat) == Some(10_737_418_240nat),
{
    reveal_strlit("10737418240");
    assert("10737418240"@ =~= text::dec(10_737_418_240)) by {
        reveal_with_fuel(text::dec, 13);
    }
    text::law_numerals_read_back(10_737_418_240, u64::MAX as nat);
}

/// What a numeric setting comes to: the number that its variable writes, or, where
/// the variable is not set, the default.
pub open spec fn comes_to(env: Pairs, key: Seq<char>, default: nat, max: nat, n: nat) -> bool {
    &&& value_of(env, key) matches Some(v) ==> text::parsed(v, max) == Some(n)
    &&& value_of(env, key) is None ==> n == default
}

/// Every size in a loaded configuration comes from the variable of its name, or is
/// its default: 64 MiB of memory, 256 MiB of NVMe, bodies up to 16 MiB, an object
/// cache of 10 GiB with entries up to 256 MiB, and imports without a cap.
pub proof fn law_sizes_come_from_their_variables(env: Pairs, bind: Result<String, String>)
    requires
        env_fault(env, bind) is None,
    ensures
        ({
            let c = env_config(env, bind->Ok_0@);
            let size = usize::MAX as nat;
            let long = u64::MAX as nat;
            &&& comes_to(
                env,
                "FIRNFLOW_CACHE_MEMORY_BYTES"@,
                67_108_864,
                size,
                c.cache_memory_bytes,
            )
            &&& comes_to(
                env,
                "FIRNFLOW_CACHE_NVME_BYTES"@,
                268_435_456,
                size,
                c.cache_nvme_bytes,
            )
            &&& comes_to(env, "FIRNFLOW_MAX_BODY_BYTES"@, 16_777_216, size, c.max_body_bytes)
            &&& comes_to(
                env,
                "FIRNFLOW_OBJECT_CACHE_BYTES"@,
                10_737_418_240,
                long,
                c.object_cache_bytes,
            )
            &&& comes_to(
                env,
                "FIRNFLOW_OBJECT_CACHE_MAX_ENTRY_BYTES"@,
                268_435_456,
                long,
                c.object_cache_max_entry_bytes,
            )
            &&& comes_to(env, "FIRNFLOW_IMPORT_MAX_BYTES"@, 0, long, c.import_max_bytes)
        }),
{
    lemma_default_sizes(usize::MAX as nat);
    lemma_default_sizes(u64::MAX as nat);
    lemma_default_object_cache();
}

/// Every directory, key and address in a loaded configuration comes from the variable
/// of its name. Directories have defaults; a key that is not set, or empty, is none.
pub proof fn law_texts_come_from_their_variables(env: Pairs, bind: Seq<char>)
    ensures
        ({
            let c = env_config(env, bind);
            &&& c.bind == bind
            &&& value_of(env, "FIRNFLOW_CACHE_NVME_PATH"@) matches Some(v) ==> c.cache_nvme_path
                == v
            &&& value_of(env, "FIRNFLOW_CACHE_NVME_PATH"@) is None ==> c.cache_nvme_path
                == "/tmp/firnflow-cache"@
            &&& value_of(env, "FIRNFLOW_OBJECT_CACHE_DIR"@) matches Some(v) ==> c.object_cache_dir
                == v
            &&& value_of(env, "FIRNFLOW_OBJECT_CACHE_DIR"@) is None ==> c.object_cache_dir
                == "/tmp/firnflow-object-cache"@
            &&& value_of(env, "FIRNFLOW_IMPORT_TMP_DIR"@) matches Some(v) ==> c.import_tmp_dir == v
            &&& value_of(env, "FIRNFLOW_IMPORT_TMP_DIR"@) is None ==> c.import_tmp_dir == "/tmp"@
            &&& c.api_key is Some <==> (value_of(env, "FIRNFLOW_API_KEY"@) matches Some(v)
                && v.len() > 0)
            &&& c.api_key is Some ==> c.api_key == value_of(env, "FIRNFLOW_API_KEY"@)
            &&& c.admin_api_key is Some <==> (value_of(env, "FIRNFLOW_ADMIN_API_KEY"@) matches Some(
                v,
            ) && v.len() > 0)
            &&& c.admin_api_key is Some ==> c.admin_api_key == value_of(
                env,
                "FIRNFLOW_ADMIN_API_KEY"@,
            )
            &&& c.metrics_token is Some <==> (value_of(env, "FIRNFLOW_METRICS_TOKEN"@) matches Some(
                v,
            ) && v.len() > 0)
            &&& c.metrics_token is Some ==> c.metrics_token == value_of(
                env,
                "FIRNFLOW_METRICS_TOKEN"@,
            )
        }),
{
}

/// The storage root of a loaded configuration is the one that its two variables name,
/// and its options are those of that root's scheme.
pub proof fn law_storage_comes_from_its_variables(env: Pairs, bind: Result<String, String>)
    requires
        env_fault(env, bind) is None,
    ensures
        resolved(
            value_of(env, "FIRNFLOW_STORAGE_URI"@),
            value_of(env, "FIRNFLOW_S3_BUCKET"@),
        ) matches Ok(found) && env_config(env, bind->Ok_0@).storage_root == found.0,
        ({
            let c = env_config(env, bind->Ok_0@);
            &&& c.storage_root.0 is S3 ==> c.storage_options == s3_options(env)
            &&& c.storage_root.0 is Gcs ==> c.storage_options == gcs_options(env)
            &&& c.storage_root.0 is Local ==> c.storage_options.len() == 0
        }),
{
}

/// Every rate limit comes from the variable of its name, and is off where that is not
/// set or empty; the headers of a proxy are trusted only where that is switched on, and
/// reads of the object store are cached only where that is.
pub proof fn law_limits_come_from_their_variables(env: Pairs, bind: Result<String, String>)
    requires
        env_fault(env, bind) is None,
    ensures
        ({
            let c = env_config(env, bind->Ok_0@);
            let rps = value_of(env, "FIRNFLOW_RATE_LIMIT_RPS"@);
            let burst = value_of(env, "FIRNFLOW_RATE_LIMIT_BURST"@);
            let preauth = value_of(env, "FIRNFLOW_PREAUTH_IP_LIMIT_RPS"@);
            let proxy = value_of(env, "FIRNFLOW_TRUST_PROXY_HEADERS"@);
            let cached = value_of(env, "FIRNFLOW_OBJECT_CACHE_ENABLED"@);
            &&& c.rate_limit.per_principal_rps matches Some(n) ==> rps is Some && text::parsed(
                rps->0,
                u64::MAX as nat,
            ) == Some(n as nat)
            &&& c.rate_limit.per_principal_rps is None <==> (rps is None || rps->0.len() == 0)
            &&& c.rate_limit.burst_size matches Some(n) ==> burst is Some && text::parsed(
                burst->0,
                u32::MAX as nat,
            ) == Some(n as nat)
            &&& c.rate_limit.burst_size is None <==> (burst is None || burst->0.len() == 0)
            &&& c.rate_limit.preauth_ip_rps matches Some(n) ==> preauth is Some && text::parsed(
                preauth->0,
                u64::MAX as nat,
            ) == Some(n as nat)
            &&& c.rate_limit.preauth_ip_rps is None <==> (preauth is None || preauth->0.len() == 0)
            &&& c.rate_limit.trust_proxy_headers <==> (proxy is Some && switch(proxy->0) == Some(
                true,
            ))
            &&& c.object_cache_enabled <==> (cached is Some && switch(cached->0) == Some(true))
        }),
{
}

/// A switch is on for `1`, `true`, `yes` and `on`, off for `0`, `false`, `no`, `off`
/// and nothing at all, in any case of letters; any other word says neither.
pub proof fn law_switches_are_words(word: Seq<char>)
    ensures
        switch(word) == Some(true) <==> (text::lowered(word) == "1"@ || text::lowered(word)
            == "true"@ || text::lowered(word) == "yes"@ || text::lowered(word) == "on"@),
        switch(word) == Some(false) <==> (text::lowered(word) == "0"@ || text::lowered(word)
            == "false"@ || text::lowered(word) == "no"@ || text::lowered(word) == "off"@
            || word.len() == 0),
{
    reveal_strlit("1");
    reveal_strlit("true");
    reveal_strlit("yes");
    reveal_strlit("on");
    reveal_strlit("0");
    reveal_strlit("false");
    reveal_strlit("no");
    reveal_strlit("off");
    reveal_strlit("");
    assert("1"@.len() == 1 && "1"@[0] == '1' && "0"@.len() == 1 && "0"@[0] == '0');
    assert("true"@.len() == 4 && "false"@.len() == 5);
    assert("yes"@.len() == 3 && "yes"@[0] == 'y' && "off"@.len() == 3 && "off"@[0] == 'o');
    assert("on"@.len() == 2 && "on"@[0] == 'o' && "no"@.len() == 2 && "no"@[0] == 'n');
    assert(text::lowered(word).len() == word.len());
    if word.len() == 0 {
        assert(text::lowered(word) =~= ""@);
    }
}

/// What a variable gives to an S3 client under which name: the endpoint, with plain HTTP
/// and the bucket in the path, the two halves of the key, and a region, which is
/// `us-east-1` where none is given. Nothing is there twice and nothing else is there.
pub proof fn law_s3_options_come_from_their_variables(env: Pairs, name: Seq<char>)
    ensures
        value_of(s3_options(env), "aws_endpoint"@) == value_of(env, "FIRNFLOW_S3_ENDPOINT"@),
        value_of(s3_options(env), "aws_access_key_id"@) == value_of(
            env,
            "FIRNFLOW_S3_ACCESS_KEY"@,
        ),
        value_of(s3_options(env), "aws_secret_access_key"@) == value_of(
            env,
            "FIRNFLOW_S3_SECRET_KEY"@,
        ),
        value_of(env, "FIRNFLOW_S3_REGION"@) matches Some(v) ==> value_of(
            s3_options(env),
            "aws_region"@,
        ) == Some(v),
        value_of(env, "FIRNFLOW_S3_REGION"@) is None ==> value_of(s3_options(env), "aws_region"@)
            == Some("us-east-1"@),
        value_of(env, "FIRNFLOW_S3_ENDPOINT"@) is Some ==> value_of(s3_options(env), "allow_http"@)
            == Some("true"@) && value_of(s3_options(env), "aws_virtual_hosted_style_request"@)
            == Some("false"@),
        value_of(env, "FIRNFLOW_S3_ENDPOINT"@) is None ==> value_of(
            s3_options(env),
            "allow_http"@,
        ) is None && value_of(s3_options(env), "aws_virtual_hosted_style_request"@) is None,
        name != "aws_endpoint"@ && name != "aws_access_key_id"@ && name != "aws_secret_access_key"@
            && name != "aws_region"@ && name != "allow_http"@ && name
            != "aws_virtual_hosted_style_request"@ ==> value_of(s3_options(env), name) is None,
{
    reveal_strlit("aws_endpoint");
    reveal_strlit("allow_http");
    reveal_strlit("aws_virtual_hosted_style_request");
    reveal_strlit("aws_access_key_id");
    reveal_strlit("aws_secret_access_key");
    reveal_strlit("aws_region");
    assert("aws_endpoint"@.len() == 12 && "allow_http"@.len() == 10
        && "aws_virtual_hosted_style_request"@.len() == 32 && "aws_access_key_id"@.len() == 17
        && "aws_secret_access_key"@.len() == 21 && "aws_region"@.len() == 10);
    assert("allow_http"@[1] == 'l' && "aws_region"@[1] == 'w');
    let head: Pairs = match value_of(env, "FIRNFLOW_S3_ENDPOINT"@) {
        Some(v) => seq![
            ("aws_endpoint"@, v),
            ("allow_http"@, "true"@),
            ("aws_virtual_hosted_style_request"@, "false"@),
        ],
        None => Seq::empty(),
    };
    let id = option_if("aws_access_key_id"@, value_of(env, "FIRNFLOW_S3_ACCESS_KEY"@));
    let secret = option_if("aws_secret_access_key"@, value_of(env, "FIRNFLOW_S3_SECRET_KEY"@));
    let region = seq![("aws_region"@, value_or(env, "FIRNFLOW_S3_REGION"@, "us-east-1"@))];
    let keys = seq![
        "aws_endpoint"@,
        "allow_http"@,
        "aws_virtual_hosted_style_request"@,
        "aws_access_key_id"@,
        "aws_secret_access_key"@,
        "aws_region"@,
        name,
    ];
    assert forall|k: int| 0 <= k < 7 implies value_of(s3_options(env), #[trigger] keys[k]) == (
    match value_of(head, keys[k]) {
        Some(v) => Some(v),
        None => match value_of(id, keys[k]) {
            Some(v) => Some(v),
            None => match value_of(secret, keys[k]) {
                Some(v) => Some(v),
                None => value_of(region, keys[k]),
            },
        },
    }) by {
        lemma_value_of_add(head, id, keys[k]);
        lemma_value_of_add(head + id, secret, keys[k]);
        lemma_value_of_add(head + id + secret, region, keys[k]);
    }
    reveal_with_fuel(value_of, 5);
    assert(keys[0] == "aws_endpoint"@ && keys[1] == "allow_http"@ && keys[2]
        == "aws_virtual_hosted_style_request"@ && keys[3] == "aws_access_key_id"@ && keys[4]
        == "aws_secret_access_key"@ && keys[5] == "aws_region"@ && keys[6] == name);
    if value_of(env, "FIRNFLOW_S3_ENDPOINT"@) is Some {
        assert(head.drop_first()[0] == head[1]);
        assert(head.drop_first().drop_first()[0] == head[2]);
    }
}

proof fn lemma_value_of_add(a: Pairs, b: Pairs, key: Seq<char>)
    ensures
        value_of(a + b, key) == (match value_of(a, key) {
            Some(v) => Some(v),
            None => value_of(b, key),
        }),
    decreases a.len(),
{
    if a.len() == 0 {
        assert(a + b =~= b);
    } else {
        assert((a + b)[0] == a[0]);
        assert((a + b).drop_first() =~= a.drop_first() + b);
        lemma_value_of_add(a.drop_first(), b, key);
    }
}

/// What a variable gives to a GCS client under which name, trimmed, and nothing where
/// it holds nothing.
pub proof fn law_gcs_options_come_from_their_variables(env: Pairs, name: Seq<char>)
    ensures
        value_of(gcs_options(env), "google_application_credentials"@) == given(
            value_of(env, "GOOGLE_APPLICATION_CREDENTIALS"@),
        ),
        value_of(gcs_options(env), "google_service_account_path"@) == given(
            value_of(env, "GOOGLE_SERVICE_ACCOUNT_PATH"@),
        ),
        value_of(gcs_options(env), "google_service_account_key"@) == given(
            value_of(env, "GOOGLE_SERVICE_ACCOUNT_KEY"@),
        ),
        name != "google_application_credentials"@ && name != "google_service_account_path"@ && name
            != "google_service_account_key"@ ==> value_of(gcs_options(env), name) is None,
{
    reveal_strlit("google_application_credentials");
    reveal_strlit("google_service_account_path");
    reveal_strlit("google_service_account_key");
    assert("google_application_credentials"@.len() == 30 && "google_service_account_path"@.len()
        == 27 && "google_service_account_key"@.len() == 26);
    let a = option_if(
        "google_application_credentials"@,
        given(value_of(env, "GOOGLE_APPLICATION_CREDENTIALS"@)),
    );
    let b = option_if(
        "google_service_account_path"@,
        given(value_of(env, "GOOGLE_SERVICE_ACCOUNT_PATH"@)),
    );
    let c = option_if(
        "google_service_account_key"@,
        given(value_of(env, "GOOGLE_SERVICE_ACCOUNT_KEY"@)),
    );
    let keys = seq![
        "google_application_credentials"@,
        "google_service_account_path"@,
        "google_service_account_key"@,
        name,
    ];
    assert forall|k: int| 0 <= k < 4 implies value_of(gcs_options(env), #[trigger] keys[k]) == (
    match value_of(a, keys[k]) {
        Some(v) => Some(v),
        None => match value_of(b, keys[k]) {
            Some(v) => Some(v),
            None => value_of(c, keys[k]),
        },
    }) by {
        lemma_value_of_add(a, b, keys[k]);
        lemma_value_of_add(a + b, c, keys[k]);
    }
    assert(keys[0] == "google_application_credentials"@ && keys[1] == "google_service_account_path"@
        && keys[2] == "google_service_account_key"@ && keys[3] == name);
    reveal_with_fuel(value_of, 3);
}

/// A given text is the trimmed one, unless nothing is left of it.
pub proof fn law_given_texts_are_trimmed(raw: Option<Seq<char>>)
    ensures
        given(raw) matches Some(t) ==> raw is Some && t == text::trimmed(raw->0) && t.len() > 0,
        given(raw) is None <==> raw is None || text::trimmed(raw->0).len() == 0,
{
}

/// The keys of a configuration are each for its own scope.
pub proof fn law_keys_are_for_their_scope(c: ConfigView)
    ensures
        keys_of(c).write == c.api_key,
        keys_of(c).admin == c.admin_api_key,
        keys_of(c).metrics == c.metrics_token,
        keys_of(c).trust_proxy_headers == c.rate_limit.trust_proxy_headers,
{
}

/// An option is taken for a credential exactly where its name, in any case of letters,
/// holds one of the words that credentials are named with. What is shown of such an
/// option does not depend on its value; of any other, the value is shown.
pub proof fn law_credentials_are_known_by_name(key: Seq<char>, a: Seq<char>, b: Seq<char>)
    ensures
        is_sensitive(key) <==> (text::occurs(text::lowered(key), "secret"@) || text::occurs(
            text::lowered(key),
            "password"@,
        ) || text::occurs(text::lowered(key), "token"@) || text::occurs(
            text::lowered(key),
            "access_key"@,
        ) || text::occurs(text::lowered(key), "credential"@) || text::occurs(
            text::lowered(key),
            "service_account_key"@,
        )),
        is_sensitive(key) ==> shown_option((key, a)) == shown_option((key, b)),
        !is_sensitive(key) ==> shown_option((key, a)) == text::debug_text(key) + ": "@
            + text::debug_text(a),
{
}
/// A variable that holds no number is refused under its own name, with what is
/// wrong as the cause; a variable that holds no switch in a message that begins
/// with its name.
pub proof fn law_refused_values_name_their_variable(env: Pairs, key: Seq<char>, default: Seq<char>)
    ensures
        number(env, key, default, u64::MAX as nat) matches Err(e) ==> e.message == key && e.cause
            == Some(
            text::number_complaint(value_or(env, key, default), u64::MAX as nat),
        ),
        optional_number(env, key, u64::MAX as nat) matches Err(e) ==> e.message == key && e.cause
            == Some(text::number_complaint(value_of(env, key)->0, u64::MAX as nat)),
        flag(env, key, true) matches Err(e) ==> key.is_prefix_of(e.message) && e.cause is None
            && text::debug_text(text::lowered(value_of(env, key)->0)).is_suffix_of(e.message),
{
    if let Err(e) = flag(env, key, true) {
        let shown = text::debug_text(text::lowered(value_of(env, key)->0));
        assert(key =~= e.message.subrange(0, key.len() as int));
        assert(shown =~= e.message.subrange(
            e.message.len() - shown.len(),
            e.message.len() as int,
        ));
    }
}
/// A configuration is seen whole, and so is a refusal.
pub proof fn law_configurations_are_seen_whole(c: AppConfig, e: ConfigError)
    ensures
        c@.bind == c.bind@,
        c@.storage_root == c.storage_root@,
        c@.cache_memory_bytes == c.cache_memory_bytes,
        c@.cache_nvme_path == c.cache_nvme_path@,
        c@.cache_nvme_bytes == c.cache_nvme_bytes,
        c@.max_body_bytes == c.max_body_bytes,
        c@.storage_options == pairs(c.storage_options@),
        c.api_key matches Some(k) ==> c@.api_key == Some(k@),
        c.api_key is None ==> c@.api_key is None,
        c.admin_api_key matches Some(k) ==> c@.admin_api_key == Some(k@),
        c.admin_api_key is None ==> c@.admin_api_key is None,
        c.metrics_token matches Some(k) ==> c@.metrics_token == Some(k@),
        c.metrics_token is None ==> c@.metrics_token is None,
        c@.rate_limit == c.rate_limit,
        c@.object_cache_enabled == c.object_cache_enabled,
        c@.object_cache_dir == c.object_cache_dir@,
        c@.object_cache_bytes == c.object_cache_bytes,
        c@.object_cache_max_entry_bytes == c.object_cache_max_entry_bytes,
        c@.import_max_bytes == c.import_max_bytes,
        c@.import_tmp_dir == c.import_tmp_dir@,
        e@.message == e.message@,
        e.cause matches Some(x) ==> e@.cause == Some(x@),
        e.cause is None ==> e@.cause is None,
{
}

/// Each key guards what it is configured for, and the headers of a proxy are trusted
/// where that is configured.
pub proof fn law_keys_guard_what_they_are_configured_for(c: ConfigView)
    ensures
        keys_of(c).write == c.api_key,
        keys_of(c).admin == c.admin_api_key,
        keys_of(c).metrics == c.metrics_token,
        keys_of(c).trust_proxy_headers == c.rate_limit.trust_proxy_headers,
{
}

/// Options are seen in their order, each with its name and its value.
pub proof fn law_options_are_seen_whole(opts: Seq<(String, String)>, i: int)
    requires
        0 <= i < opts.len(),
    ensures
        pairs(opts).len() == opts.len(),
        pairs(opts)[i].0 == opts[i].0@,
        pairs(opts)[i].1 == opts[i].1@,
{
}
/// A configuration for a log shows each of its values under its name.
#[verifier::spinoff_prover]
pub proof fn law_shown_configurations_name_their_values(c: ConfigView)
    ensures
        shown(c) == text::woven(
            seq![
                "AppConfig { bind: "@,
                ", storage_root: "@,
                ", cache_memory_bytes: "@,
                ", cache_nvme_path: "@,
                ", cache_nvme_bytes: "@,
                ", max_body_bytes: "@,
                ", storage_options: {"@,
                "}, api_key: "@,
                ", admin_api_key: "@,
                ", metrics_token: "@,
                ", rate_limit: "@,
                " }"@,
            ],
            seq![
                c.bind,
                storage_root::root_text(c.storage_root),
                text::dec(c.cache_memory_bytes),
                text::debug_text(c.cache_nvme_path),
                text::dec(c.cache_nvme_bytes),
                text::dec(c.max_body_bytes),
                shown_options(c.storage_options),
                shown_key(c.api_key),
                shown_key(c.admin_api_key),
                shown_key(c.metrics_token),
                shown_limits(c.rate_limit),
            ],
        ),
{
    let w0 = Seq::<Seq<char>>::empty();
    let x0 = Seq::<Seq<char>>::empty();
    let w1 = w0.push("AppConfig { bind: "@);
    let x1 = x0.push(c.bind);
    text::lemma_woven(w0, x0, "AppConfig { bind: "@, c.bind);
    let w2 = w1.push(", storage_root: "@);
    let x2 = x1.push(storage_root::root_text(c.storage_root));
    text::lemma_woven(w1, x1, ", storage_root: "@, storage_root::root_text(c.storage_root));
    let w3 = w2.push(", cache_memory_bytes: "@);
    let x3 = x2.push(text::dec(c.cache_memory_bytes));
    text::lemma_woven(w2, x2, ", cache_memory_bytes: "@, text::dec(c.cache_memory_bytes));
    let w4 = w3.push(", cache_nvme_path: "@);
    let x4 = x3.push(text::debug_text(c.cache_nvme_path));
    text::lemma_woven(w3, x3, ", cache_nvme_path: "@, text::debug_text(c.cache_nvme_path));
    let w5 = w4.push(", cache_nvme_bytes: "@);
    let x5 = x4.push(text::dec(c.cache_nvme_bytes));
    text::lemma_woven(w4, x4, ", cache_nvme_bytes: "@, text::dec(c.cache_nvme_bytes));
    let w6 = w5.push(", max_body_bytes: "@);
    let x6 = x5.push(text::dec(c.max_body_bytes));
    text::lemma_woven(w5, x5, ", max_body_bytes: "@, text::dec(c.max_body_bytes));
    let w7 = w6.push(", storage_options: {"@);
    let x7 = x6.push(shown_options(c.storage_options));
    text::lemma_woven(w6, x6, ", storage_options: {"@, shown_options(c.storage_options));
    let w8 = w7.push("}, api_key: "@);
    let x8 = x7.push(shown_key(c.api_key));
    text::lemma_woven(w7, x7, "}, api_key: "@, shown_key(c.api_key));
    let w9 = w8.push(", admin_api_key: "@);
    let x9 = x8.push(shown_key(c.admin_api_key));
    text::lemma_woven(w8, x8, ", admin_api_key: "@, shown_key(c.admin_api_key));
    let w10 = w9.push(", metrics_token: "@);
    let x10 = x9.push(shown_key(c.metrics_token));
    text::lemma_woven(w9, x9, ", metrics_token: "@, shown_key(c.metrics_token));
    let w11 = w10.push(", rate_limit: "@);
    let x11 = x10.push(shown_limits(c.rate_limit));
    text::lemma_woven(w10, x10, ", rate_limit: "@, shown_limits(c.rate_limit));
    let w12 = w11.push(" }"@);
    text::lemma_woven_end(w11, x11, " }"@);
    assert(w12 =~= seq![
        "AppConfig { bind: "@,
        ", storage_root: "@,
        ", cache_memory_bytes: "@,
        ", cache_nvme_path: "@,
        ", cache_nvme_bytes: "@,
        ", max_body_bytes: "@,
        ", storage_options: {"@,
        "}, api_key: "@,
        ", admin_api_key: "@,
        ", metrics_token: "@,
        ", rate_limit: "@,
        " }"@,
    ]);
    assert(x11 =~= seq![
        c.bind,
        storage_root::root_text(c.storage_root),
        text::dec(c.cache_memory_bytes),
        text::debug_text(c.cache_nvme_path),
        text::dec(c.cache_nvme_bytes),
        text::dec(c.max_body_bytes),
        shown_options(c.storage_options),
        shown_key(c.api_key),
        shown_key(c.admin_api_key),
        shown_key(c.metrics_token),
        shown_limits(c.rate_limit),
    ]);
}

/// A limit as it is shown: the number, or that there is none.
pub open spec fn limit_shown(n: Option<nat>, shown: Seq<char>) -> bool {
    &&& n matches Some(n) ==> shown == "Some("@ + text::dec(n) + ")"@
    &&& n is None ==> shown == "None"@
}

/// Rate limits are shown each under its name, in this order.
pub proof fn law_shown_limits_name_their_values(l: RateLimitSettings)
    ensures
        exists|rps: Seq<char>, burst: Seq<char>, preauth: Seq<char>, trusted: Seq<char>|
            shown_limits(l) == #[trigger] limits_text_of(rps, burst, preauth, trusted)
                && limit_shown(
                match l.per_principal_rps {
                    Some(n) => Some(n as nat),
                    None => None,
                },
                rps,
            ) && limit_shown(
                match l.burst_size {
                    Some(n) => Some(n as nat),
                    None => None,
                },
                burst,
            ) && limit_shown(
                match l.preauth_ip_rps {
                    Some(n) => Some(n as nat),
                    None => None,
                },
                preauth,
            ) && (l.trust_proxy_headers ==> trusted == "true"@) && (!l.trust_proxy_headers
                ==> trusted == "false"@),
{
    let rps = shown_number(
        match l.per_principal_rps {
            Some(n) => Some(n as nat),
            None => None,
        },
    );
    let burst = shown_number(
        match l.burst_size {
            Some(n) => Some(n as nat),
            None => None,
        },
    );
    let preauth = shown_number(
        match l.preauth_ip_rps {
            Some(n) => Some(n as nat),
            None => None,
        },
    );
    let trusted = if l.trust_proxy_headers {
        "true"@
    } else {
        "false"@
    };
    assert(shown_limits(l) == limits_text_of(rps, burst, preauth, trusted));
}

/// Rate limits in a log, by how each is shown.
pub open spec fn limits_text_of(
    rps: Seq<char>,
    burst: Seq<char>,
    preauth: Seq<char>,
    trusted: Seq<char>,
) -> Seq<char> {
    "RateLimitSettings { per_principal_rps: "@ + rps + ", burst_size: "@ + burst
        + ", preauth_ip_rps: "@ + preauth + ", trust_proxy_headers: "@ + trusted + " }"@
}

/// Roots that disagree are told: each variable with what it holds and what it names.
#[verifier::spinoff_prover]
pub proof fn law_disagreements_are_told(
    uri: Seq<char>,
    from_uri: RootView,
    bucket: Seq<char>,
    from_bucket: RootView,
)
    ensures
        disagreement(uri, from_uri, bucket, from_bucket).message == text::woven(
            seq![
                "FIRNFLOW_STORAGE_URI and FIRNFLOW_S3_BUCKET disagree. FIRNFLOW_STORAGE_URI="@,
                " parses as "@,
                ", but FIRNFLOW_S3_BUCKET="@,
                " parses as "@,
                ". Set only one, or set both to consistent values."@,
            ],
            seq![
                text::debug_text(uri),
                storage_root::root_text(from_uri),
                text::debug_text(bucket),
                storage_root::root_text(from_bucket),
            ],
        ),
{
    let w0 = Seq::<Seq<char>>::empty();
    let x0 = Seq::<Seq<char>>::empty();
    let w1 = w0.push("FIRNFLOW_STORAGE_URI and FIRNFLOW_S3_BUCKET disagree. FIRNFLOW_STORAGE_URI="@);
    let x1 = x0.push(text::debug_text(uri));
    text::lemma_woven(w0, x0, "FIRNFLOW_STORAGE_URI and FIRNFLOW_S3_BUCKET disagree. FIRNFLOW_STORAGE_URI="@, text::debug_text(uri));
    let w2 = w1.push(" parses as "@);
    let x2 = x1.push(storage_root::root_text(from_uri));
    text::lemma_woven(w1, x1, " parses as "@, storage_root::root_text(from_uri));
    let w3 = w2.push(", but FIRNFLOW_S3_BUCKET="@);
    let x3 = x2.push(text::debug_text(bucket));
    text::lemma_woven(w2, x2, ", but FIRNFLOW_S3_BUCKET="@, text::debug_text(bucket));
    let w4 = w3.push(" parses as "@);
    let x4 = x3.push(storage_root::root_text(from_bucket));
    text::lemma_woven(w3, x3, " parses as "@, storage_root::root_text(from_bucket));
    let w5 = w4.push(". Set only one, or set both to consistent values."@);
    text::lemma_woven_end(w4, x4, ". Set only one, or set both to consistent values."@);
    assert(w5 =~= seq![
        "FIRNFLOW_STORAGE_URI and FIRNFLOW_S3_BUCKET disagree. FIRNFLOW_STORAGE_URI="@,
        " parses as "@,
        ", but FIRNFLOW_S3_BUCKET="@,
        " parses as "@,
        ". Set only one, or set both to consistent values."@,
    ]);
    assert(x4 =~= seq![
        text::debug_text(uri),
        storage_root::root_text(from_uri),
        text::debug_text(bucket),
        storage_root::root_text(from_bucket),
    ]);
}
/// Options are shown one after the other with commas between them, each as its name
/// and, unless it is a secret, its value.
pub proof fn law_every_option_is_shown(opts: Pairs, next: (Seq<char>, Seq<char>))
    ensures
        shown_options(Seq::empty()).len() == 0,
        opts.len() == 0 ==> shown_options(opts.push(next)) == shown_option(next),
        opts.len() > 0 ==> shown_options(opts.push(next)) == shown_options(opts) + ", "@
            + shown_option(next),
        !is_sensitive(next.0) ==> shown_option(next) == text::debug_text(next.0) + ": "@
            + text::debug_text(next.1),
        is_sensitive(next.0) ==> shown_option(next) == text::debug_text(next.0) + ": "@
            + text::debug_text("***"@),
{
    assert(opts.push(next).drop_last() =~= opts);
}

} // verus!
