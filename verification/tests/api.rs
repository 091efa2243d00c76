//! Configuration, access, error answers, operations and endpoint decisions.
use std::collections::HashSet;

use firnflow::auth::{reject, AuthConfig, Principal, Rejection, Secret};
use firnflow::config::{
    bind_setting, build_auth_config, build_storage_options_for, env_bool,
    is_sensitive_storage_key, optional_u32, resolve_storage_root, AppConfig, ConfigError,
    RateLimitSettings,
};
use firnflow::error::{ApiError, FirnflowError};
use firnflow::handlers::{
    resume_failure, ResumeStage,
    accept_import, cache_source_header, compact, create_fts_index, create_index,
    asks_namespace, create_scalar_index, default_scalar_index_column, delete, facet,
    finish_operation, scalar_column,
    finish_warmup, get_operation, health, import_failure, info, list, metrics, namespace_of,
    operation_error_message, start_import, upsert, warmup, ImportStage, ImportStart, ListParams,
    ScalarIndexRequest, Spool, UpsertRequest, WarmupRequest, WarmupTally,
};
use firnflow::metrics::CoreMetrics;
use firnflow::namespace::NamespaceId;
use firnflow::operations::{OperationKind, OperationRegistry, OperationStatus};
use firnflow::query::{FacetRequest, IndexRequest};
use firnflow::result::{ListOrder, NamespaceInfo};
use firnflow::routes::{all_endpoints, Access, Endpoint};
use firnflow::rows::{any_attributes, UpsertRow};
use firnflow::schema::{Field, FieldType};
use firnflow::service::QueryCacheSource;
use firnflow::storage_root::{Scheme, StorageRoot};
use firnflow::vector::VectorKind;

const WRITE_KEY: &str = "write-secret-token";
const ADMIN_KEY: &str = "admin-secret-token";
const METRICS_KEY: &str = "metrics-secret-token";

fn env(pairs: &[(&str, &str)]) -> Vec<(String, String)> {
    pairs.iter().map(|(k, v)| (k.to_string(), v.to_string())).collect()
}

fn cfg(write: bool, admin: bool, metrics: bool) -> AuthConfig {
    AuthConfig::default()
        .with_write_key(if write { Some(Secret::new(WRITE_KEY)) } else { None })
        .with_admin_key(if admin { Some(Secret::new(ADMIN_KEY)) } else { None })
        .with_metrics_key(if metrics { Some(Secret::new(METRICS_KEY)) } else { None })
}

fn app_config(root: StorageRoot, opts: Vec<(String, String)>) -> AppConfig {
    AppConfig {
        bind: "127.0.0.1:0".into(),
        storage_root: root,
        cache_memory_bytes: 0,
        cache_nvme_path: "/tmp".into(),
        cache_nvme_bytes: 0,
        max_body_bytes: 16 * 1024 * 1024,
        storage_options: opts,
        api_key: None,
        admin_api_key: None,
        metrics_token: None,
        rate_limit: RateLimitSettings::default(),
        object_cache_enabled: false,
        object_cache_dir: "/tmp".into(),
        object_cache_bytes: 0,
        object_cache_max_entry_bytes: 0,
        import_max_bytes: 0,
        import_tmp_dir: "/tmp".into(),
    }
}

// ------------------------------------------------------------- redaction
#[test]
fn sensitive_storage_keys_are_recognised() {
    assert!(is_sensitive_storage_key("aws_secret_access_key"));
    assert!(is_sensitive_storage_key("aws_access_key_id"));
    assert!(is_sensitive_storage_key("AWS_SECRET_ACCESS_KEY"));
    assert!(is_sensitive_storage_key("aws_session_token"));
    assert!(is_sensitive_storage_key("gcs_credentials"));
    assert!(is_sensitive_storage_key("user_password"));
    assert!(is_sensitive_storage_key("google_service_account_key"));
    assert!(is_sensitive_storage_key("service_account_key"));
    assert!(is_sensitive_storage_key("GOOGLE_SERVICE_ACCOUNT_KEY"));
    assert!(is_sensitive_storage_key("google_application_credentials"));
    assert!(!is_sensitive_storage_key("google_service_account_path"));
    assert!(!is_sensitive_storage_key("aws_endpoint"));
    assert!(!is_sensitive_storage_key("aws_region"));
    assert!(!is_sensitive_storage_key("allow_http"));
    assert!(!is_sensitive_storage_key("aws_virtual_hosted_style_request"));
}

#[test]
fn debug_redacts_storage_credentials() {
    let opts = env(&[
        ("aws_secret_access_key", "UNIQUE_S3_SECRET_DO_NOT_LEAK"),
        ("aws_access_key_id", "UNIQUE_S3_ACCESS_DO_NOT_LEAK"),
        ("aws_endpoint", "http://minio:9000"),
        ("aws_region", "eu-west-1"),
    ]);
    let dbg = app_config(StorageRoot::s3_bucket("test").unwrap(), opts).debug();
    assert!(!dbg.contains("UNIQUE_S3_SECRET"), "S3 secret leaked in Debug: {dbg}");
    assert!(!dbg.contains("UNIQUE_S3_ACCESS"), "S3 access key leaked in Debug: {dbg}");
    assert!(dbg.contains("http://minio:9000"), "non-sensitive endpoint should not be redacted: {dbg}");
    assert!(dbg.contains("eu-west-1"), "non-sensitive region should not be redacted: {dbg}");
}

#[test]
fn debug_redacts_inline_gcs_service_account_json() {
    let opts = env(&[
        (
            "google_service_account_key",
            "{\"type\":\"service_account\",\"private_key\":\"UNIQUE_GCS_PRIVATE_KEY_DO_NOT_LEAK\"}",
        ),
        ("google_service_account_path", "/etc/firnflow/gcp-sa.json"),
        ("google_application_credentials", "/etc/firnflow/adc.json"),
    ]);
    let dbg = app_config(StorageRoot::parse("gs://firn-gcs-test").unwrap(), opts).debug();
    assert!(
        !dbg.contains("UNIQUE_GCS_PRIVATE_KEY"),
        "inline GCS service-account JSON leaked in Debug: {dbg}"
    );
    assert!(
        dbg.contains("/etc/firnflow/gcp-sa.json"),
        "service-account path should not be redacted: {dbg}"
    );
}

#[test]
fn secret_debug_does_not_leak_in_app_config() {
    let opts = env(&[
        ("aws_secret_access_key", "UNIQUE_S3_SECRET_PLEASE_DO_NOT_LEAK"),
        ("aws_access_key_id", "UNIQUE_S3_ACCESS_PLEASE_DO_NOT_LEAK"),
        ("aws_endpoint", "http://example:9000"),
    ]);
    let mut config = app_config(StorageRoot::s3_bucket("test").unwrap(), opts);
    config.api_key = Some(Secret::new("UNIQUE_API_KEY_PLEASE_DO_NOT_LEAK"));
    config.admin_api_key = Some(Secret::new("UNIQUE_ADMIN_KEY_PLEASE_DO_NOT_LEAK"));
    config.metrics_token = Some(Secret::new("UNIQUE_METRICS_KEY_PLEASE_DO_NOT_LEAK"));
    let dbg = config.debug();
    assert!(!dbg.contains("UNIQUE_API_KEY"), "API key leaked in Debug: {dbg}");
    assert!(!dbg.contains("UNIQUE_ADMIN_KEY"), "admin key leaked in Debug: {dbg}");
    assert!(!dbg.contains("UNIQUE_METRICS_KEY"), "metrics token leaked in Debug: {dbg}");
    assert!(
        !dbg.contains("UNIQUE_S3_SECRET"),
        "S3 secret access key leaked via storage_options Debug: {dbg}"
    );
    assert!(
        !dbg.contains("UNIQUE_S3_ACCESS"),
        "S3 access key id leaked via storage_options Debug: {dbg}"
    );
}

#[test]
fn debug_text_is_complete() {
    let mut config = app_config(
        StorageRoot::s3_bucket("b").unwrap(),
        env(&[("aws_region", "r\"1"), ("aws_session_token", "t")]),
    );
    config.api_key = Some(Secret::new("k"));
    config.rate_limit.burst_size = Some(7);
    assert_eq!(
        config.debug(),
        "AppConfig { bind: 127.0.0.1:0, storage_root: s3://b, cache_memory_bytes: 0, \
         cache_nvme_path: \"/tmp\", cache_nvme_bytes: 0, max_body_bytes: 16777216, \
         storage_options: {\"aws_region\": \"r\\\"1\", \"aws_session_token\": \"***\"}, \
         api_key: Some(Secret(***)), admin_api_key: None, metrics_token: None, \
         rate_limit: RateLimitSettings { per_principal_rps: None, burst_size: Some(7), \
         preauth_ip_rps: None, trust_proxy_headers: false } }"
    );
    assert_eq!(Secret::new("k").redacted(), "Secret(***)");
}

// ------------------------------------------------------------- from_env
/// Loads a configuration; an address without a port is refused.
fn from_env(e: &Vec<(String, String)>) -> Result<AppConfig, ConfigError> {
    let bind = bind_setting(e);
    let read = if bind.contains(':') { Ok(bind) } else { Err("invalid socket address syntax".into()) };
    AppConfig::from_env(e, read)
}

#[test]
fn environment_defaults() {
    let c = match from_env(&env(&[("FIRNFLOW_S3_BUCKET", " data ")])) {
        Ok(c) => c,
        Err(e) => panic!("{}", e.message),
    };
    assert_eq!(c.bind, "0.0.0.0:3000");
    assert_eq!(c.storage_root.to_uri(), "s3://data");
    assert_eq!(c.cache_memory_bytes, 67108864);
    assert_eq!(c.cache_nvme_path, "/tmp/firnflow-cache");
    assert_eq!(c.cache_nvme_bytes, 268435456);
    assert_eq!(c.max_body_bytes, 16777216);
    assert_eq!(c.storage_options, env(&[("aws_region", "us-east-1")]));
    assert!(c.api_key.is_none() && c.admin_api_key.is_none() && c.metrics_token.is_none());
    assert_eq!(c.rate_limit, RateLimitSettings::default());
    assert!(!c.object_cache_enabled);
    assert_eq!(c.object_cache_dir, "/tmp/firnflow-object-cache");
    assert_eq!(c.object_cache_bytes, 10737418240);
    assert_eq!(c.object_cache_max_entry_bytes, 268435456);
}

#[test]
fn environment_overrides() {
    let e = env(&[
        ("FIRNFLOW_BIND", "127.0.0.1:8080"),
        ("FIRNFLOW_STORAGE_URI", "s3://data/pre"),
        ("FIRNFLOW_S3_ENDPOINT", "http://minio:9000"),
        ("FIRNFLOW_S3_ACCESS_KEY", "a"),
        ("FIRNFLOW_S3_SECRET_KEY", "s"),
        ("FIRNFLOW_S3_REGION", "eu-west-1"),
        ("FIRNFLOW_API_KEY", "key"),
        ("FIRNFLOW_ADMIN_API_KEY", ""),
        ("FIRNFLOW_OBJECT_CACHE_ENABLED", "Yes"),
        ("FIRNFLOW_TRUST_PROXY_HEADERS", "on"),
        ("FIRNFLOW_RATE_LIMIT_RPS", "50"),
        ("FIRNFLOW_RATE_LIMIT_BURST", "+5"),
        ("FIRNFLOW_PREAUTH_IP_LIMIT_RPS", ""),
    ]);
    let c = match from_env(&e) {
        Ok(c) => c,
        Err(e) => panic!("{}", e.message),
    };
    assert_eq!(
        c.storage_options,
        env(&[
            ("aws_endpoint", "http://minio:9000"),
            ("allow_http", "true"),
            ("aws_virtual_hosted_style_request", "false"),
            ("aws_access_key_id", "a"),
            ("aws_secret_access_key", "s"),
            ("aws_region", "eu-west-1"),
        ])
    );
    assert_eq!(c.bind, "127.0.0.1:8080");
    assert!(c.api_key.is_some());
    assert!(c.admin_api_key.is_none());
    assert!(c.object_cache_enabled);
    assert_eq!(
        c.rate_limit,
        RateLimitSettings {
            per_principal_rps: Some(50),
            burst_size: Some(5),
            preauth_ip_rps: None,
            trust_proxy_headers: true,
        }
    );
}

#[test]
fn environment_faults_name_the_variable() {
    let fault = |pairs: &[(&str, &str)]| match from_env(&env(pairs)) {
        Ok(_) => panic!("accepted"),
        Err(e) => (e.message, e.cause),
    };
    assert_eq!(
        fault(&[("FIRNFLOW_BIND", "nowhere")]),
        ("FIRNFLOW_BIND".to_string(), Some("invalid socket address syntax".to_string()))
    );
    assert_eq!(
        fault(&[]),
        (
            "set FIRNFLOW_STORAGE_URI=s3://bucket or FIRNFLOW_STORAGE_URI=gs://bucket, or the \
             legacy FIRNFLOW_S3_BUCKET=bucket"
                .to_string(),
            None
        )
    );
    assert_eq!(
        fault(&[("FIRNFLOW_S3_BUCKET", "b"), ("FIRNFLOW_MAX_BODY_BYTES", "12x")]),
        (
            "FIRNFLOW_MAX_BODY_BYTES".to_string(),
            Some("invalid digit found in string".to_string())
        )
    );
    assert_eq!(
        fault(&[("FIRNFLOW_S3_BUCKET", "b"), ("FIRNFLOW_CACHE_NVME_BYTES", "")]),
        (
            "FIRNFLOW_CACHE_NVME_BYTES".to_string(),
            Some("cannot parse integer from empty string".to_string())
        )
    );
    assert_eq!(
        fault(&[("FIRNFLOW_S3_BUCKET", "b"), ("FIRNFLOW_RATE_LIMIT_BURST", "4294967296")]),
        (
            "FIRNFLOW_RATE_LIMIT_BURST".to_string(),
            Some("number too large to fit in target type".to_string())
        )
    );
    assert_eq!(
        fault(&[("FIRNFLOW_S3_BUCKET", "b"), ("FIRNFLOW_OBJECT_CACHE_ENABLED", "MAYBE")]).0,
        "FIRNFLOW_OBJECT_CACHE_ENABLED must be one of: true, false, 1, 0, yes, no, on, off \u{2014} got \"maybe\""
    );
}

#[test]
fn number_complaints_are_those_of_the_standard_library() {
    for raw in ["", "+", "-", "12x", "x12", "4294967296", "42949672960x", "99999999999999999999x", "-5"] {
        let expected = raw.parse::<u32>().unwrap_err().to_string();
        let got = optional_u32(&env(&[("K", raw)]), "K");
        if raw.is_empty() {
            assert!(matches!(got, Ok(None)));
        } else {
            assert_eq!(got.unwrap_err().cause, Some(expected), "{raw}");
        }
    }
    assert!(matches!(optional_u32(&env(&[("K", "0017")]), "K"), Ok(Some(17))));
    assert!(matches!(env_bool(&env(&[("K", "")]), "K", true), Ok(false)));
    assert!(matches!(env_bool(&env(&[]), "K", true), Ok(true)));
}

#[test]
fn storage_root_precedence() {
    let both = resolve_storage_root(Some("s3://foo"), Some("foo"));
    let both = both.unwrap();
    assert_eq!(both.root.to_uri(), "s3://foo");
    assert!(!both.fallback_logged);
    let bucket = resolve_storage_root(Some("   "), Some(" foo ")).unwrap();
    assert_eq!(bucket.root.to_uri(), "s3://foo");
    assert!(bucket.fallback_logged);
    let uri = resolve_storage_root(Some("gs://bar/a/b/"), None).unwrap();
    assert_eq!(uri.root.to_uri(), "gs://bar/a/b");
    let bad = resolve_storage_root(Some("ftp://x"), None).unwrap_err();
    assert_eq!(bad.message, "FIRNFLOW_STORAGE_URI (\"ftp://x\") failed to parse as a storage URI");
    let bad = resolve_storage_root(None, Some("a/b")).unwrap_err();
    assert_eq!(bad.message, "FIRNFLOW_S3_BUCKET (\"a/b\") is not a valid bucket name");
    let apart = resolve_storage_root(Some("s3://foo"), Some("bar")).unwrap_err();
    assert!(apart.message.contains("disagree"));
    assert!(apart.message.contains("\"s3://foo\"") && apart.message.contains("\"bar\""));
}

#[test]
fn storage_options_by_scheme() {
    let e = env(&[
        ("GOOGLE_APPLICATION_CREDENTIALS", "  "),
        ("GOOGLE_SERVICE_ACCOUNT_PATH", " /sa.json "),
    ]);
    assert_eq!(
        build_storage_options_for(Scheme::Gcs, &e),
        env(&[("google_service_account_path", "/sa.json")])
    );
    assert!(build_storage_options_for(Scheme::Local, &e).is_empty());
}

// ------------------------------------------------------------ error text
#[test]
fn region_redirect_renders_safe_hint_naming_the_region() {
    let resp = ApiError::Core(FirnflowError::StorageRegionRedirect {
        configured_region: Some("us-east-1".into()),
    })
    .into_response();
    assert_eq!(resp.status, 500);
    assert!(resp.error.contains("us-east-1"), "should name the configured region: {}", resp.error);
    assert!(resp.error.contains("FIRNFLOW_S3_REGION"), "should point at the knob: {}", resp.error);
}

#[test]
fn backend_error_text_never_leaks_even_if_redirect_shaped() {
    let resp = ApiError::Core(FirnflowError::Backend(
        "redirect without LOCATION secret-bucket-internal".into(),
    ))
    .into_response();
    assert_eq!(resp.status, 500);
    assert_eq!(resp.error, "internal server error");
    assert!(!resp.error.contains("secret-bucket-internal"));
}

#[test]
fn every_error_has_its_answer() {
    let status = |e: FirnflowError| ApiError::Core(e).into_response().status;
    assert_eq!(status(FirnflowError::InvalidNamespace("A".into())), 400);
    assert_eq!(status(FirnflowError::InvalidRequest("m".into())), 400);
    assert_eq!(status(FirnflowError::Unsupported("m".into())), 501);
    assert_eq!(status(FirnflowError::Cache("m".into())), 500);
    assert_eq!(status(FirnflowError::Io("m".into())), 500);
    assert_eq!(status(FirnflowError::Metrics("m".into())), 500);
    let denied = ApiError::Unauthorized.into_response();
    assert_eq!(denied.status, 401);
    assert_eq!(denied.www_authenticate.as_deref(), Some("Bearer realm=\"firnflow\""));
    assert_eq!(ApiError::Forbidden.into_response().status, 403);
    assert_eq!(ApiError::NotFound("gone".into()).into_response().error, "gone");
    let limited = ApiError::RateLimited(0).into_response();
    assert_eq!(limited.status, 429);
    assert_eq!(limited.retry_after, Some(1));
    let limited = ApiError::RateLimited(17).into_response();
    assert_eq!(limited.retry_after, Some(17));
}

#[test]
fn operation_error_message_surfaces_caller_errors() {
    let msg = operation_error_message(&FirnflowError::Unsupported(
        "namespace predates the _ingested_at column".into(),
    ));
    assert!(
        msg.contains("namespace predates the _ingested_at column"),
        "capability errors should reach the caller, got: {msg}"
    );
    let msg = operation_error_message(&FirnflowError::InvalidRequest(
        "num_sub_vectors must divide the dimension".into(),
    ));
    assert!(msg.contains("num_sub_vectors must divide the dimension"));
}

#[test]
fn operation_error_message_scrubs_backend_internals() {
    let leaky = FirnflowError::Backend(
        "s3://secret-bucket/ns: AccessDenied request-id 0xDEADBEEF".into(),
    );
    let msg = operation_error_message(&leaky);
    assert_eq!(msg, "operation failed");
    assert!(
        !msg.contains("secret-bucket"),
        "backend internals must not leak into the operation record"
    );
}

// ----------------------------------------------------------------- access
#[test]
fn health_open_without_auth() {
    assert!(Endpoint::Health.let_in(&cfg(true, true, false), None).is_ok());
    assert_eq!(health(), "ok");
}

/// The status with which a handler refuses a namespace that it is let in with.
fn handler_status(name: &str) -> u16 {
    namespace_of(name).err().unwrap().into_response().status
}

/// The status with which a rejected request is answered.
fn rejected(r: Rejection) -> u16 {
    reject(r, &mut CoreMetrics::new().unwrap()).into_response().status
}

#[test]
fn disabled_when_no_keys_set() {
    let r = Endpoint::Query.let_in(&AuthConfig::disabled(), None);
    assert_eq!(r, Ok(Some(Principal::Anonymous)));
    assert_eq!(handler_status("NOT_LOWERCASE"), 400);
}

#[test]
fn missing_header_returns_401() {
    let mut metrics = CoreMetrics::new().unwrap();
    let r = Endpoint::Query.let_in(&cfg(true, true, false), None).unwrap_err();
    let reply = reject(r, &mut metrics).into_response();
    assert_eq!(reply.status, 401);
    assert_eq!(reply.www_authenticate.as_deref(), Some("Bearer realm=\"firnflow\""));
}

#[test]
fn malformed_header_returns_401() {
    let mut metrics = CoreMetrics::new().unwrap();
    let r = Endpoint::Query.let_in(&cfg(true, true, false), Some("Token foo")).unwrap_err();
    assert_eq!(reject(r, &mut metrics).into_response().status, 401);
}

#[test]
fn unknown_token_returns_401() {
    let r = Endpoint::Query.let_in(&cfg(true, true, false), Some("Bearer not-a-real-key"));
    assert_eq!(r, Err(Rejection::Invalid));
    assert_eq!(rejected(r.unwrap_err()), 401);
}

#[test]
fn write_token_authorises_read_route() {
    let header = format!("Bearer {WRITE_KEY}");
    let r = Endpoint::Query.let_in(&cfg(true, true, false), Some(&header));
    assert_eq!(r, Ok(Some(Principal::Write)));
    assert_eq!(handler_status("NOT_LOWERCASE"), 400);
}

#[test]
fn write_token_forbidden_on_admin_route_when_admin_key_set() {
    let mut metrics = CoreMetrics::new().unwrap();
    let header = format!("Bearer {WRITE_KEY}");
    let r = Endpoint::Compact.let_in(&cfg(true, true, false), Some(&header)).unwrap_err();
    assert_eq!(reject(r, &mut metrics).into_response().status, 403);
}

#[test]
fn single_key_authorises_admin_routes_when_admin_key_unset() {
    let header = format!("Bearer {WRITE_KEY}");
    let r = Endpoint::Compact.let_in(&cfg(true, false, false), Some(&header));
    assert_eq!(r, Ok(Some(Principal::Admin)));
    assert_eq!(handler_status("NOT_LOWERCASE"), 400);
}

#[test]
fn admin_token_authorises_read_route() {
    let header = format!("Bearer {ADMIN_KEY}");
    let r = Endpoint::Query.let_in(&cfg(true, true, false), Some(&header));
    assert_eq!(r, Ok(Some(Principal::Admin)));
    assert_eq!(handler_status("NOT_LOWERCASE"), 400);
}

#[test]
fn admin_token_authorises_admin_route() {
    let header = format!("Bearer {ADMIN_KEY}");
    let r = Endpoint::Compact.let_in(&cfg(true, true, false), Some(&header));
    assert_eq!(r, Ok(Some(Principal::Admin)));
    assert_eq!(handler_status("NOT_LOWERCASE"), 400);
}

#[test]
fn metrics_open_when_token_unset() {
    assert!(Endpoint::Metrics.let_in(&cfg(true, true, false), None).is_ok());
}

#[test]
fn metrics_gated_when_token_set() {
    let keys = cfg(true, true, true);
    assert_eq!(Endpoint::Metrics.let_in(&keys, None), Err(Rejection::Missing));
    assert_eq!(rejected(Rejection::Missing), 401);
    assert_eq!(Endpoint::Metrics.let_in(&keys, Some("Bearer wrong-token")), Err(Rejection::Invalid));
    assert_eq!(rejected(Rejection::Invalid), 401);
    let header = format!("Bearer {METRICS_KEY}");
    assert!(Endpoint::Metrics.let_in(&keys, Some(&header)).is_ok());
}

#[test]
fn duplicate_keys_fail_startup_before_cache_setup() {
    let mut config = app_config(StorageRoot::s3_bucket("firnflow-offline").unwrap(), Vec::new());
    config.api_key = Some(Secret::new("identical-token"));
    config.admin_api_key = Some(Secret::new("identical-token"));
    let msg = build_auth_config(&config).err().expect("build_auth_config must reject duplicate keys").message;
    assert!(
        msg.contains("FIRNFLOW_API_KEY") && msg.contains("FIRNFLOW_ADMIN_API_KEY"),
        "expected duplicate-key error, got: {msg}"
    );
    assert!(!msg.contains("cache nvme directory"), "{msg}");
    config.admin_api_key = Some(Secret::new("another-token"));
    assert!(build_auth_config(&config).is_ok());
}

#[test]
fn auth_rejection_metric_counts_each_reason() {
    let keys = cfg(true, true, false);
    let mut m = CoreMetrics::new().unwrap();
    let header = format!("Bearer {WRITE_KEY}");
    for (r, status) in [
        (Endpoint::Query.let_in(&keys, None), 401),
        (Endpoint::Query.let_in(&keys, Some("Bearer nope")), 401),
        (Endpoint::Compact.let_in(&keys, Some(&header)), 403),
    ] {
        assert_eq!(reject(r.unwrap_err(), &mut m).into_response().status, status);
    }
    assert_eq!(m.auth_rejections_value("missing"), 1);
    assert_eq!(m.auth_rejections_value("invalid"), 1);
    assert_eq!(m.auth_rejections_value("forbidden"), 1);
    assert_eq!(m.auth_rejections_value("rate_limited"), 0);
}

#[test]
fn every_endpoint_is_mounted_once() {
    let all = all_endpoints();
    let routes: HashSet<(&str, &str)> = all.iter().map(|e| (e.method(), e.path())).collect();
    assert_eq!(routes.len(), 15);
    assert!(routes.contains(&("GET", "/ns/{namespace}")));
    assert!(routes.contains(&("DELETE", "/ns/{namespace}")));
    let admin = all.iter().filter(|e| e.access() == Access::Admin).count();
    assert_eq!(admin, 5);
    assert!(all.iter().all(|e| e.body_capped() == (*e != Endpoint::Import)));
    assert_eq!(all.iter().filter(|e| e.rate_limited()).count(), 13);
}

// -------------------------------------------------------------- operations
#[test]
fn start_then_succeed_and_fail() {
    let mut reg = OperationRegistry::new();

    let ok = reg.start(OperationKind::ScalarIndex, "n1".into());
    assert!(ok.starts_with("op_"), "ids are prefixed and opaque");
    let rec = reg.get(&ok).unwrap();
    assert_eq!(rec.kind, OperationKind::ScalarIndex);
    assert_eq!(rec.namespace, "n1");
    assert_eq!(rec.status, OperationStatus::Running);
    assert!(rec.finished_at_ms.is_none());
    assert!(rec.error.is_none());

    reg.succeed(&ok);
    let rec = reg.get(&ok).unwrap();
    assert_eq!(rec.status, OperationStatus::Succeeded);
    assert!(rec.finished_at_ms.is_some());
    assert!(rec.error.is_none());

    let bad = reg.start(OperationKind::Index, "n2".into());
    reg.fail(&bad, "index training failed");
    let rec = reg.get(&bad).unwrap();
    assert_eq!(rec.status, OperationStatus::Failed);
    assert_eq!(rec.error.as_deref(), Some("index training failed"));
}

#[test]
fn unknown_id_is_none() {
    let reg = OperationRegistry::new();
    assert!(reg.get("op_nonexistent").is_none());
}

#[test]
fn ids_are_unique() {
    let mut reg = OperationRegistry::new();
    let a = reg.start(OperationKind::Compact, "n".into());
    let b = reg.start(OperationKind::Compact, "n".into());
    assert_ne!(a, b);
}

#[test]
fn completed_ops_are_evicted_beyond_cap() {
    let mut reg = OperationRegistry::with_capacity(2);
    let a = reg.start(OperationKind::Warmup, "n".into());
    let b = reg.start(OperationKind::Warmup, "n".into());
    let c = reg.start(OperationKind::Warmup, "n".into());
    reg.succeed(&a);
    reg.succeed(&b);
    reg.succeed(&c);
    assert!(reg.get(&a).is_none(), "oldest completed op should be evicted");
    assert!(reg.get(&b).is_some());
    assert!(reg.get(&c).is_some());
}

#[test]
fn running_ops_are_never_evicted() {
    let mut reg = OperationRegistry::with_capacity(1);
    let running = reg.start(OperationKind::Index, "n".into());
    let a = reg.start(OperationKind::Warmup, "n".into());
    let b = reg.start(OperationKind::Warmup, "n".into());
    reg.succeed(&a);
    reg.succeed(&b);
    assert!(reg.get(&running).is_some(), "running op must not be evicted");
    assert!(reg.get(&a).is_none());
    assert!(reg.get(&b).is_some());
}

#[test]
fn finishing_twice_keeps_one_place() {
    let mut reg = OperationRegistry::with_capacity(2);
    let a = reg.start(OperationKind::Index, "n".into());
    let b = reg.start(OperationKind::Index, "n".into());
    reg.succeed(&a);
    reg.succeed(&a);
    reg.succeed(&b);
    assert!(reg.get(&a).is_some() && reg.get(&b).is_some());
}

#[test]
fn a_history_keeps_the_last_to_finish() {
    let mut reg = OperationRegistry::with_capacity(3);
    let ids: Vec<String> = (0..8).map(|_| reg.start(OperationKind::Warmup, "n".into())).collect();
    for i in [5usize, 0, 3, 3, 7, 1, 5] {
        reg.succeed(&ids[i]);
    }
    let kept: Vec<usize> = (0..8).filter(|i| reg.get(&ids[*i]).is_some()).collect();
    // 2, 4 and 6 still run; 3, 7 and 1 were the last to finish.
    assert_eq!(kept, vec![1, 2, 3, 4, 6, 7]);
}

#[test]
fn operation_clock_moves_on() {
    let mut reg = OperationRegistry::new();
    let id = reg.start(OperationKind::Compact, "n".into());
    assert_eq!(id.len(), 39);
    let uuid = id.strip_prefix("op_").unwrap();
    assert_eq!(uuid.chars().nth(14), Some('7'));
    assert!(matches!(uuid.chars().nth(19), Some('8' | '9' | 'a' | 'b')));
    let began = reg.get(&id).unwrap().started_at_ms;
    assert!(began > 1_600_000_000_000);
    reg.succeed(&id);
    assert!(reg.get(&id).unwrap().finished_at_ms.unwrap() >= began);
}

// --------------------------------------------------------------- handlers
#[test]
fn unknown_operation_is_404() {
    let reg = OperationRegistry::new();
    let reply = get_operation(&reg, "op_does-not-exist").unwrap_err().into_response();
    assert_eq!(reply.status, 404);
    assert!(reply.error.contains("not found"), "expected a not-found message, got {}", reply.error);
}

#[test]
fn delete_missing_namespace_returns_404() {
    let ns = NamespaceId::new("delete-missing").unwrap();
    let reply = delete(&ns, 0).unwrap_err().into_response();
    assert_eq!(reply.status, 404, "deleting a never-written namespace should be 404");
    assert_eq!(delete(&ns, 3).ok().unwrap().objects_deleted, 3);
}

#[test]
fn info_404_for_unknown_namespace() {
    let ns = NamespaceId::new("api-info-missing").unwrap();
    let reply = info(&ns, None).unwrap_err().into_response();
    assert_eq!(reply.status, 404);
    assert!(reply.error.contains("does not exist"), "expected a not-found message, got {}", reply.error);
    let found = NamespaceInfo {
        namespace: "n".into(),
        kind: VectorKind::Single,
        vector_dim: 3,
        row_count: 2,
        fragment_count: 1,
        has_vector_index: false,
        has_fts_index: false,
        has_scalar_index: true,
        table_version: 4,
    };
    assert_eq!(info(&ns, Some(found)).ok().unwrap().table_version, 4);
}

fn index_request(kind: &str, num_bits: Option<u32>, num_sub_vectors: Option<u32>) -> IndexRequest {
    IndexRequest { kind: kind.into(), num_partitions: None, num_sub_vectors, num_bits }
}

#[test]
fn num_bits_seven_returns_400_synchronously() {
    let mut reg = OperationRegistry::new();
    let reply = create_index(&mut reg, "num-bits-bad", &index_request("ivf_pq", Some(7), None))
        .err()
        .unwrap()
        .into_response();
    assert_eq!(reply.status, 400, "unsupported num_bits must reject synchronously, not behind a 202");
    assert!(reply.error.contains("num_bits=7"), "missing offending value: {}", reply.error);
    assert!(reply.error.contains("4 or 8"), "missing accepted values: {}", reply.error);
}

#[test]
fn num_bits_four_with_odd_sub_vectors_returns_400_synchronously() {
    let mut reg = OperationRegistry::new();
    let reply = create_index(&mut reg, "num-bits-odd", &index_request("ivf_pq", Some(4), Some(63)))
        .err()
        .unwrap()
        .into_response();
    assert_eq!(reply.status, 400, "4-bit PQ with odd num_sub_vectors must reject before spawn");
    assert!(reply.error.contains("num_bits=4"), "missing bit width: {}", reply.error);
    assert!(reply.error.contains("even"), "missing parity constraint: {}", reply.error);
    assert!(reply.error.contains("63"), "missing offending count: {}", reply.error);
}

#[test]
fn background_work_is_accepted_and_polled() {
    let mut reg = OperationRegistry::new();
    let (ns, accepted) =
        create_index(&mut reg, "books", &index_request("ivf_pq", Some(4), Some(64))).ok().unwrap();
    assert_eq!(ns.as_str(), "books");
    assert_eq!(accepted.kind, OperationKind::Index);
    assert_eq!(accepted.status, OperationStatus::Running);
    let rec = get_operation(&reg, &accepted.operation_id).ok().unwrap();
    assert_eq!(rec.status, OperationStatus::Running);

    let reply = create_index(&mut reg, "books", &index_request("hnsw", None, None)).err().unwrap();
    assert_eq!(
        reply.into_response().error,
        "invalid request: unsupported index kind \"hnsw\", only \"ivf_pq\" is supported"
    );
    let (_, fts) = create_fts_index(&mut reg, "books").ok().unwrap();
    let (_, small) = compact(&mut reg, "books").ok().unwrap();
    let column = scalar_column(None);
    assert_eq!(column, "_ingested_at");
    assert_eq!(column, default_scalar_index_column());
    let (_, scalar) = create_scalar_index(&mut reg, "books", &column, Ok(())).ok().unwrap();
    let column = scalar_column(Some(ScalarIndexRequest { column: "vector".into() }));
    let refused = create_scalar_index(&mut reg, "books", &column, Ok(())).err().unwrap();
    assert_eq!(refused.into_response().status, 400);
    assert!(compact(&mut reg, "Not A Name").is_err());

    finish_operation(&mut reg, &fts.operation_id, None);
    finish_operation(
        &mut reg,
        &small.operation_id,
        Some(&FirnflowError::Backend("s3://secret".into())),
    );
    finish_operation(
        &mut reg,
        &scalar.operation_id,
        Some(&FirnflowError::StorageRegionRedirect { configured_region: None }),
    );
    assert_eq!(reg.get(&fts.operation_id).unwrap().status, OperationStatus::Succeeded);
    assert_eq!(reg.get(&small.operation_id).unwrap().error.as_deref(), Some("operation failed"));
    assert!(reg.get(&scalar.operation_id).unwrap().error.unwrap().contains("FIRNFLOW_S3_REGION"));
}

#[test]
fn columns_of_a_namespace_are_asked_for() {
    let mut reg = OperationRegistry::new();
    for (column, asked) in [
        ("id", false),
        ("_ingested_at", false),
        ("vector", false),
        ("vectors", false),
        ("text", false),
        ("_hidden", false),
        ("section", true),
        ("", true),
    ] {
        assert_eq!(asks_namespace(column), asked, "{column}");
    }
    assert!(create_scalar_index(&mut reg, "books", "section", Ok(())).is_ok());
    let no = || Err(FirnflowError::InvalidRequest("no such column".into()));
    let reply = create_scalar_index(&mut reg, "books", "section", no()).err().unwrap().into_response();
    assert_eq!((reply.status, reply.error.as_str()), (400, "invalid request: no such column"));
    // What is said of a column that is settled without asking does not count.
    assert!(create_scalar_index(&mut reg, "books", "id", no()).is_ok());
    assert!(create_scalar_index(&mut reg, "books", "_hidden", Ok(())).is_err());
}

#[test]
fn warmup_reports_how_many_failed() {
    let mut reg = OperationRegistry::new();
    let req = WarmupRequest { queries: Vec::new() };
    let (_, accepted) = warmup(&mut reg, "books", &req).ok().unwrap();
    assert_eq!(accepted.queued, 0);
    let mut tally = WarmupTally::new();
    assert!(tally.message().is_none());
    tally.record(None);
    tally.record(Some(&FirnflowError::InvalidRequest("bad k".into())));
    tally.record(Some(&FirnflowError::Backend("x".into())));
    assert_eq!(
        tally.message().as_deref(),
        Some("2 of 3 warmup queries failed; first error: invalid request: bad k")
    );
    finish_warmup(&mut reg, &accepted.operation.operation_id, &tally);
    let rec = reg.get(&accepted.operation.operation_id).unwrap();
    assert_eq!(rec.status, OperationStatus::Failed);
    assert_eq!(rec.error, tally.message());
}

#[test]
fn import_is_checked_step_by_step() {
    assert!(matches!(
        start_import("books", Some("application/vnd.apache.arrow.stream; charset=x")),
        Ok(ImportStart::Read(_))
    ));
    assert!(matches!(
        start_import("books", Some(" application/octet-stream ")),
        Ok(ImportStart::Read(_))
    ));
    match start_import("books", Some("application/json")) {
        Ok(ImportStart::Refused(reply)) => {
            assert_eq!(reply.status, 415);
            assert_eq!(
                reply.error,
                "import requires Content-Type: application/vnd.apache.arrow.stream"
            );
        }
        _ => panic!("must be refused"),
    }
    assert!(matches!(start_import("books", None), Ok(ImportStart::Refused(_))));
    assert!(start_import("Books", None).is_err());

    let mut spool = Spool::new(10);
    assert!(spool.take(10).is_ok());
    let reply = spool.take(1).unwrap_err();
    assert_eq!(reply.status, 413);
    assert_eq!(reply.error, "import body exceeds FIRNFLOW_IMPORT_MAX_BYTES (10 bytes)");
    assert!(Spool::new(0).take(1 << 40).is_ok());

    let client = import_failure(ImportStage::ReadStream, "eof");
    assert_eq!(
        ApiError::Core(client).into_response().error,
        "invalid request: import: not a valid Arrow IPC stream: eof"
    );
    let server = import_failure(ImportStage::WriteSpool, "disk full");
    assert_eq!(ApiError::Core(server).into_response().error, "internal server error");

    let mut reg = OperationRegistry::new();
    let ns = NamespaceId::new("books").unwrap();
    let id = || Field { name: "id".into(), data_type: FieldType::UInt64, nullable: false };
    let vector = || Field {
        name: "vector".into(),
        data_type: FieldType::FixedVector(4),
        nullable: false,
    };
    let accepted = accept_import(&mut reg, &ns, &vec![id(), vector()]).ok().unwrap();
    assert_eq!(accepted.kind, OperationKind::Import);
    assert!(accept_import(&mut reg, &ns, &vec![vector()]).is_err());
    assert!(accept_import(&mut reg, &ns, &vec![id()]).is_err());
}

fn params(order_by: Option<&str>, order: Option<&str>, limit: Option<usize>, cursor: Option<&str>) -> ListParams {
    ListParams {
        order_by: order_by.map(|s| s.to_string()),
        order: order.map(|s| s.to_string()),
        limit,
        cursor: cursor.map(|s| s.to_string()),
    }
}

#[test]
fn list_parameters_are_read() {
    let at = |p: ListParams| list(&p).ok().unwrap();
    assert_eq!(at(params(None, None, None, None)), (50, ListOrder::Desc, None));
    assert_eq!(at(params(Some("_ingested_at"), Some("asc"), Some(500), Some(""))), (500, ListOrder::Asc, None));
    let cursor = firnflow::cursor::encode_list_cursor(1_700_000_000_000_000, 42);
    assert_eq!(
        at(params(None, Some("desc"), Some(1), Some(&cursor))),
        (1, ListOrder::Desc, Some((1_700_000_000_000_000, 42)))
    );
    let error = |p: ListParams| list(&p).err().unwrap().into_response().error;
    assert_eq!(
        error(params(Some("id"), None, None, None)),
        "invalid request: order_by must be \"_ingested_at\" in v1, got \"id\""
    );
    assert_eq!(
        error(params(None, Some("up"), Some(0), None)),
        "invalid request: order must be \"asc\" or \"desc\", got \"up\""
    );
    assert_eq!(error(params(None, None, Some(0), None)), "invalid request: limit must be >= 1");
    assert_eq!(
        error(params(None, None, Some(501), None)),
        "invalid request: limit 501 exceeds maximum 500"
    );
    assert!(error(params(None, None, None, Some("zz"))).contains("malformed cursor"));
}

#[test]
fn plain_handlers_check_their_input() {
    let row = UpsertRow {
        id: 1,
        vector: vec![0],
        vectors: None,
        text: None,
        attributes: vec![("section".into(), "\"warnings\"".into())],
    };
    let (ns, rows, answer) = upsert("books", UpsertRequest { rows: vec![row] }).ok().unwrap();
    assert_eq!((ns.as_str(), rows.len(), answer.upserted), ("books", 1, 1));
    assert_eq!(rows[0].attributes, vec![("section".to_string(), "\"warnings\"".to_string())]);
    assert!(any_attributes(&rows));
    assert!(!any_attributes(&vec![UpsertRow::from((1, vec![0]))]));
    let mut req = FacetRequest { filter: None, fields: vec!["section".into()], top: Some(10) };
    assert_eq!(facet("books", &req).ok().unwrap().1, 10);
    req.top = Some(1001);
    assert_eq!(facet("books", &req).err().unwrap().into_response().status, 400);
    assert_eq!(
        facet("BAD", &req).err().unwrap().into_response().error,
        "invalid namespace: BAD"
    );
    for header in ["1", "true", "yes"] {
        assert_eq!(
            cache_source_header(Some(header), QueryCacheSource::SemanticCache),
            Some("semantic_cache")
        );
    }
    assert_eq!(cache_source_header(Some("TRUE"), QueryCacheSource::Backend), None);
    assert_eq!(cache_source_header(None, QueryCacheSource::ExactCache), None);
    let (body, content_type) = metrics(&CoreMetrics::new().unwrap()).ok().unwrap();
    assert_eq!(content_type, "text/plain; version=0.0.4; charset=utf-8");
    assert!(body.contains("firnflow_active_namespaces 0"));
}

#[test]
fn resumed_imports_say_why_they_failed() {
    assert_eq!(resume_failure(ResumeStage::ReopenTemp, "gone"), "import: reopen temp: gone");
    assert_eq!(resume_failure(ResumeStage::ReadStream, "cut"), "import: Arrow stream: cut");
}
