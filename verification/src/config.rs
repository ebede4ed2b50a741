//! Typed application configuration with layered loading (CLI flags over
//! environment variables over the configuration file over defaults),
//! validation, production guardrails and secret redaction.
//!
//! Durations are held as whole seconds.
use vstd::prelude::*;
use crate::error::{AppError, ErrorKind};
use crate::parse::{decimal_seq, parse_unsigned, parse_unsigned_spec, push_decimal, trim_chars, trim_seq};
use crate::text::{
    ascii_text, chars_eq, chars_of, lower_chars, lower_seq, lower_text, owned, push_text, split_chars,
    unicode_lower,
    split_seq, string_of, text_eq,
};

verus! {

/// A value that is never shown: its display and debug forms are
/// `[REDACTED]`.
pub struct Secret<T>(T);

impl<T: Clone> Clone for Secret<T> {
    /// A secret holding a clone of the value.
    fn clone(&self) -> (r: Self)
        ensures
            cloned(self.value(), r.value()),
    {
        Secret(self.0.clone())
    }
}

impl<T> Secret<T> {
    /// The wrapped value.
    pub closed spec fn value(&self) -> T {
        self.0
    }

    pub fn new(value: T) -> (r: Self)
        ensures
            r.value() == value,
    {
        Secret(value)
    }

    pub fn into_inner(self) -> (r: T)
        ensures
            r == self.value(),
    {
        self.0
    }

    pub fn inner(&self) -> (r: &T)
        ensures
            *r == self.value(),
    {
        &self.0
    }

    /// The text shown in place of the value (its `Display` and `Debug` form).
    pub fn redacted(&self) -> (r: &'static str)
        ensures
            r@ == "[REDACTED]"@,
    {
        "[REDACTED]"
    }
}

/// A clone of a secret text holds the same text as the original, so
/// `s.clone().into_inner()` and `*s.inner()` agree.
pub proof fn lemma_secret_text_clone(original: Secret<String>, copy: Secret<String>)
    requires
        cloned(original.value(), copy.value()),
    ensures
        copy.value() == original.value(),
{
}

/// Server configuration.
#[derive(Debug, Clone)]
pub struct ServerConfig {
    pub host: String,
    pub port: u16,
    /// Request timeout in seconds.
    pub request_timeout: u64,
    /// Largest accepted request body in bytes.
    pub max_body_size: usize,
    /// Graceful shutdown timeout in seconds.
    pub shutdown_timeout: u64,
}

pub fn default_host() -> (r: String)
    ensures
        r@ == "127.0.0.1"@,
{
    owned("127.0.0.1")
}

pub fn default_port() -> (r: u16)
    ensures
        r == 8888,
{
    8888
}

pub fn default_request_timeout() -> (r: u64)
    ensures
        r == 30,
{
    30
}

pub fn default_max_body_size() -> (r: usize)
    ensures
        r == 1024 * 1024,
{
    1024 * 1024
}

pub fn default_shutdown_timeout() -> (r: u64)
    ensures
        r == 10,
{
    10
}

impl Default for ServerConfig {
    fn default() -> (r: Self)
        ensures
            r.host@ == "127.0.0.1"@,
            r.port == 8888,
            r.request_timeout == 30,
            r.max_body_size == 1024 * 1024,
            r.shutdown_timeout == 10,
    {
        ServerConfig {
            host: default_host(),
            port: default_port(),
            request_timeout: default_request_timeout(),
            max_body_size: default_max_body_size(),
            shutdown_timeout: default_shutdown_timeout(),
        }
    }
}

/// Storage backend selection.
#[derive(Debug, Clone, Copy, PartialEq, Eq, Structural)]
pub enum StorageMode {
    Memory,
    /// Embedded native thingd; `persistent` remains accepted as a legacy name.
    Native,
    Persistent,
    Http,
    Cloud,
}

pub open spec fn storage_mode_name(m: StorageMode) -> Seq<char> {
    match m {
        StorageMode::Memory => "memory"@,
        StorageMode::Native => "native"@,
        StorageMode::Persistent => "persistent"@,
        StorageMode::Http => "http"@,
        StorageMode::Cloud => "cloud"@,
    }
}

/// The `Debug` name of a storage mode.
pub open spec fn storage_mode_debug(m: StorageMode) -> Seq<char> {
    match m {
        StorageMode::Memory => "Memory"@,
        StorageMode::Native => "Native"@,
        StorageMode::Persistent => "Persistent"@,
        StorageMode::Http => "Http"@,
        StorageMode::Cloud => "Cloud"@,
    }
}

/// The storage mode a name denotes; names are matched after Unicode
/// lower-casing.
pub open spec fn storage_mode_of(s: Seq<char>) -> Option<StorageMode> {
    storage_mode_named(unicode_lower(s))
}

/// The storage mode whose lower-case name is `l`.
pub open spec fn storage_mode_named(l: Seq<char>) -> Option<StorageMode> {
    if l == "memory"@ {
        Some(StorageMode::Memory)
    } else if l == "native"@ {
        Some(StorageMode::Native)
    } else if l == "persistent"@ {
        Some(StorageMode::Persistent)
    } else if l == "http"@ {
        Some(StorageMode::Http)
    } else if l == "cloud"@ {
        Some(StorageMode::Cloud)
    } else {
        None
    }
}

/// The error for a value that is not one of the accepted names or numbers.
pub open spec fn invalid(field: Seq<char>, value: Seq<char>, expected: Seq<char>) -> ConfigErrorView {
    ConfigErrorView::InvalidValue { field, value, expected }
}

impl StorageMode {
    pub fn as_str(&self) -> (r: &'static str)
        ensures
            r@ == storage_mode_name(*self),
    {
        match self {
            StorageMode::Memory => "memory",
            StorageMode::Native => "native",
            StorageMode::Persistent => "persistent",
            StorageMode::Http => "http",
            StorageMode::Cloud => "cloud",
        }
    }

    /// The `Debug` name of the mode.
    pub fn debug_name(&self) -> (r: &'static str)
        ensures
            r@ == storage_mode_debug(*self),
    {
        match self {
            StorageMode::Memory => "Memory",
            StorageMode::Native => "Native",
            StorageMode::Persistent => "Persistent",
            StorageMode::Http => "Http",
            StorageMode::Cloud => "Cloud",
        }
    }

    /// Parses a storage mode name, without regard to case.
    pub fn parse_str(s: &str) -> (r: Result<Self, ConfigError>)
        ensures
            match r {
                Ok(m) => storage_mode_of(s@) == Some(m),
                Err(e) => storage_mode_of(s@) is None && e@ == invalid(
                    "storage_mode"@,
                    s@,
                    "memory, native, persistent, http, or cloud"@,
                ),
            },
            ascii_text(s@) ==> match r {
                Ok(m) => storage_mode_named(lower_seq(s@)) == Some(m),
                Err(_) => storage_mode_named(lower_seq(s@)) is None,
            },
    {
        let l = chars_of(lower_text(s).as_str());
        if chars_eq(&l, &chars_of("memory")) {
            Ok(StorageMode::Memory)
        } else if chars_eq(&l, &chars_of("native")) {
            Ok(StorageMode::Native)
        } else if chars_eq(&l, &chars_of("persistent")) {
            Ok(StorageMode::Persistent)
        } else if chars_eq(&l, &chars_of("http")) {
            Ok(StorageMode::Http)
        } else if chars_eq(&l, &chars_of("cloud")) {
            Ok(StorageMode::Cloud)
        } else {
            Err(ConfigError::invalid_value(
                "storage_mode",
                owned(s),
                "memory, native, persistent, http, or cloud",
            ))
        }
    }
}

/// The name of every storage mode is ASCII and is read back as that mode,
/// so `parse_str(m.as_str())` gives `Ok(m)`; distinct modes have distinct
/// names.
pub proof fn lemma_storage_mode_name_round_trip(m: StorageMode, other: StorageMode)
    ensures
        ascii_text(storage_mode_name(m)),
        storage_mode_named(lower_seq(storage_mode_name(m))) == Some(m),
        m != other ==> storage_mode_name(m) != storage_mode_name(other),
{
    reveal_strlit("memory");
    reveal_strlit("native");
    reveal_strlit("persistent");
    reveal_strlit("http");
    reveal_strlit("cloud");
    let n = storage_mode_name(m);
    assert(lower_seq(n) =~= n);
    // The five names differ in their first character.
    assert("memory"@[0] == 'm' && "native"@[0] == 'n' && "persistent"@[0] == 'p');
    assert("http"@[0] == 'h' && "cloud"@[0] == 'c');
    assert("memory"@ != "native"@ && "memory"@ != "persistent"@ && "memory"@ != "http"@ && "memory"@ != "cloud"@);
    assert("native"@ != "persistent"@ && "native"@ != "http"@ && "native"@ != "cloud"@);
    assert("persistent"@ != "http"@ && "persistent"@ != "cloud"@ && "http"@ != "cloud"@);
}

/// Replication transport.
#[derive(Debug, Clone, Copy, PartialEq, Eq, Structural)]
pub enum ThingdSyncMode {
    Disabled,
    Http,
    Native,
}

/// The sync mode a name denotes, after trimming and ASCII lower-casing.
pub open spec fn sync_mode_of(s: Seq<char>) -> Option<ThingdSyncMode> {
    let l = lower_seq(trim_seq(s));
    if l == "disabled"@ || l == "off"@ || l == "none"@ {
        Some(ThingdSyncMode::Disabled)
    } else if l == "http"@ {
        Some(ThingdSyncMode::Http)
    } else if l == "native"@ {
        Some(ThingdSyncMode::Native)
    } else {
        None
    }
}

impl ThingdSyncMode {
    /// Parses a configured sync mode.
    pub fn parse_str(value: &str) -> (r: Result<Self, ConfigError>)
        ensures
            match r {
                Ok(m) => sync_mode_of(value@) == Some(m),
                Err(e) => sync_mode_of(value@) is None && e@ == invalid(
                    "sync.mode"@,
                    value@,
                    "disabled, http, or native"@,
                ),
            },
    {
        let l = lower_chars(&trim_chars(&chars_of(value)));
        if chars_eq(&l, &chars_of("disabled")) || chars_eq(&l, &chars_of("off")) || chars_eq(
            &l,
            &chars_of("none"),
        ) {
            Ok(ThingdSyncMode::Disabled)
        } else if chars_eq(&l, &chars_of("http")) {
            Ok(ThingdSyncMode::Http)
        } else if chars_eq(&l, &chars_of("native")) {
            Ok(ThingdSyncMode::Native)
        } else {
            Err(ConfigError::invalid_value("sync.mode", owned(value), "disabled, http, or native"))
        }
    }
}

/// Storage configuration.
#[derive(Clone)]
pub struct StorageConfig {
    pub mode: StorageMode,
    pub persistent_path: Option<String>,
    pub http_url: Option<String>,
    /// Optional hosted thingd/cloud endpoint.
    pub cloud_url: Option<String>,
    /// Server-side credential for remote thingd/cloud storage.
    pub auth_token: Option<Secret<String>>,
    /// Optional 64-character hexadecimal Thingd persistent encryption key.
    pub encryption_key: Option<Secret<String>>,
    /// Optional `.thingd` schema document used for startup validation.
    pub schema_path: Option<String>,
}

impl Default for StorageConfig {
    fn default() -> (r: Self)
        ensures
            r.mode == StorageMode::Memory,
            r.persistent_path is None,
            r.http_url is None,
            r.cloud_url is None,
            r.auth_token is None,
            r.encryption_key is None,
            r.schema_path is None,
    {
        StorageConfig {
            mode: StorageMode::Memory,
            persistent_path: None,
            http_url: None,
            cloud_url: None,
            auth_token: None,
            encryption_key: None,
            schema_path: None,
        }
    }
}

/// Opt-in local-to-remote Thingd replication settings.
#[derive(Clone)]
pub struct SyncConfig {
    pub enabled: bool,
    pub mode: ThingdSyncMode,
    pub source_id: Option<String>,
    pub target_url: Option<String>,
    pub target_auth_token: Option<Secret<String>>,
    pub collections: Vec<String>,
    /// Explicitly opt into replicating every supported application collection.
    pub replicate_all: bool,
    /// Poll interval in seconds.
    pub poll_interval: u64,
    pub batch_size: u32,
    pub snapshot_fallback: bool,
}

pub fn default_sync_poll_interval() -> (r: u64)
    ensures
        r == 5,
{
    5
}

pub fn default_sync_batch_size() -> (r: u32)
    ensures
        r == 500,
{
    500
}

pub fn default_sync_snapshot_fallback() -> (r: bool)
    ensures
        r,
{
    true
}

impl Default for SyncConfig {
    fn default() -> (r: Self)
        ensures
            !r.enabled,
            r.mode == ThingdSyncMode::Disabled,
            r.source_id is None,
            r.target_url is None,
            r.target_auth_token is None,
            r.collections@.len() == 0,
            !r.replicate_all,
            r.poll_interval == 5,
            r.batch_size == 500,
            r.snapshot_fallback,
    {
        SyncConfig {
            enabled: false,
            mode: ThingdSyncMode::Disabled,
            source_id: None,
            target_url: None,
            target_auth_token: None,
            collections: Vec::new(),
            replicate_all: false,
            poll_interval: default_sync_poll_interval(),
            batch_size: default_sync_batch_size(),
            snapshot_fallback: default_sync_snapshot_fallback(),
        }
    }
}

/// An API key accepted by the server, with the subject and scopes it grants.
#[derive(Clone)]
pub struct ApiKeyEntry {
    pub key: Secret<String>,
    pub subject: String,
    pub scopes: Vec<String>,
}

/// Authentication configuration.
#[derive(Clone)]
pub struct AuthConfig {
    pub enabled: bool,
    pub jwt_secret: Option<Secret<String>>,
    pub api_key_header: String,
    pub api_keys: Vec<ApiKeyEntry>,
}

pub fn default_api_key_header() -> (r: String)
    ensures
        r@ == "X-API-Key"@,
{
    owned("X-API-Key")
}

impl Default for AuthConfig {
    fn default() -> (r: Self)
        ensures
            !r.enabled,
            r.jwt_secret is None,
            r.api_key_header@ == "X-API-Key"@,
            r.api_keys@.len() == 0,
    {
        AuthConfig {
            enabled: false,
            jwt_secret: None,
            api_key_header: default_api_key_header(),
            api_keys: Vec::new(),
        }
    }
}

/// Worker configuration.
#[derive(Debug, Clone)]
pub struct WorkerConfig {
    pub enabled: bool,
    pub queues: Vec<String>,
    /// Poll interval in seconds.
    pub poll_interval: u64,
    pub lease_seconds: u32,
    pub max_retries: u32,
    pub concurrency: u32,
}

pub fn default_worker_queues() -> (r: Vec<String>)
    ensures
        r@.len() == 1,
        r@[0]@ == "default"@,
{
    let mut v: Vec<String> = Vec::new();
    v.push(owned("default"));
    v
}

pub fn default_poll_interval() -> (r: u64)
    ensures
        r == 1,
{
    1
}

pub fn default_lease_seconds() -> (r: u32)
    ensures
        r == 30,
{
    30
}

pub fn default_max_retries() -> (r: u32)
    ensures
        r == 3,
{
    3
}

pub fn default_worker_concurrency() -> (r: u32)
    ensures
        r == 4,
{
    4
}

impl Default for WorkerConfig {
    fn default() -> (r: Self)
        ensures
            !r.enabled,
            r.queues@.len() == 1,
            r.queues@[0]@ == "default"@,
            r.poll_interval == 1,
            r.lease_seconds == 30,
            r.max_retries == 3,
            r.concurrency == 4,
    {
        WorkerConfig {
            enabled: false,
            queues: default_worker_queues(),
            poll_interval: default_poll_interval(),
            lease_seconds: default_lease_seconds(),
            max_retries: default_max_retries(),
            concurrency: default_worker_concurrency(),
        }
    }
}

/// Health check configuration.
#[derive(Debug, Clone, Copy)]
pub struct HealthConfig {
    /// Timeout of one check in seconds.
    pub check_timeout: u64,
    /// Delay before checks start, in seconds.
    pub startup_delay: u64,
}

pub fn default_health_timeout() -> (r: u64)
    ensures
        r == 5,
{
    5
}

pub fn default_startup_delay() -> (r: u64)
    ensures
        r == 0,
{
    0
}

impl Default for HealthConfig {
    fn default() -> (r: Self)
        ensures
            r.check_timeout == 5,
            r.startup_delay == 0,
    {
        HealthConfig { check_timeout: default_health_timeout(), startup_delay: default_startup_delay() }
    }
}

/// Log output format.
#[derive(Debug, Clone, Copy, PartialEq, Eq, Structural)]
pub enum LogFormat {
    Pretty,
    Json,
    Compact,
}

/// Logging configuration.
#[derive(Debug, Clone)]
pub struct LoggingConfig {
    pub level: String,
    pub format: LogFormat,
    /// Level at which successful requests are logged.
    pub request_level: String,
}

pub fn default_log_level() -> (r: String)
    ensures
        r@ == "info"@,
{
    owned("info")
}

impl Default for LoggingConfig {
    fn default() -> (r: Self)
        ensures
            r.level@ == "info"@,
            r.format == LogFormat::Pretty,
            r.request_level@ == "info"@,
    {
        LoggingConfig { level: default_log_level(), format: LogFormat::Pretty, request_level: default_log_level() }
    }
}

/// Application configuration.
#[derive(Clone)]
pub struct AppConfig {
    pub server: ServerConfig,
    pub storage: StorageConfig,
    pub auth: AuthConfig,
    pub logging: LoggingConfig,
    pub worker: WorkerConfig,
    pub health: HealthConfig,
    pub sync: SyncConfig,
}

/// The configuration that `AppConfig::default` returns.
pub open spec fn is_default_config(c: AppConfig) -> bool {
    &&& c.server.host@ == "127.0.0.1"@
    &&& c.server.port == 8888
    &&& c.server.request_timeout == 30
    &&& c.server.max_body_size == 1024 * 1024
    &&& c.server.shutdown_timeout == 10
    &&& c.storage.mode == StorageMode::Memory
    &&& c.storage.persistent_path is None
    &&& c.storage.http_url is None
    &&& c.storage.cloud_url is None
    &&& c.storage.auth_token is None
    &&& c.storage.encryption_key is None
    &&& c.storage.schema_path is None
    &&& !c.auth.enabled
    &&& c.auth.jwt_secret is None
    &&& c.auth.api_key_header@ == "X-API-Key"@
    &&& c.auth.api_keys@.len() == 0
    &&& c.logging.level@ == "info"@
    &&& c.logging.format == LogFormat::Pretty
    &&& c.logging.request_level@ == "info"@
    &&& !c.worker.enabled
    &&& c.worker.queues@.len() == 1
    &&& c.worker.queues@[0]@ == "default"@
    &&& c.worker.poll_interval == 1
    &&& c.worker.lease_seconds == 30
    &&& c.worker.max_retries == 3
    &&& c.worker.concurrency == 4
    &&& c.health.check_timeout == 5
    &&& c.health.startup_delay == 0
    &&& !c.sync.enabled
    &&& c.sync.mode == ThingdSyncMode::Disabled
    &&& c.sync.source_id is None
    &&& c.sync.target_url is None
    &&& c.sync.target_auth_token is None
    &&& c.sync.collections@.len() == 0
    &&& !c.sync.replicate_all
    &&& c.sync.poll_interval == 5
    &&& c.sync.batch_size == 500
    &&& c.sync.snapshot_fallback
}

impl Default for AppConfig {
    fn default() -> (r: Self)
        ensures
            is_default_config(r),
    {
        AppConfig {
            server: ServerConfig::default(),
            storage: StorageConfig::default(),
            auth: AuthConfig::default(),
            logging: LoggingConfig::default(),
            worker: WorkerConfig::default(),
            health: HealthConfig::default(),
            sync: SyncConfig::default(),
        }
    }
}

/// CLI overrides for configuration (highest precedence).
pub struct CliOverrides {
    pub host: Option<String>,
    pub port: Option<u16>,
    pub log_level: Option<String>,
    pub log_format: Option<LogFormat>,
    pub storage_mode: Option<String>,
}

impl CliOverrides {
    /// No overrides.
    pub open spec fn default_spec() -> CliOverrides {
        CliOverrides { host: None, port: None, log_level: None, log_format: None, storage_mode: None }
    }
}

impl Default for CliOverrides {
    fn default() -> (r: Self)
        ensures
            r.host is None,
            r.port is None,
            r.log_level is None,
            r.log_format is None,
            r.storage_mode is None,
    {
        CliOverrides { host: None, port: None, log_level: None, log_format: None, storage_mode: None }
    }
}

/// Configuration errors.
#[derive(Debug)]
pub enum ConfigError {
    InvalidValue { field: String, value: String, expected: String },
    MissingField { field: String, context: String },
    /// The configuration file could not be read.
    FileError { path: String, source: String },
    /// The configuration file is not valid TOML for this schema.
    ParseError(String),
}

/// The content of a configuration error.
pub enum ConfigErrorView {
    InvalidValue { field: Seq<char>, value: Seq<char>, expected: Seq<char> },
    MissingField { field: Seq<char>, context: Seq<char> },
    FileError { path: Seq<char>, source: Seq<char> },
    ParseError(Seq<char>),
}

impl View for ConfigError {
    type V = ConfigErrorView;

    open spec fn view(&self) -> ConfigErrorView {
        match self {
            ConfigError::InvalidValue { field, value, expected } => ConfigErrorView::InvalidValue {
                field: field@,
                value: value@,
                expected: expected@,
            },
            ConfigError::MissingField { field, context } => ConfigErrorView::MissingField {
                field: field@,
                context: context@,
            },
            ConfigError::FileError { path, source } => ConfigErrorView::FileError {
                path: path@,
                source: source@,
            },
            ConfigError::ParseError(m) => ConfigErrorView::ParseError(m@),
        }
    }
}

pub open spec fn missing(field: Seq<char>, context: Seq<char>) -> ConfigErrorView {
    ConfigErrorView::MissingField { field, context }
}

/// The display text of a configuration error.
pub open spec fn config_error_text(e: ConfigErrorView) -> Seq<char> {
    match e {
        ConfigErrorView::InvalidValue { field, value, expected } => "invalid value for "@ + field
            + ": '"@ + value + "' (expected "@ + expected + ")"@,
        ConfigErrorView::MissingField { field, context } => "missing required field '"@ + field
            + "': "@ + context,
        ConfigErrorView::FileError { path, source } => "failed to read config file "@ + path
            + ": "@ + source,
        ConfigErrorView::ParseError(m) => "failed to parse config: "@ + m,
    }
}

impl ConfigError {
    pub fn invalid_value(field: &str, value: String, expected: &str) -> (r: Self)
        ensures
            r@ == invalid(field@, value@, expected@),
    {
        ConfigError::InvalidValue { field: owned(field), value, expected: owned(expected) }
    }

    pub fn missing_field(field: &str, context: &str) -> (r: Self)
        ensures
            r@ == missing(field@, context@),
    {
        ConfigError::MissingField { field: owned(field), context: owned(context) }
    }

    /// The display text of the error.
    pub fn message(&self) -> (r: String)
        ensures
            r@ == config_error_text(self@),
    {
        match self {
            ConfigError::InvalidValue { field, value, expected } => {
                let mut s = owned("invalid value for ");
                push_text(&mut s, field.as_str());
                push_text(&mut s, ": '");
                push_text(&mut s, value.as_str());
                push_text(&mut s, "' (expected ");
                push_text(&mut s, expected.as_str());
                push_text(&mut s, ")");
                s
            },
            ConfigError::MissingField { field, context } => {
                let mut s = owned("missing required field '");
                push_text(&mut s, field.as_str());
                push_text(&mut s, "': ");
                push_text(&mut s, context.as_str());
                s
            },
            ConfigError::FileError { path, source } => {
                let mut s = owned("failed to read config file ");
                push_text(&mut s, path.as_str());
                push_text(&mut s, ": ");
                push_text(&mut s, source.as_str());
                s
            },
            ConfigError::ParseError(m) => {
                let mut s = owned("failed to parse config: ");
                push_text(&mut s, m.as_str());
                s
            },
        }
    }
}

impl vstd::std_specs::convert::FromSpecImpl<ConfigError> for AppError {
    open spec fn obeys_from_spec() -> bool {
        false
    }

    open spec fn from_spec(v: ConfigError) -> Self {
        arbitrary()
    }
}

impl From<ConfigError> for AppError {
    /// A configuration error is a validation error carrying its text.
    fn from(e: ConfigError) -> (r: Self)
        ensures
            r.kind == ErrorKind::Validation,
            r.message@ == config_error_text(e@),
            r.source is None,
    {
        AppError::from_message(ErrorKind::Validation, e.message())
    }
}

/// The first validation rule a configuration breaks, if any.
pub open spec fn validation_error(c: AppConfig) -> Option<ConfigErrorView> {
    if c.server.port == 0 {
        Some(invalid("port"@, "0"@, "a non-zero port number"@))
    } else if c.storage.mode == StorageMode::Persistent && c.storage.persistent_path is None {
        Some(missing("persistent_path"@, "required when storage mode is persistent"@))
    } else if c.storage.mode == StorageMode::Native && c.storage.persistent_path is None {
        Some(missing("persistent_path"@, "required when storage mode is native"@))
    } else if c.storage.mode == StorageMode::Http && c.storage.http_url is None {
        Some(missing("http_url"@, "required when storage mode is http"@))
    } else if c.storage.mode == StorageMode::Cloud && c.storage.cloud_url is None {
        Some(missing("cloud_url"@, "required when storage mode is cloud"@))
    } else if c.sync.enabled && c.sync.mode == ThingdSyncMode::Disabled {
        Some(invalid("sync.mode"@, "disabled"@, "http or native when sync is enabled"@))
    } else if c.sync.enabled && c.sync.mode == ThingdSyncMode::Native && c.storage.mode
        != StorageMode::Native {
        Some(
            invalid(
                "storage.mode"@,
                storage_mode_debug(c.storage.mode),
                "native when sync.mode is native"@,
            ),
        )
    } else if c.sync.enabled && c.sync.target_url is None {
        Some(missing("sync.target_url"@, "required when sync is enabled"@))
    } else if c.sync.enabled && (c.sync.source_id is None || c.sync.source_id->0@.len() == 0) {
        Some(missing("sync.source_id"@, "required when sync is enabled"@))
    } else if c.sync.enabled && c.sync.collections@.len() == 0 && !c.sync.replicate_all {
        Some(invalid("sync.collections"@, "empty"@, "a non-empty allowlist or sync.replicate_all=true"@))
    } else if c.sync.enabled && (c.sync.batch_size == 0 || c.sync.batch_size > 1000) {
        Some(invalid("sync.batch_size"@, decimal_seq(c.sync.batch_size as nat), "between 1 and 1000"@))
    } else if c.sync.enabled && c.sync.poll_interval == 0 {
        Some(invalid("sync.poll_interval"@, "0"@, "greater than zero"@))
    } else if c.worker.lease_seconds == 0 {
        Some(invalid("worker.lease_seconds"@, "0"@, "greater than zero"@))
    } else if c.worker.max_retries > 1_000_000 {
        Some(invalid("worker.max_retries"@, decimal_seq(c.worker.max_retries as nat), "a bounded retry count"@))
    } else {
        None
    }
}

/// The first production guardrail a configuration breaks, if any, after the
/// ordinary validation rules.
pub open spec fn production_error(c: AppConfig, require_schema_validation: bool) -> Option<ConfigErrorView> {
    if validation_error(c) is Some {
        validation_error(c)
    } else if c.storage.mode == StorageMode::Memory {
        Some(invalid("storage.mode"@, "memory"@, "native, http, or cloud in production"@))
    } else if !c.auth.enabled {
        Some(invalid("auth.enabled"@, "false"@, "true in production"@))
    } else if c.logging.format == LogFormat::Pretty {
        Some(invalid("logging.format"@, "pretty"@, "json or compact in production"@))
    } else if require_schema_validation && !(c.storage.mode == StorageMode::Http || c.storage.mode
        == StorageMode::Cloud) && c.storage.schema_path is None {
        Some(
            missing(
                "storage.schema_path"@,
                "required for native storage; HTTP mode uses the remote thingd schema"@,
            ),
        )
    } else {
        None
    }
}

/// A `Result` that is `Ok(())` exactly when `expected` holds no error.
pub open spec fn result_matches(r: Result<(), ConfigError>, expected: Option<ConfigErrorView>) -> bool {
    match r {
        Ok(()) => expected is None,
        Err(e) => expected == Some(e@),
    }
}

fn u64_text(n: u64) -> (r: String)
    ensures
        r@ == decimal_seq(n as nat),
{
    let mut s = String::new();
    push_decimal(&mut s, n);
    assert(s@ =~= decimal_seq(n as nat));
    s
}


/// The environment variables a configuration is read from, as name/value
/// pairs; when a name occurs twice the first pair counts.
pub struct EnvVars {
    pub vars: Vec<(String, String)>,
}

/// The value of `name` among `pairs`: the first pair with that name.
pub open spec fn lookup_pairs(pairs: Seq<(String, String)>, name: Seq<char>) -> Option<Seq<char>>
    decreases pairs.len(),
{
    if pairs.len() == 0 {
        None
    } else if pairs[0].0@ == name {
        Some(pairs[0].1@)
    } else {
        lookup_pairs(pairs.drop_first(), name)
    }
}

impl EnvVars {
    pub open spec fn lookup(&self, name: Seq<char>) -> Option<Seq<char>> {
        lookup_pairs(self.vars@, name)
    }

    /// An environment with no variables.
    pub fn new() -> (r: Self)
        ensures
            r.vars@.len() == 0,
            forall|n: Seq<char>| r.lookup(n) is None,
    {
        EnvVars { vars: Vec::new() }
    }

    /// Adds a variable; earlier values of the same name keep precedence.
    pub fn with(self, name: &str, value: &str) -> (r: Self)
        ensures
            r.vars@.len() == self.vars@.len() + 1,
            r.vars@.drop_last() == self.vars@,
            r.vars@.last().0@ == name@,
            r.vars@.last().1@ == value@,
    {
        let mut vars = self.vars;
        vars.push((owned(name), owned(value)));
        assert(vars@.drop_last() =~= self.vars@);
        EnvVars { vars }
    }

    /// The value of a variable, if set.
    pub fn get(&self, name: &str) -> (r: Option<String>)
        ensures
            match r {
                Some(v) => self.lookup(name@) == Some(v@),
                None => self.lookup(name@) is None,
            },
    {
        let mut i: usize = 0;
        assert(self.vars@.skip(0) =~= self.vars@);
        while i < self.vars.len()
            invariant
                i <= self.vars@.len(),
                lookup_pairs(self.vars@.skip(i as int), name@) == self.lookup(name@),
            decreases self.vars@.len() - i,
        {
            assert(self.vars@.skip(i as int).drop_first() =~= self.vars@.skip(i + 1));
            if text_eq(self.vars[i].0.as_str(), name) {
                return Some(self.vars[i].1.clone());
            }
            i = i + 1;
        }
        None
    }
}

/// The error a numeric variable causes: it is set and is not a number that
/// fits below `max`.
pub open spec fn number_error(
    env: EnvVars,
    name: Seq<char>,
    max: nat,
    field: Seq<char>,
    expected: Seq<char>,
) -> Option<ConfigErrorView> {
    match env.lookup(name) {
        Some(v) => if parse_unsigned_spec(v, max) is None {
            Some(invalid(field, v, expected))
        } else {
            None
        },
        None => None,
    }
}

/// The first of two possible errors.
pub open spec fn first_error(a: Option<ConfigErrorView>, b: Option<ConfigErrorView>) -> Option<ConfigErrorView> {
    if a is Some { a } else { b }
}

/// The log format a name denotes, after Unicode lower-casing.
pub open spec fn log_format_of(s: Seq<char>) -> Option<LogFormat> {
    log_format_named(unicode_lower(s))
}

/// The log format whose lower-case name is `l`.
pub open spec fn log_format_named(l: Seq<char>) -> Option<LogFormat> {
    if l == "pretty"@ {
        Some(LogFormat::Pretty)
    } else if l == "json"@ {
        Some(LogFormat::Json)
    } else if l == "compact"@ {
        Some(LogFormat::Compact)
    } else {
        None
    }
}

pub open spec fn u16_max() -> nat { 0xffff }
pub open spec fn u32_max() -> nat { 0xffff_ffff }
pub open spec fn u64_max() -> nat { 0xffff_ffff_ffff_ffff }
pub open spec fn usize_max() -> nat { usize::MAX as nat }

/// The first environment variable, in the order they are read, whose value
/// is not acceptable.
pub open spec fn env_error(env: EnvVars) -> Option<ConfigErrorView> {
    let secs = "a valid u64 (seconds)"@;
    first_error(number_error(env, "ARQEN_PORT"@, u16_max(), "port"@, "a valid u16"@),
    first_error(match env.lookup("ARQEN_STORAGE_MODE"@) {
        Some(v) => if storage_mode_of(v) is None {
            Some(invalid("storage_mode"@, v, "memory, native, persistent, http, or cloud"@))
        } else { None },
        None => None,
    },
    first_error(match env.lookup("ARQEN_SYNC_MODE"@) {
        Some(v) => if sync_mode_of(v) is None {
            Some(invalid("sync.mode"@, v, "disabled, http, or native"@))
        } else { None },
        None => None,
    },
    first_error(number_error(env, "ARQEN_SYNC_POLL_INTERVAL"@, u64_max(), "sync.poll_interval"@, secs),
    first_error(number_error(env, "ARQEN_SYNC_BATCH_SIZE"@, u32_max(), "sync.batch_size"@, "a valid u32"@),
    first_error(match env.lookup("ARQEN_LOG_FORMAT"@) {
        Some(v) => if log_format_of(v) is None {
            Some(invalid("log_format"@, v, "pretty, json, or compact"@))
        } else { None },
        None => None,
    },
    first_error(number_error(env, "ARQEN_WORKER_POLL_INTERVAL"@, u64_max(), "worker_poll_interval"@, secs),
    first_error(number_error(env, "ARQEN_WORKER_LEASE_SECONDS"@, u32_max(), "worker_lease_seconds"@, "a valid u32"@),
    first_error(number_error(env, "ARQEN_WORKER_MAX_RETRIES"@, u32_max(), "worker_max_retries"@, "a valid u32"@),
    first_error(number_error(env, "ARQEN_WORKER_CONCURRENCY"@, u32_max(), "worker_concurrency"@, "a valid u32"@),
    first_error(number_error(env, "ARQEN_HEALTH_CHECK_TIMEOUT"@, u64_max(), "health_check_timeout"@, secs),
    first_error(number_error(env, "ARQEN_HEALTH_STARTUP_DELAY"@, u64_max(), "health_startup_delay"@, secs),
    first_error(number_error(env, "ARQEN_REQUEST_TIMEOUT"@, u64_max(), "request_timeout"@, secs),
    first_error(number_error(env, "ARQEN_MAX_BODY_SIZE"@, usize_max(), "max_body_size"@, "a valid usize (bytes)"@),
    number_error(env, "ARQEN_SHUTDOWN_TIMEOUT"@, u64_max(), "shutdown_timeout"@, secs)))))))))))))))
}

/// A text field after an optional override: the variable's value if set.
pub open spec fn text_after(new: String, old: String, v: Option<Seq<char>>) -> bool {
    match v {
        Some(x) => new@ == x,
        None => new == old,
    }
}

/// An optional text field after an optional override.
pub open spec fn opt_text_after(new: Option<String>, old: Option<String>, v: Option<Seq<char>>) -> bool {
    match v {
        Some(x) => new matches Some(n) && n@ == x,
        None => new == old,
    }
}

/// An optional secret after an optional override.
pub open spec fn opt_secret_after(new: Option<Secret<String>>, old: Option<Secret<String>>, v: Option<Seq<char>>) -> bool {
    match v {
        Some(x) => new matches Some(n) && n.value()@ == x,
        None => new == old,
    }
}

/// A flag after an optional override: set when the value is `true` or `1`.
pub open spec fn flag_value(x: Seq<char>) -> bool {
    x == "true"@ || x == "1"@
}

pub open spec fn flag_after(new: bool, old: bool, v: Option<Seq<char>>) -> bool {
    match v {
        Some(x) => new == flag_value(x),
        None => new == old,
    }
}

/// A number after an optional override (whose value is known to parse).
pub open spec fn number_after(new: nat, old: nat, v: Option<Seq<char>>, max: nat) -> bool {
    match v {
        Some(x) => parse_unsigned_spec(x, max) == Some(new),
        None => new == old,
    }
}

/// A list after an optional override, given the list the value denotes.
pub open spec fn list_after(new: Vec<String>, old: Vec<String>, v: Option<Seq<char>>, items: spec_fn(Seq<char>) -> Seq<Seq<char>>) -> bool {
    match v {
        Some(x) => new@.len() == items(x).len() && forall|k: int| 0 <= k < new@.len() ==> #[trigger] new@[k]@ == items(x)[k],
        None => new == old,
    }
}

/// `ARQEN_SYNC_COLLECTIONS`: comma-separated, trimmed, empty names dropped.
pub open spec fn collection_names(x: Seq<char>) -> Seq<Seq<char>> {
    split_seq(x, ',').map_values(|p: Seq<char>| trim_seq(p)).filter(|p: Seq<char>| p.len() > 0)
}

/// `ARQEN_WORKER_QUEUES`: comma-separated and trimmed.
pub open spec fn queue_names(x: Seq<char>) -> Seq<Seq<char>> {
    split_seq(x, ',').map_values(|p: Seq<char>| trim_seq(p))
}

/// The server section after the environment variables are applied.
pub open spec fn server_env_applied(old: ServerConfig, env: EnvVars, new: ServerConfig) -> bool {
    &&& text_after(new.host, old.host, env.lookup("ARQEN_HOST"@))
    &&& number_after(new.port as nat, old.port as nat, env.lookup("ARQEN_PORT"@), u16_max())
    &&& number_after(new.request_timeout as nat, old.request_timeout as nat, env.lookup("ARQEN_REQUEST_TIMEOUT"@), u64_max())
    &&& number_after(new.max_body_size as nat, old.max_body_size as nat, env.lookup("ARQEN_MAX_BODY_SIZE"@), usize_max())
    &&& number_after(new.shutdown_timeout as nat, old.shutdown_timeout as nat, env.lookup("ARQEN_SHUTDOWN_TIMEOUT"@), u64_max())
}

/// The storage section after the environment variables are applied.
pub open spec fn storage_env_applied(old: StorageConfig, env: EnvVars, new: StorageConfig) -> bool {
    &&& new.mode == (match env.lookup("ARQEN_STORAGE_MODE"@) {
        Some(v) => storage_mode_of(v)->0,
        None => old.mode,
    })
    &&& opt_text_after(new.persistent_path, old.persistent_path, env.lookup("ARQEN_PERSISTENT_PATH"@))
    &&& opt_text_after(new.http_url, old.http_url, env.lookup("ARQEN_THINGD_URL"@))
    &&& opt_text_after(new.cloud_url, old.cloud_url, env.lookup("ARQEN_CLOUD_URL"@))
    &&& opt_secret_after(new.auth_token, old.auth_token, env.lookup("ARQEN_THINGD_AUTH_TOKEN"@))
    &&& opt_secret_after(new.encryption_key, old.encryption_key, env.lookup("ARQEN_THINGD_ENCRYPTION_KEY"@))
    &&& opt_text_after(new.schema_path, old.schema_path, env.lookup("ARQEN_THINGD_SCHEMA_PATH"@))
}

/// The sync section after the environment variables are applied: enabling
/// sync without naming a mode selects the HTTP transport.
pub open spec fn sync_env_applied(old: SyncConfig, env: EnvVars, new: SyncConfig) -> bool {
    &&& flag_after(new.enabled, old.enabled, env.lookup("ARQEN_SYNC_ENABLED"@))
    &&& new.mode == (match env.lookup("ARQEN_SYNC_MODE"@) {
        Some(v) => sync_mode_of(v)->0,
        None => if new.enabled && old.mode == ThingdSyncMode::Disabled {
            ThingdSyncMode::Http
        } else {
            old.mode
        },
    })
    &&& opt_text_after(new.source_id, old.source_id, env.lookup("ARQEN_SYNC_SOURCE_ID"@))
    &&& opt_text_after(new.target_url, old.target_url, env.lookup("ARQEN_SYNC_TARGET_URL"@))
    &&& opt_secret_after(new.target_auth_token, old.target_auth_token, env.lookup("ARQEN_SYNC_TARGET_AUTH_TOKEN"@))
    &&& list_after(new.collections, old.collections, env.lookup("ARQEN_SYNC_COLLECTIONS"@), |x: Seq<char>| collection_names(x))
    &&& flag_after(new.replicate_all, old.replicate_all, env.lookup("ARQEN_SYNC_REPLICATE_ALL"@))
    &&& number_after(new.poll_interval as nat, old.poll_interval as nat, env.lookup("ARQEN_SYNC_POLL_INTERVAL"@), u64_max())
    &&& number_after(new.batch_size as nat, old.batch_size as nat, env.lookup("ARQEN_SYNC_BATCH_SIZE"@), u32_max())
    &&& flag_after(new.snapshot_fallback, old.snapshot_fallback, env.lookup("ARQEN_SYNC_SNAPSHOT_FALLBACK"@))
}

/// The auth section after the environment variables are applied: a JWT
/// secret enables authentication.
pub open spec fn auth_env_applied(old: AuthConfig, env: EnvVars, new: AuthConfig) -> bool {
    &&& new.enabled == (env.lookup("ARQEN_JWT_SECRET"@) is Some || old.enabled)
    &&& opt_secret_after(new.jwt_secret, old.jwt_secret, env.lookup("ARQEN_JWT_SECRET"@))
    &&& text_after(new.api_key_header, old.api_key_header, env.lookup("ARQEN_API_KEY_HEADER"@))
    &&& new.api_keys == old.api_keys
}

/// The logging section after the environment variables are applied.
pub open spec fn logging_env_applied(old: LoggingConfig, env: EnvVars, new: LoggingConfig) -> bool {
    &&& text_after(new.level, old.level, env.lookup("ARQEN_LOG_LEVEL"@))
    &&& new.format == (match env.lookup("ARQEN_LOG_FORMAT"@) {
        Some(v) => log_format_of(v)->0,
        None => old.format,
    })
    &&& new.request_level == old.request_level
}

/// The worker section after the environment variables are applied.
pub open spec fn worker_env_applied(old: WorkerConfig, env: EnvVars, new: WorkerConfig) -> bool {
    &&& flag_after(new.enabled, old.enabled, env.lookup("ARQEN_WORKER_ENABLED"@))
    &&& list_after(new.queues, old.queues, env.lookup("ARQEN_WORKER_QUEUES"@), |x: Seq<char>| queue_names(x))
    &&& number_after(new.poll_interval as nat, old.poll_interval as nat, env.lookup("ARQEN_WORKER_POLL_INTERVAL"@), u64_max())
    &&& number_after(new.lease_seconds as nat, old.lease_seconds as nat, env.lookup("ARQEN_WORKER_LEASE_SECONDS"@), u32_max())
    &&& number_after(new.max_retries as nat, old.max_retries as nat, env.lookup("ARQEN_WORKER_MAX_RETRIES"@), u32_max())
    &&& number_after(new.concurrency as nat, old.concurrency as nat, env.lookup("ARQEN_WORKER_CONCURRENCY"@), u32_max())
}

/// The health section after the environment variables are applied.
pub open spec fn health_env_applied(old: HealthConfig, env: EnvVars, new: HealthConfig) -> bool {
    &&& number_after(new.check_timeout as nat, old.check_timeout as nat, env.lookup("ARQEN_HEALTH_CHECK_TIMEOUT"@), u64_max())
    &&& number_after(new.startup_delay as nat, old.startup_delay as nat, env.lookup("ARQEN_HEALTH_STARTUP_DELAY"@), u64_max())
}

/// The configuration after the environment variables are applied to `old`.
pub open spec fn env_applied(old: AppConfig, env: EnvVars, new: AppConfig) -> bool {
    &&& server_env_applied(old.server, env, new.server)
    &&& storage_env_applied(old.storage, env, new.storage)
    &&& sync_env_applied(old.sync, env, new.sync)
    &&& auth_env_applied(old.auth, env, new.auth)
    &&& logging_env_applied(old.logging, env, new.logging)
    &&& worker_env_applied(old.worker, env, new.worker)
    &&& health_env_applied(old.health, env, new.health)
}

/// The configuration after the CLI overrides are applied to `old`; a storage
/// mode override that does not parse is ignored.
pub open spec fn cli_applied(old: AppConfig, cli: CliOverrides, new: AppConfig) -> bool {
    &&& new.server.host == (match cli.host { Some(h) => h, None => old.server.host })
    &&& new.server.port == (match cli.port { Some(p) => p, None => old.server.port })
    &&& new.logging.level == (match cli.log_level { Some(l) => l, None => old.logging.level })
    &&& new.logging.format == (match cli.log_format { Some(f) => f, None => old.logging.format })
    &&& new.logging.request_level == old.logging.request_level
    &&& new.storage.mode == (match cli.storage_mode {
        Some(m) => match storage_mode_of(m@) {
            Some(parsed) => parsed,
            None => old.storage.mode,
        },
        None => old.storage.mode,
    })
    &&& new.server.request_timeout == old.server.request_timeout
    &&& new.server.max_body_size == old.server.max_body_size
    &&& new.server.shutdown_timeout == old.server.shutdown_timeout
    &&& new.storage.persistent_path == old.storage.persistent_path
    &&& new.storage.http_url == old.storage.http_url
    &&& new.storage.cloud_url == old.storage.cloud_url
    &&& new.storage.auth_token == old.storage.auth_token
    &&& new.storage.encryption_key == old.storage.encryption_key
    &&& new.storage.schema_path == old.storage.schema_path
    &&& new.auth == old.auth
    &&& new.worker == old.worker
    &&& new.health == old.health
    &&& new.sync == old.sync
}

fn env_number_error(env: &EnvVars, name: &str, max: u64, field: &str, expected: &str) -> (r: Option<ConfigError>)
    ensures
        match r {
            Some(e) => number_error(*env, name@, max as nat, field@, expected@) == Some(e@),
            None => number_error(*env, name@, max as nat, field@, expected@) is None,
        },
{
    match env.get(name) {
        Some(v) => match parse_unsigned(v.as_str(), max) {
            Some(_) => None,
            None => Some(ConfigError::invalid_value(field, v, expected)),
        },
        None => None,
    }
}

/// The first unacceptable environment variable, if any.
pub fn check_env(env: &EnvVars) -> (r: Option<ConfigError>)
    ensures
        match r {
            Some(e) => env_error(*env) == Some(e@),
            None => env_error(*env) is None,
        },
{
    let secs = "a valid u64 (seconds)";
    let e = env_number_error(env, "ARQEN_PORT", 0xffff, "port", "a valid u16");
    if e.is_some() { return e; }
    match env.get("ARQEN_STORAGE_MODE") {
        Some(v) => match StorageMode::parse_str(v.as_str()) {
            Ok(_) => {},
            Err(e) => { return Some(e); },
        },
        None => {},
    }
    match env.get("ARQEN_SYNC_MODE") {
        Some(v) => match ThingdSyncMode::parse_str(v.as_str()) {
            Ok(_) => {},
            Err(e) => { return Some(e); },
        },
        None => {},
    }
    let e = env_number_error(env, "ARQEN_SYNC_POLL_INTERVAL", 0xffff_ffff_ffff_ffff, "sync.poll_interval", secs);
    if e.is_some() { return e; }
    let e = env_number_error(env, "ARQEN_SYNC_BATCH_SIZE", 0xffff_ffff, "sync.batch_size", "a valid u32");
    if e.is_some() { return e; }
    match env.get("ARQEN_LOG_FORMAT") {
        Some(v) => match parse_log_format(v.as_str()) {
            Some(_) => {},
            None => { return Some(ConfigError::invalid_value("log_format", v, "pretty, json, or compact")); },
        },
        None => {},
    }
    let e = env_number_error(env, "ARQEN_WORKER_POLL_INTERVAL", 0xffff_ffff_ffff_ffff, "worker_poll_interval", secs);
    if e.is_some() { return e; }
    let e = env_number_error(env, "ARQEN_WORKER_LEASE_SECONDS", 0xffff_ffff, "worker_lease_seconds", "a valid u32");
    if e.is_some() { return e; }
    let e = env_number_error(env, "ARQEN_WORKER_MAX_RETRIES", 0xffff_ffff, "worker_max_retries", "a valid u32");
    if e.is_some() { return e; }
    let e = env_number_error(env, "ARQEN_WORKER_CONCURRENCY", 0xffff_ffff, "worker_concurrency", "a valid u32");
    if e.is_some() { return e; }
    let e = env_number_error(env, "ARQEN_HEALTH_CHECK_TIMEOUT", 0xffff_ffff_ffff_ffff, "health_check_timeout", secs);
    if e.is_some() { return e; }
    let e = env_number_error(env, "ARQEN_HEALTH_STARTUP_DELAY", 0xffff_ffff_ffff_ffff, "health_startup_delay", secs);
    if e.is_some() { return e; }
    let e = env_number_error(env, "ARQEN_REQUEST_TIMEOUT", 0xffff_ffff_ffff_ffff, "request_timeout", secs);
    if e.is_some() { return e; }
    let e = env_number_error(env, "ARQEN_MAX_BODY_SIZE", usize::MAX as u64, "max_body_size", "a valid usize (bytes)");
    if e.is_some() { return e; }
    env_number_error(env, "ARQEN_SHUTDOWN_TIMEOUT", 0xffff_ffff_ffff_ffff, "shutdown_timeout", secs)
}

/// Parses a log format name without regard to case.
pub fn parse_log_format(s: &str) -> (r: Option<LogFormat>)
    ensures
        r == log_format_of(s@),
        ascii_text(s@) ==> r == log_format_named(lower_seq(s@)),
{
    let l = chars_of(lower_text(s).as_str());
    if chars_eq(&l, &chars_of("pretty")) {
        Some(LogFormat::Pretty)
    } else if chars_eq(&l, &chars_of("json")) {
        Some(LogFormat::Json)
    } else if chars_eq(&l, &chars_of("compact")) {
        Some(LogFormat::Compact)
    } else {
        None
    }
}

/// Whether a flag value means "on": exactly `true` or `1`.
pub fn is_flag_on(v: &str) -> (r: bool)
    ensures
        r == flag_value(v@),
{
    text_eq(v, "true") || text_eq(v, "1")
}

/// Splits a comma-separated list, trimming each item and, when
/// `drop_empty`, dropping empty ones.
pub fn comma_list(v: &str, drop_empty: bool) -> (r: Vec<String>)
    ensures
        drop_empty ==> r@.len() == collection_names(v@).len() && forall|k: int| 0 <= k < r@.len() ==> #[trigger] r@[k]@ == collection_names(v@)[k],
        !drop_empty ==> r@.len() == queue_names(v@).len() && forall|k: int| 0 <= k < r@.len() ==> #[trigger] r@[k]@ == queue_names(v@)[k],
{
    let parts = split_chars(&chars_of(v), ',');
    let ghost pieces = split_seq(v@, ',');
    let ghost trimmed = pieces.map_values(|p: Seq<char>| trim_seq(p));
    let mut out: Vec<String> = Vec::new();
    let mut i: usize = 0;
    while i < parts.len()
        invariant
            i <= parts.len(),
            parts@.len() == pieces.len(),
            trimmed == pieces.map_values(|p: Seq<char>| trim_seq(p)),
            forall|k: int| 0 <= k < parts@.len() ==> #[trigger] parts@[k]@ == pieces[k],
            drop_empty ==> out@.len() == trimmed.take(i as int).filter(|p: Seq<char>| p.len() > 0).len()
                && forall|k: int| 0 <= k < out@.len() ==> #[trigger] out@[k]@ == trimmed.take(i as int).filter(|p: Seq<char>| p.len() > 0)[k],
            !drop_empty ==> out@.len() == i && forall|k: int| 0 <= k < i ==> #[trigger] out@[k]@ == trimmed[k],
        decreases parts.len() - i,
    {
        let t = trim_chars(&parts[i]);
        proof {
            assert(trimmed.take(i + 1) =~= trimmed.take(i as int).push(trimmed[i as int]));
            reveal_with_fuel(Seq::filter, 1);
            assert(trimmed.take(i + 1).drop_last() =~= trimmed.take(i as int));
        }
        if !drop_empty || t.len() > 0 {
            out.push(string_of(&t));
        }
        i = i + 1;
    }
    assert(trimmed.take(parts.len() as int) =~= trimmed);
    out
}

fn env_u64(env: &EnvVars, name: &str, max: u64, old: u64) -> (r: u64)
    requires
        old <= max,
        match env.lookup(name@) {
            Some(v) => parse_unsigned_spec(v, max as nat) is Some,
            None => true,
        },
    ensures
        r <= max,
        number_after(r as nat, old as nat, env.lookup(name@), max as nat),
{
    match env.get(name) {
        Some(v) => match parse_unsigned(v.as_str(), max) {
            Some(n) => n,
            None => old,
        },
        None => old,
    }
}

fn env_opt_text(env: &EnvVars, name: &str, old: Option<String>) -> (r: Option<String>)
    ensures
        opt_text_after(r, old, env.lookup(name@)),
{
    match env.get(name) {
        Some(v) => Some(v),
        None => old,
    }
}

fn env_opt_secret(env: &EnvVars, name: &str, old: Option<Secret<String>>) -> (r: Option<Secret<String>>)
    ensures
        opt_secret_after(r, old, env.lookup(name@)),
{
    match env.get(name) {
        Some(v) => Some(Secret::new(v)),
        None => old,
    }
}

fn env_flag(env: &EnvVars, name: &str, old: bool) -> (r: bool)
    ensures
        flag_after(r, old, env.lookup(name@)),
{
    match env.get(name) {
        Some(v) => is_flag_on(v.as_str()),
        None => old,
    }
}

fn env_server(s: &mut ServerConfig, env: &EnvVars)
    requires
        env_error(*env) is None,
    ensures
        server_env_applied(*old(s), *env, *final(s)),
{
    if let Some(v) = env.get("ARQEN_HOST") {
        s.host = v;
    }
    s.port = env_u64(env, "ARQEN_PORT", 0xffff, s.port as u64) as u16;
    s.request_timeout = env_u64(env, "ARQEN_REQUEST_TIMEOUT", 0xffff_ffff_ffff_ffff, s.request_timeout);
    s.max_body_size = env_u64(env, "ARQEN_MAX_BODY_SIZE", usize::MAX as u64, s.max_body_size as u64) as usize;
    s.shutdown_timeout = env_u64(env, "ARQEN_SHUTDOWN_TIMEOUT", 0xffff_ffff_ffff_ffff, s.shutdown_timeout);
}

fn env_storage(s: &mut StorageConfig, env: &EnvVars)
    requires
        env_error(*env) is None,
    ensures
        storage_env_applied(*old(s), *env, *final(s)),
{
    if let Some(v) = env.get("ARQEN_STORAGE_MODE") {
        if let Ok(m) = StorageMode::parse_str(v.as_str()) {
            s.mode = m;
        }
    }
    let cur = s.persistent_path.take();
    s.persistent_path = env_opt_text(env, "ARQEN_PERSISTENT_PATH", cur);
    let cur = s.http_url.take();
    s.http_url = env_opt_text(env, "ARQEN_THINGD_URL", cur);
    let cur = s.cloud_url.take();
    s.cloud_url = env_opt_text(env, "ARQEN_CLOUD_URL", cur);
    let cur = s.auth_token.take();
    s.auth_token = env_opt_secret(env, "ARQEN_THINGD_AUTH_TOKEN", cur);
    let cur = s.encryption_key.take();
    s.encryption_key = env_opt_secret(env, "ARQEN_THINGD_ENCRYPTION_KEY", cur);
    let cur = s.schema_path.take();
    s.schema_path = env_opt_text(env, "ARQEN_THINGD_SCHEMA_PATH", cur);
}

fn env_sync(s: &mut SyncConfig, env: &EnvVars)
    requires
        env_error(*env) is None,
    ensures
        sync_env_applied(*old(s), *env, *final(s)),
{
    s.enabled = env_flag(env, "ARQEN_SYNC_ENABLED", s.enabled);
    if let Some(v) = env.get("ARQEN_SYNC_MODE") {
        if let Ok(m) = ThingdSyncMode::parse_str(v.as_str()) {
            s.mode = m;
        }
    } else if s.enabled && s.mode == ThingdSyncMode::Disabled {
        s.mode = ThingdSyncMode::Http;
    }
    let cur = s.source_id.take();
    s.source_id = env_opt_text(env, "ARQEN_SYNC_SOURCE_ID", cur);
    let cur = s.target_url.take();
    s.target_url = env_opt_text(env, "ARQEN_SYNC_TARGET_URL", cur);
    let cur = s.target_auth_token.take();
    s.target_auth_token = env_opt_secret(env, "ARQEN_SYNC_TARGET_AUTH_TOKEN", cur);
    if let Some(v) = env.get("ARQEN_SYNC_COLLECTIONS") {
        s.collections = comma_list(v.as_str(), true);
    }
    s.replicate_all = env_flag(env, "ARQEN_SYNC_REPLICATE_ALL", s.replicate_all);
    s.poll_interval = env_u64(env, "ARQEN_SYNC_POLL_INTERVAL", 0xffff_ffff_ffff_ffff, s.poll_interval);
    s.batch_size = env_u64(env, "ARQEN_SYNC_BATCH_SIZE", 0xffff_ffff, s.batch_size as u64) as u32;
    s.snapshot_fallback = env_flag(env, "ARQEN_SYNC_SNAPSHOT_FALLBACK", s.snapshot_fallback);
}

fn env_auth(a: &mut AuthConfig, env: &EnvVars)
    ensures
        auth_env_applied(*old(a), *env, *final(a)),
{
    if let Some(v) = env.get("ARQEN_JWT_SECRET") {
        a.enabled = true;
        a.jwt_secret = Some(Secret::new(v));
    }
    if let Some(v) = env.get("ARQEN_API_KEY_HEADER") {
        a.api_key_header = v;
    }
}

fn env_logging(l: &mut LoggingConfig, env: &EnvVars)
    requires
        env_error(*env) is None,
    ensures
        logging_env_applied(*old(l), *env, *final(l)),
{
    if let Some(v) = env.get("ARQEN_LOG_LEVEL") {
        l.level = v;
    }
    if let Some(v) = env.get("ARQEN_LOG_FORMAT") {
        if let Some(f) = parse_log_format(v.as_str()) {
            l.format = f;
        }
    }
}

fn env_worker(w: &mut WorkerConfig, env: &EnvVars)
    requires
        env_error(*env) is None,
    ensures
        worker_env_applied(*old(w), *env, *final(w)),
{
    w.enabled = env_flag(env, "ARQEN_WORKER_ENABLED", w.enabled);
    if let Some(v) = env.get("ARQEN_WORKER_QUEUES") {
        w.queues = comma_list(v.as_str(), false);
    }
    w.poll_interval = env_u64(env, "ARQEN_WORKER_POLL_INTERVAL", 0xffff_ffff_ffff_ffff, w.poll_interval);
    w.lease_seconds = env_u64(env, "ARQEN_WORKER_LEASE_SECONDS", 0xffff_ffff, w.lease_seconds as u64) as u32;
    w.max_retries = env_u64(env, "ARQEN_WORKER_MAX_RETRIES", 0xffff_ffff, w.max_retries as u64) as u32;
    w.concurrency = env_u64(env, "ARQEN_WORKER_CONCURRENCY", 0xffff_ffff, w.concurrency as u64) as u32;
}

fn env_health(h: &mut HealthConfig, env: &EnvVars)
    requires
        env_error(*env) is None,
    ensures
        health_env_applied(*old(h), *env, *final(h)),
{
    h.check_timeout = env_u64(env, "ARQEN_HEALTH_CHECK_TIMEOUT", 0xffff_ffff_ffff_ffff, h.check_timeout);
    h.startup_delay = env_u64(env, "ARQEN_HEALTH_STARTUP_DELAY", 0xffff_ffff_ffff_ffff, h.startup_delay);
}


impl AppConfig {
    /// Applies the `ARQEN_*` environment variables. The first variable whose
    /// value is unacceptable is reported and nothing is applied.
    pub fn apply_env(self, env: &EnvVars) -> (r: Result<Self, ConfigError>)
        ensures
            match r {
                Ok(c) => env_error(*env) is None && env_applied(self, *env, c),
                Err(e) => env_error(*env) == Some(e@),
            },
    {
        if let Some(e) = check_env(env) {
            return Err(e);
        }
        let mut c = self;
        env_server(&mut c.server, env);
        env_storage(&mut c.storage, env);
        env_sync(&mut c.sync, env);
        env_auth(&mut c.auth, env);
        env_logging(&mut c.logging, env);
        env_worker(&mut c.worker, env);
        env_health(&mut c.health, env);
        Ok(c)
    }

    /// Applies the CLI overrides (the highest precedence layer).
    pub fn apply_cli(self, cli: CliOverrides) -> (r: Self)
        ensures
            cli_applied(self, cli, r),
    {
        let mut c = self;
        if let Some(host) = cli.host {
            c.server.host = host;
        }
        if let Some(port) = cli.port {
            c.server.port = port;
        }
        if let Some(level) = cli.log_level {
            c.logging.level = level;
        }
        if let Some(format) = cli.log_format {
            c.logging.format = format;
        }
        if let Some(mode) = cli.storage_mode {
            if let Ok(m) = StorageMode::parse_str(mode.as_str()) {
                c.storage.mode = m;
            }
        }
        c
    }

    /// Loads the configuration as `load` does, from the file that the
    /// caller chose and read (`arqen.toml` unless another path was given).
    pub fn load_with_file(cli: CliOverrides, file: Option<AppConfig>, env: &EnvVars) -> (r: Result<Self, ConfigError>)
        ensures
            match r {
                Ok(c) => env_error(*env) is None && validation_error(c) is None && exists|base: AppConfig, mid: AppConfig|
                    #![trigger env_applied(base, *env, mid)]
                    (match file { Some(f) => base == f, None => is_default_config(base) })
                    && env_applied(base, *env, mid) && cli_applied(mid, cli, c),
                Err(e) => env_error(*env) == Some(e@) || (env_error(*env) is None && exists|base: AppConfig, mid: AppConfig, fin: AppConfig|
                    #![trigger env_applied(base, *env, mid), cli_applied(mid, cli, fin)]
                    (match file { Some(f) => base == f, None => is_default_config(base) })
                    && env_applied(base, *env, mid) && cli_applied(mid, cli, fin)
                    && validation_error(fin) == Some(e@)),
            },
    {
        AppConfig::load(file, env, cli)
    }

    /// Loads the configuration through the full precedence chain: the
    /// parsed configuration file (or the defaults when there is none), then
    /// the environment, then the CLI overrides; the result is validated.
    pub fn load(file: Option<AppConfig>, env: &EnvVars, cli: CliOverrides) -> (r: Result<Self, ConfigError>)
        ensures
            match r {
                Ok(c) => env_error(*env) is None && validation_error(c) is None && exists|base: AppConfig, mid: AppConfig|
                    #![trigger env_applied(base, *env, mid)]
                    (match file { Some(f) => base == f, None => is_default_config(base) })
                    && env_applied(base, *env, mid) && cli_applied(mid, cli, c),
                Err(e) => env_error(*env) == Some(e@) || (env_error(*env) is None && exists|base: AppConfig, mid: AppConfig, fin: AppConfig|
                    #![trigger env_applied(base, *env, mid), cli_applied(mid, cli, fin)]
                    (match file { Some(f) => base == f, None => is_default_config(base) })
                    && env_applied(base, *env, mid) && cli_applied(mid, cli, fin)
                    && validation_error(fin) == Some(e@)),
            },
    {
        let base = match file {
            Some(f) => f,
            None => AppConfig::default(),
        };
        let ghost base_g = base;
        let mid = base.apply_env(env)?;
        let ghost mid_g = mid;
        let c = mid.apply_cli(cli);
        match c.validate() {
            Ok(()) => Ok(c),
            Err(e) => {
                assert(env_applied(base_g, *env, mid_g) && cli_applied(mid_g, cli, c));
                Err(e)
            },
        }
    }

    /// Loads the configuration with no CLI overrides.
    pub fn from_env(file: Option<AppConfig>, env: &EnvVars) -> (r: Result<Self, ConfigError>)
        ensures
            match r {
                Ok(c) => env_error(*env) is None && validation_error(c) is None && exists|base: AppConfig, mid: AppConfig|
                    #![trigger env_applied(base, *env, mid)]
                    (match file { Some(f) => base == f, None => is_default_config(base) })
                    && env_applied(base, *env, mid) && cli_applied(mid, CliOverrides::default_spec(), c),
                Err(e) => env_error(*env) == Some(e@) || (env_error(*env) is None && exists|base: AppConfig, mid: AppConfig, fin: AppConfig|
                    #![trigger env_applied(base, *env, mid), cli_applied(mid, CliOverrides::default_spec(), fin)]
                    (match file { Some(f) => base == f, None => is_default_config(base) })
                    && env_applied(base, *env, mid) && cli_applied(mid, CliOverrides::default_spec(), fin)
                    && validation_error(fin) == Some(e@)),
            },
    {
        let cli = CliOverrides::default();
        assert(cli == CliOverrides::default_spec());
        AppConfig::load(file, env, cli)
    }

    /// Checks the configuration rules, reporting the first one broken.
    pub fn validate(&self) -> (r: Result<(), ConfigError>)
        ensures
            result_matches(r, validation_error(*self)),
    {
        if self.server.port == 0 {
            return Err(ConfigError::invalid_value("port", owned("0"), "a non-zero port number"));
        }
        if self.storage.mode == StorageMode::Persistent && self.storage.persistent_path.is_none() {
            return Err(ConfigError::missing_field("persistent_path", "required when storage mode is persistent"));
        }
        if self.storage.mode == StorageMode::Native && self.storage.persistent_path.is_none() {
            return Err(ConfigError::missing_field("persistent_path", "required when storage mode is native"));
        }
        if self.storage.mode == StorageMode::Http && self.storage.http_url.is_none() {
            return Err(ConfigError::missing_field("http_url", "required when storage mode is http"));
        }
        if self.storage.mode == StorageMode::Cloud && self.storage.cloud_url.is_none() {
            return Err(ConfigError::missing_field("cloud_url", "required when storage mode is cloud"));
        }
        if self.sync.enabled {
            if self.sync.mode == ThingdSyncMode::Disabled {
                return Err(
                    ConfigError::invalid_value(
                        "sync.mode",
                        owned("disabled"),
                        "http or native when sync is enabled",
                    ),
                );
            }
            if self.sync.mode == ThingdSyncMode::Native && self.storage.mode != StorageMode::Native {
                return Err(
                    ConfigError::invalid_value(
                        "storage.mode",
                        owned(self.storage.mode.debug_name()),
                        "native when sync.mode is native",
                    ),
                );
            }
            if self.sync.target_url.is_none() {
                return Err(ConfigError::missing_field("sync.target_url", "required when sync is enabled"));
            }
            let source_missing = match &self.sync.source_id {
                Some(s) => s.as_str().is_empty(),
                None => true,
            };
            if source_missing {
                return Err(ConfigError::missing_field("sync.source_id", "required when sync is enabled"));
            }
            if self.sync.collections.len() == 0 && !self.sync.replicate_all {
                return Err(
                    ConfigError::invalid_value(
                        "sync.collections",
                        owned("empty"),
                        "a non-empty allowlist or sync.replicate_all=true",
                    ),
                );
            }
            if self.sync.batch_size == 0 || self.sync.batch_size > 1000 {
                return Err(
                    ConfigError::invalid_value(
                        "sync.batch_size",
                        u64_text(self.sync.batch_size as u64),
                        "between 1 and 1000",
                    ),
                );
            }
            if self.sync.poll_interval == 0 {
                return Err(ConfigError::invalid_value("sync.poll_interval", owned("0"), "greater than zero"));
            }
        }
        if self.worker.lease_seconds == 0 {
            return Err(ConfigError::invalid_value("worker.lease_seconds", owned("0"), "greater than zero"));
        }
        if self.worker.max_retries > 1_000_000 {
            return Err(
                ConfigError::invalid_value(
                    "worker.max_retries",
                    u64_text(self.worker.max_retries as u64),
                    "a bounded retry count",
                ),
            );
        }
        Ok(())
    }

    /// Checks the production guardrails, including the schema requirement.
    pub fn validate_production(&self) -> (r: Result<(), ConfigError>)
        ensures
            result_matches(r, production_error(*self, true)),
    {
        self.validate_production_with_schema_validation(true)
    }

    /// Checks the production guardrails; an application may defer native
    /// schema validation to its own startup workflow.
    pub fn validate_production_with_schema_validation(&self, require_schema_validation: bool) -> (r: Result<(), ConfigError>)
        ensures
            result_matches(r, production_error(*self, require_schema_validation)),
    {
        self.validate()?;
        if self.storage.mode == StorageMode::Memory {
            return Err(
                ConfigError::invalid_value(
                    "storage.mode",
                    owned("memory"),
                    "native, http, or cloud in production",
                ),
            );
        }
        if !self.auth.enabled {
            return Err(ConfigError::invalid_value("auth.enabled", owned("false"), "true in production"));
        }
        if self.logging.format == LogFormat::Pretty {
            return Err(
                ConfigError::invalid_value("logging.format", owned("pretty"), "json or compact in production"),
            );
        }
        if require_schema_validation && !(self.storage.mode == StorageMode::Http || self.storage.mode
            == StorageMode::Cloud) && self.storage.schema_path.is_none() {
            return Err(
                ConfigError::missing_field(
                    "storage.schema_path",
                    "required for native storage; HTTP mode uses the remote thingd schema",
                ),
            );
        }
        Ok(())
    }
}

} // verus!

verus! {

/// What a configuration that passes validation guarantees: a non-zero
/// port; the location its storage mode needs (a path for persistent and
/// native storage, a URL for HTTP and cloud storage); for enabled sync a
/// non-disabled mode, a target URL, a non-empty source id and a batch size
/// of 1 to 1000; and a non-zero lease.
pub proof fn lemma_valid_config_has_what_it_needs(c: AppConfig)
    requires
        validation_error(c) is None,
    ensures
        c.server.port != 0,
        c.storage.mode == StorageMode::Persistent ==> c.storage.persistent_path is Some,
        c.storage.mode == StorageMode::Native ==> c.storage.persistent_path is Some,
        c.storage.mode == StorageMode::Http ==> c.storage.http_url is Some,
        c.storage.mode == StorageMode::Cloud ==> c.storage.cloud_url is Some,
        c.sync.enabled ==> c.sync.mode != ThingdSyncMode::Disabled && c.sync.target_url is Some
            && c.sync.source_id is Some && c.sync.source_id->0@.len() > 0
            && 1 <= c.sync.batch_size <= 1000,
        c.worker.lease_seconds != 0,
{
}

/// A configuration whose storage mode needs a location it lacks is refused
/// by naming that location, unless its port is already refused: cloud
/// storage without `cloud_url`, HTTP storage without `http_url`, persistent
/// or native storage without `persistent_path`.
pub proof fn lemma_missing_storage_location_refused(c: AppConfig)
    requires
        c.server.port != 0,
    ensures
        c.storage.mode == StorageMode::Cloud && c.storage.cloud_url is None ==> validation_error(c) == Some(
            missing("cloud_url"@, "required when storage mode is cloud"@),
        ),
        c.storage.mode == StorageMode::Http && c.storage.http_url is None ==> validation_error(c) == Some(
            missing("http_url"@, "required when storage mode is http"@),
        ),
        c.storage.mode == StorageMode::Persistent && c.storage.persistent_path is None ==> validation_error(c)
            == Some(missing("persistent_path"@, "required when storage mode is persistent"@)),
        c.storage.mode == StorageMode::Native && c.storage.persistent_path is None ==> validation_error(c) == Some(
            missing("persistent_path"@, "required when storage mode is native"@),
        ),
{
}

} // verus!
