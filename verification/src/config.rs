//! Server configuration: the sections of every component with their
//! defaults, overrides taken from `DAV_*` environment variables, validation,
//! and reloading.
//!
//! Durations are in milliseconds; file paths are held as text.
use vstd::prelude::*;

use crate::async_pool::AsyncPoolConfig;
use crate::cache::CacheConfig;
use crate::data_access::DataAccessConfig;
use crate::performance::PerformanceConfig;
use crate::router::RouterConfig;
use crate::security::SecurityConfig;
use crate::text::{
    append_chars, append_str, chars_of, debug_quoted, debug_string, has_prefix, parse_unsigned,
    parse_unsigned_chars, starts_with, str_is, string_from_chars,
};

verus! {

/// Server-level configuration.
#[derive(Debug, Clone)]
pub struct ServerConfig {
    pub bind_address: String,
    pub port: u16,
    pub server_name: String,
    /// Largest request, in bytes.
    pub max_request_size: usize,
    pub request_timeout: u64,
    pub enable_tls: bool,
    pub tls_cert_path: Option<String>,
    pub tls_key_path: Option<String>,
    /// Worker threads; the number of processors when absent.
    pub worker_threads: Option<usize>,
    pub enable_graceful_shutdown: bool,
    pub graceful_shutdown_timeout: u64,
}

impl ServerConfig {
    /// The default server settings.
    pub open spec fn is_default(&self) -> bool {
        &&& self.bind_address@ == "0.0.0.0"@
        &&& self.port == 8080
        &&& self.server_name@ == "A3Mailer DAV Server"@
        &&& self.max_request_size == 100 * 1024 * 1024
        &&& self.request_timeout == 300_000
        &&& !self.enable_tls
        &&& self.tls_cert_path is None
        &&& self.tls_key_path is None
        &&& self.worker_threads is None
        &&& self.enable_graceful_shutdown
        &&& self.graceful_shutdown_timeout == 30_000
    }
}

impl Default for ServerConfig {
    fn default() -> (r: ServerConfig)
        ensures
            r.is_default(),
    {
        ServerConfig {
            bind_address: String::from_str("0.0.0.0"),
            port: 8080,
            server_name: String::from_str("A3Mailer DAV Server"),
            max_request_size: 100 * 1024 * 1024,
            request_timeout: 300_000,
            enable_tls: false,
            tls_cert_path: None,
            tls_key_path: None,
            worker_threads: None,
            enable_graceful_shutdown: true,
            graceful_shutdown_timeout: 30_000,
        }
    }
}

/// How log lines are written.
#[derive(Debug, Clone, Copy, PartialEq, Eq, Structural)]
pub enum LogFormat {
    Json,
    Text,
    Compact,
}

/// Where log lines go.
#[derive(Debug, Clone, Copy, PartialEq, Eq, Structural)]
pub enum LogOutput {
    Stdout,
    Stderr,
    File,
    Syslog,
}

/// Log file rotation.
#[derive(Debug, Clone, Copy, PartialEq, Eq, Structural)]
pub struct LogRotation {
    pub enabled: bool,
    /// Size, in bytes, at which a file is rotated.
    pub max_size: usize,
    /// Rotated files kept.
    pub max_files: usize,
    pub interval: u64,
}

impl Default for LogRotation {
    fn default() -> (r: LogRotation)
        ensures
            r == (LogRotation {
                enabled: true,
                max_size: 104_857_600,
                max_files: 10,
                interval: 86_400_000,
            }),
    {
        LogRotation { enabled: true, max_size: 100 * 1024 * 1024, max_files: 10, interval: 86_400_000 }
    }
}

/// Logging configuration.
#[derive(Debug, Clone)]
pub struct LoggingConfig {
    pub level: String,
    pub format: LogFormat,
    pub output: LogOutput,
    pub structured: bool,
    pub file_path: Option<String>,
    pub rotation: LogRotation,
    pub enable_request_logging: bool,
    pub enable_performance_logging: bool,
    pub enable_security_logging: bool,
}

impl LoggingConfig {
    /// The default logging settings.
    pub open spec fn is_default(&self) -> bool {
        &&& self.level@ == "info"@
        &&& self.format == LogFormat::Json
        &&& self.output == LogOutput::Stdout
        &&& self.structured
        &&& self.file_path is None
        &&& self.rotation == (LogRotation {
            enabled: true,
            max_size: 104_857_600,
            max_files: 10,
            interval: 86_400_000,
        })
        &&& self.enable_request_logging
        &&& self.enable_performance_logging
        &&& self.enable_security_logging
    }
}

impl Default for LoggingConfig {
    fn default() -> (r: LoggingConfig)
        ensures
            r.is_default(),
    {
        LoggingConfig {
            level: String::from_str("info"),
            format: LogFormat::Json,
            output: LogOutput::Stdout,
            structured: true,
            file_path: None,
            rotation: LogRotation::default(),
            enable_request_logging: true,
            enable_performance_logging: true,
            enable_security_logging: true,
        }
    }
}

/// Features that can be switched on and off.
#[derive(Debug, Clone, Copy, PartialEq, Eq, Structural)]
pub struct FeatureFlags {
    pub enable_webdav: bool,
    pub enable_caldav: bool,
    pub enable_carddav: bool,
    pub enable_principals: bool,
    pub enable_scheduling: bool,
    pub enable_acl: bool,
    pub enable_locking: bool,
    pub enable_versioning: bool,
    pub enable_search: bool,
    pub enable_sync_collection: bool,
    pub enable_experimental: bool,
}

/// Everything on but versioning and experimental features.
pub open spec fn default_features() -> FeatureFlags {
    FeatureFlags {
        enable_webdav: true,
        enable_caldav: true,
        enable_carddav: true,
        enable_principals: true,
        enable_scheduling: true,
        enable_acl: true,
        enable_locking: true,
        enable_versioning: false,
        enable_search: true,
        enable_sync_collection: true,
        enable_experimental: false,
    }
}

impl Default for FeatureFlags {
    fn default() -> (r: FeatureFlags)
        ensures
            r == default_features(),
    {
        FeatureFlags {
            enable_webdav: true,
            enable_caldav: true,
            enable_carddav: true,
            enable_principals: true,
            enable_scheduling: true,
            enable_acl: true,
            enable_locking: true,
            enable_versioning: false,
            enable_search: true,
            enable_sync_collection: true,
            enable_experimental: false,
        }
    }
}

/// The configuration of the whole server.
#[derive(Debug, Clone)]
pub struct DavServerConfig {
    pub server: ServerConfig,
    pub async_pool: AsyncPoolConfig,
    pub cache: CacheConfig,
    pub data_access: DataAccessConfig,
    pub performance: PerformanceConfig,
    pub security: SecurityConfig,
    pub router: RouterConfig,
    pub logging: LoggingConfig,
    pub features: FeatureFlags,
}

impl DavServerConfig {
    /// Every section at its default; the worker count depends on the
    /// machine and is at least four.
    pub open spec fn is_default(&self) -> bool {
        &&& self.server.is_default()
        &&& self.async_pool.max_concurrent_requests == 10000
        &&& self.async_pool.max_requests_per_ip == 100
        &&& self.async_pool.request_timeout == 30_000
        &&& self.async_pool.max_queue_size == 50000
        &&& self.async_pool.enable_batching
        &&& self.async_pool.batch_size == 10
        &&& self.async_pool.worker_count >= 4
        &&& self.cache.l1_size == 10000
        &&& self.data_access == (DataAccessConfig {
            max_connections: 100,
            min_connections: 10,
            connection_timeout: 30_000,
            query_timeout: 60_000,
            enable_query_cache: true,
            max_cached_queries: 1000,
            query_cache_ttl: 300_000,
            enable_prepared_statements: true,
            transaction_timeout: 300_000,
            enable_connection_validation: true,
        })
        &&& self.security.rate_limit_per_minute == 60
        &&& self.security.max_auth_failures == 5
        &&& self.security.block_duration == 300_000
        &&& self.security.max_path_depth == 10
        &&& self.logging.is_default()
        &&& self.features == default_features()
    }
}

/// The default configuration passes validation.
pub proof fn lemma_default_is_valid(c: DavServerConfig)
    requires
        c.is_default(),
    ensures
        validation_problem(c) is None,
{
    reveal_strlit("0.0.0.0");
}

impl Default for DavServerConfig {
    /// Every section at its default.
    fn default() -> (r: DavServerConfig)
        ensures
            r.is_default(),
    {
        DavServerConfig {
            server: ServerConfig::default(),
            async_pool: AsyncPoolConfig::default(),
            cache: CacheConfig::default(),
            data_access: DataAccessConfig::default(),
            performance: PerformanceConfig::default(),
            security: SecurityConfig::default(),
            router: RouterConfig::default(),
            logging: LoggingConfig::default(),
            features: FeatureFlags::default(),
        }
    }
}

/// Errors of configuration handling.
#[derive(Debug, Clone)]
pub enum ConfigError {
    /// The file at the path could not be read, with the reason.
    FileRead(String, String),
    /// The text is not valid in the format, with the parser's message.
    ParseError(String, String),
    /// The path's extension names no known format.
    UnsupportedFormat(String),
    ValidationError(String),
    /// An override variable with a value that does not fit its setting.
    InvalidOverride(String, String),
    NoConfigFile,
}

impl ConfigError {
    /// The error's message.
    pub open spec fn message(&self) -> Seq<char> {
        match self {
            ConfigError::FileRead(p, e) => "Failed to read config file "@ + debug_quoted(p@) + ": "@ + e@,
            ConfigError::ParseError(f, e) => "Failed to parse "@ + f@ + " config: "@ + e@,
            ConfigError::UnsupportedFormat(p) => "Unsupported config format: "@ + debug_quoted(p@),
            ConfigError::ValidationError(m) => "Configuration validation error: "@ + m@,
            ConfigError::InvalidOverride(k, v) => "Invalid environment override "@ + k@ + "="@ + v@,
            ConfigError::NoConfigFile => "No configuration file loaded"@,
        }
    }

    /// The error's message.
    pub fn to_string(&self) -> (r: String)
        ensures
            r@ == self.message(),
    {
        let mut t: Vec<char> = Vec::new();
        match self {
            ConfigError::FileRead(p, e) => {
                append_str(&mut t, "Failed to read config file ");
                let q = debug_string(p.as_str());
                append_str(&mut t, q.as_str());
                append_str(&mut t, ": ");
                append_str(&mut t, e.as_str());
            },
            ConfigError::ParseError(f, e) => {
                append_str(&mut t, "Failed to parse ");
                append_str(&mut t, f.as_str());
                append_str(&mut t, " config: ");
                append_str(&mut t, e.as_str());
            },
            ConfigError::UnsupportedFormat(p) => {
                append_str(&mut t, "Unsupported config format: ");
                let q = debug_string(p.as_str());
                append_str(&mut t, q.as_str());
            },
            ConfigError::ValidationError(m) => {
                append_str(&mut t, "Configuration validation error: ");
                append_str(&mut t, m.as_str());
            },
            ConfigError::InvalidOverride(k, v) => {
                append_str(&mut t, "Invalid environment override ");
                append_str(&mut t, k.as_str());
                append_str(&mut t, "=");
                append_str(&mut t, v.as_str());
            },
            ConfigError::NoConfigFile => append_str(&mut t, "No configuration file loaded"),
        }
        string_from_chars(t.as_slice())
    }
}

/// A configuration file format.
#[derive(Debug, Clone, Copy, PartialEq, Eq, Structural)]
pub enum ConfigFormat {
    Toml,
    Yaml,
    Json,
}

impl ConfigFormat {
    /// The format's name in parse errors.
    pub open spec fn label(self) -> Seq<char> {
        match self {
            ConfigFormat::Toml => "TOML"@,
            ConfigFormat::Yaml => "YAML"@,
            ConfigFormat::Json => "JSON"@,
        }
    }

    /// The format's name in parse errors.
    pub fn name(self) -> (r: &'static str)
        ensures
            r@ == self.label(),
    {
        match self {
            ConfigFormat::Toml => "TOML",
            ConfigFormat::Yaml => "YAML",
            ConfigFormat::Json => "JSON",
        }
    }
}

/// What `Path::extension` gives for a path: the text after the last `.`
/// of its file name, when there is one.
pub uninterp spec fn path_extension(path: Seq<char>) -> Option<Seq<char>>;

/// Trusted: calls `std::path::Path::extension` on the path; claims only
/// that the result is the named extension of the argument (lossily
/// converted to text).
#[verifier::external_body]
fn extension_of(path: &str) -> (r: Option<String>)
    ensures
        match r {
            Some(e) => path_extension(path@) == Some(e@),
            None => path_extension(path@) is None,
        },
{
    std::path::Path::new(path).extension().map(|e| e.to_string_lossy().into_owned())
}

/// The format of a configuration file, by the extension of its path.
pub open spec fn format_of(ext: Option<Seq<char>>) -> Option<ConfigFormat> {
    match ext {
        Some(e) => if e == "toml"@ {
            Some(ConfigFormat::Toml)
        } else if e == "yaml"@ || e == "yml"@ {
            Some(ConfigFormat::Yaml)
        } else if e == "json"@ {
            Some(ConfigFormat::Json)
        } else {
            None
        },
        None => None,
    }
}

/// The format of the configuration file at `path`: TOML for `.toml`, YAML
/// for `.yaml` and `.yml`, JSON for `.json`; any other path is refused.
pub fn config_format(path: &str) -> (r: Result<ConfigFormat, ConfigError>)
    ensures
        match format_of(path_extension(path@)) {
            Some(f) => r == Ok::<ConfigFormat, ConfigError>(f),
            None => r matches Err(ConfigError::UnsupportedFormat(p)) && p@ == path@,
        },
{
    match extension_of(path) {
        Some(e) => {
            proof {
                reveal_strlit("toml");
                reveal_strlit("yaml");
                reveal_strlit("yml");
                reveal_strlit("json");
            }
            if str_is(e.as_str(), "toml") {
                Ok(ConfigFormat::Toml)
            } else if str_is(e.as_str(), "yaml") || str_is(e.as_str(), "yml") {
                Ok(ConfigFormat::Yaml)
            } else if str_is(e.as_str(), "json") {
                Ok(ConfigFormat::Json)
            } else {
                Err(ConfigError::UnsupportedFormat(String::from_str(path)))
            }
        },
        None => Err(ConfigError::UnsupportedFormat(String::from_str(path))),
    }
}

/// The settings that overrides can change.
pub struct OverrideView {
    pub port: u16,
    pub bind_address: Seq<char>,
    pub server_name: Seq<char>,
    pub enable_tls: bool,
    pub max_concurrent_requests: usize,
    pub worker_count: usize,
    pub log_level: Seq<char>,
}

/// The overridable settings of a configuration.
pub open spec fn override_view(c: DavServerConfig) -> OverrideView {
    OverrideView {
        port: c.server.port,
        bind_address: c.server.bind_address@,
        server_name: c.server.server_name@,
        enable_tls: c.server.enable_tls,
        max_concurrent_requests: c.async_pool.max_concurrent_requests,
        worker_count: c.async_pool.worker_count,
        log_level: c.logging.level@,
    }
}

/// `b` differs from `a` at most in the overridable settings.
pub open spec fn same_but_overridable(a: DavServerConfig, b: DavServerConfig) -> bool {
    b == (DavServerConfig {
        server: ServerConfig {
            port: b.server.port,
            bind_address: b.server.bind_address,
            server_name: b.server.server_name,
            enable_tls: b.server.enable_tls,
            ..a.server
        },
        async_pool: AsyncPoolConfig {
            max_concurrent_requests: b.async_pool.max_concurrent_requests,
            worker_count: b.async_pool.worker_count,
            ..a.async_pool
        },
        logging: LoggingConfig { level: b.logging.level, ..a.logging },
        ..a
    })
}

/// What `str::parse::<bool>` gives.
pub open spec fn parse_bool(s: Seq<char>) -> Option<bool> {
    if s == "true"@ {
        Some(true)
    } else if s == "false"@ {
        Some(false)
    } else {
        None
    }
}

/// The settings after one override, or `None` when its value does not fit.
/// Unknown keys, and `DAV_ENABLE_CACHE`, change nothing.
pub open spec fn override_step(v: OverrideView, key: Seq<char>, value: Seq<char>) -> Option<OverrideView> {
    if key == "DAV_SERVER_PORT"@ {
        match parse_unsigned(value, 10, u16::MAX as nat) {
            Some(n) => Some(OverrideView { port: n as u16, ..v }),
            None => None,
        }
    } else if key == "DAV_SERVER_BIND_ADDRESS"@ {
        Some(OverrideView { bind_address: value, ..v })
    } else if key == "DAV_SERVER_NAME"@ {
        Some(OverrideView { server_name: value, ..v })
    } else if key == "DAV_ENABLE_TLS"@ {
        match parse_bool(value) {
            Some(b) => Some(OverrideView { enable_tls: b, ..v }),
            None => None,
        }
    } else if key == "DAV_MAX_CONCURRENT_REQUESTS"@ {
        match parse_unsigned(value, 10, usize::MAX as nat) {
            Some(n) => Some(OverrideView { max_concurrent_requests: n as usize, ..v }),
            None => None,
        }
    } else if key == "DAV_WORKER_COUNT"@ {
        match parse_unsigned(value, 10, usize::MAX as nat) {
            Some(n) => Some(OverrideView { worker_count: n as usize, ..v }),
            None => None,
        }
    } else if key == "DAV_LOG_LEVEL"@ {
        Some(OverrideView { log_level: value, ..v })
    } else {
        Some(v)
    }
}

/// The settings after applying overrides in order, or the first override
/// whose value does not fit.
pub open spec fn apply_all(v: OverrideView, ovs: Seq<(Seq<char>, Seq<char>)>) -> Result<OverrideView, (Seq<char>, Seq<char>)>
    decreases ovs.len(),
{
    if ovs.len() == 0 {
        Ok(v)
    } else {
        match apply_all(v, ovs.drop_last()) {
            Err(e) => Err(e),
            Ok(w) => match override_step(w, ovs.last().0, ovs.last().1) {
                Some(x) => Ok(x),
                None => Err(ovs.last()),
            },
        }
    }
}

/// The views of a list of overrides.
pub open spec fn override_pairs(ovs: Seq<(String, String)>) -> Seq<(Seq<char>, Seq<char>)> {
    ovs.map_values(|p: (String, String)| (p.0@, p.1@))
}

/// The override table after setting `k` to `v`: the entries named `k` take
/// the value, and a new name is added at the end.
pub open spec fn set_override(t: Seq<(Seq<char>, Seq<char>)>, k: Seq<char>, v: Seq<char>) -> Seq<
    (Seq<char>, Seq<char>),
> {
    if exists|i: int| 0 <= i < t.len() && #[trigger] t[i].0 == k {
        t.map_values(|p: (Seq<char>, Seq<char>)| if p.0 == k { (k, v) } else { p })
    } else {
        t.push((k, v))
    }
}

/// The override table after taking in the variables `vars` in order: each
/// whose name starts with `DAV_` sets its value.
pub open spec fn take_in_vars(t: Seq<(Seq<char>, Seq<char>)>, vars: Seq<(Seq<char>, Seq<char>)>) -> Seq<
    (Seq<char>, Seq<char>),
>
    decreases vars.len(),
{
    if vars.len() == 0 {
        t
    } else {
        let rest = take_in_vars(t, vars.drop_last());
        let last = vars.last();
        if starts_with(last.0, "DAV_"@) {
            set_override(rest, last.0, last.1)
        } else {
            rest
        }
    }
}

/// The first rule a configuration breaks, as its message.
pub open spec fn validation_problem(c: DavServerConfig) -> Option<Seq<char>> {
    if c.server.port == 0 {
        Some("Server port cannot be 0"@)
    } else if c.server.bind_address@.len() == 0 {
        Some("Server bind address cannot be empty"@)
    } else if c.server.enable_tls && c.server.tls_cert_path is None {
        Some("TLS certificate path required when TLS is enabled"@)
    } else if c.server.enable_tls && c.server.tls_key_path is None {
        Some("TLS private key path required when TLS is enabled"@)
    } else if c.async_pool.max_concurrent_requests == 0 {
        Some("Max concurrent requests cannot be 0"@)
    } else if c.async_pool.worker_count == 0 {
        Some("Worker count cannot be 0"@)
    } else if c.cache.l1_size == 0 {
        Some("L1 cache size cannot be 0"@)
    } else if c.data_access.max_connections == 0 {
        Some("Max database connections cannot be 0"@)
    } else if c.data_access.min_connections > c.data_access.max_connections {
        Some("Min connections cannot be greater than max connections"@)
    } else {
        None
    }
}

/// Builds the server configuration from defaults, a file and overrides.
#[derive(Debug)]
pub struct ConfigManager {
    pub config: DavServerConfig,
    /// The file the configuration was loaded from, if any.
    pub config_path: Option<String>,
    /// `DAV_*` environment variables, as name and value.
    pub environment_overrides: Vec<(String, String)>,
}

impl ConfigManager {
    /// A manager holding the default configuration, no file and no
    /// overrides.
    pub fn new() -> (r: ConfigManager)
        ensures
            r.config.is_default(),
            r.config_path is None,
            r.environment_overrides@.len() == 0,
    {
        ConfigManager { config: DavServerConfig::default(), config_path: None, environment_overrides: Vec::new() }
    }

    /// Applies one override. The port, TLS switch, request limit and worker
    /// count are parsed as `str::parse` does and an unparsable value is an
    /// error that changes nothing; the texts are taken as given; unknown
    /// keys change nothing.
    pub fn apply_override(&mut self, key: &str, value: &str) -> (r: Result<(), ConfigError>)
        ensures
            final(self).config_path == old(self).config_path,
            final(self).environment_overrides == old(self).environment_overrides,
            same_but_overridable(old(self).config, final(self).config),
            match override_step(override_view(old(self).config), key@, value@) {
                Some(v) => r is Ok && override_view(final(self).config) == v,
                None => (r matches Err(ConfigError::InvalidOverride(k, x)) && k@ == key@ && x@ == value@)
                    && override_view(final(self).config) == override_view(old(self).config),
            },
    {
        proof {
            reveal_strlit("DAV_SERVER_PORT");
            reveal_strlit("DAV_SERVER_BIND_ADDRESS");
            reveal_strlit("DAV_SERVER_NAME");
            reveal_strlit("DAV_ENABLE_TLS");
            reveal_strlit("DAV_MAX_CONCURRENT_REQUESTS");
            reveal_strlit("DAV_WORKER_COUNT");
            reveal_strlit("DAV_LOG_LEVEL");
            reveal_strlit("true");
            reveal_strlit("false");
        }
        let invalid = ConfigError::InvalidOverride(String::from_str(key), String::from_str(value));
        if str_is(key, "DAV_SERVER_PORT") {
            let cs = chars_of(value);
            match parse_unsigned_chars(cs.as_slice(), 10, 65535) {
                Some(n) => {
                    self.config.server.port = n as u16;
                },
                None => {
                    return Err(invalid);
                },
            }
        } else if str_is(key, "DAV_SERVER_BIND_ADDRESS") {
            self.config.server.bind_address = String::from_str(value);
        } else if str_is(key, "DAV_SERVER_NAME") {
            self.config.server.server_name = String::from_str(value);
        } else if str_is(key, "DAV_ENABLE_TLS") {
            if str_is(value, "true") {
                self.config.server.enable_tls = true;
            } else if str_is(value, "false") {
                self.config.server.enable_tls = false;
            } else {
                return Err(invalid);
            }
        } else if str_is(key, "DAV_MAX_CONCURRENT_REQUESTS") {
            let cs = chars_of(value);
            match parse_unsigned_chars(cs.as_slice(), 10, usize::MAX as u64) {
                Some(n) => {
                    self.config.async_pool.max_concurrent_requests = n as usize;
                },
                None => {
                    return Err(invalid);
                },
            }
        } else if str_is(key, "DAV_WORKER_COUNT") {
            let cs = chars_of(value);
            match parse_unsigned_chars(cs.as_slice(), 10, usize::MAX as u64) {
                Some(n) => {
                    self.config.async_pool.worker_count = n as usize;
                },
                None => {
                    return Err(invalid);
                },
            }
        } else if str_is(key, "DAV_LOG_LEVEL") {
            self.config.logging.level = String::from_str(value);
        }
        Ok(())
    }

    /// Installs the configuration read from the file at `path`.
    pub fn with_file_config(self, config: DavServerConfig, path: String) -> (r: ConfigManager)
        ensures
            r.config == config,
            r.config_path == Some(path),
            r.environment_overrides == self.environment_overrides,
    {
        ConfigManager { config, config_path: Some(path), environment_overrides: self.environment_overrides }
    }

    /// Takes in the process's environment variables, given as name and
    /// value: those whose name starts with `DAV_` become overrides, a value
    /// replacing the one held under the same name; the others are ignored.
    pub fn load_environment_overrides(self, vars: Vec<(String, String)>) -> (r: ConfigManager)
        ensures
            r.config == self.config,
            r.config_path == self.config_path,
            override_pairs(r.environment_overrides@) == take_in_vars(
                override_pairs(self.environment_overrides@),
                override_pairs(vars@),
            ),
    {
        let mut m = self;
        let prefix = chars_of("DAV_");
        let ghost vs = override_pairs(vars@);
        let mut i: usize = 0;
        while i < vars.len()
            invariant
                i <= vars@.len(),
                prefix@ == "DAV_"@,
                vs == override_pairs(vars@),
                m.config == self.config,
                m.config_path == self.config_path,
                override_pairs(m.environment_overrides@) == take_in_vars(
                    override_pairs(self.environment_overrides@),
                    vs.take(i as int),
                ),
            decreases vars@.len() - i,
        {
            assert(vs.take(i + 1).drop_last() =~= vs.take(i as int));
            assert(vs.take(i + 1).last() == vs[i as int]);
            let name = chars_of(vars[i].0.as_str());
            if has_prefix(name.as_slice(), prefix.as_slice()) {
                set_override_in(&mut m.environment_overrides, &vars[i].0, &vars[i].1);
            }
            i = i + 1;
        }
        assert(vs.take(vars@.len() as int) =~= vs);
        m
    }

    /// Applies the loaded overrides in order, stopping at the first whose
    /// value does not fit.
    pub fn apply_environment_overrides(self) -> (r: Result<ConfigManager, ConfigError>)
        ensures
            match apply_all(override_view(self.config), override_pairs(self.environment_overrides@)) {
                Ok(v) => r matches Ok(m) && override_view(m.config) == v && same_but_overridable(
                    self.config,
                    m.config,
                ) && m.config_path == self.config_path && m.environment_overrides
                    == self.environment_overrides,
                Err((k, x)) => r matches Err(ConfigError::InvalidOverride(k2, x2)) && k2@ == k && x2@ == x,
            },
    {
        let mut m = self;
        let n = m.environment_overrides.len();
        let ghost pairs = override_pairs(m.environment_overrides@);
        let mut i: usize = 0;
        while i < n
            invariant
                n == m.environment_overrides@.len(),
                i <= n,
                m.environment_overrides == self.environment_overrides,
                m.config_path == self.config_path,
                pairs == override_pairs(self.environment_overrides@),
                same_but_overridable(self.config, m.config),
                apply_all(override_view(self.config), pairs.take(i as int)) == Ok::<
                    OverrideView,
                    (Seq<char>, Seq<char>),
                >(override_view(m.config)),
            decreases n - i,
        {
            assert(pairs.take(i + 1).drop_last() =~= pairs.take(i as int));
            let key = m.environment_overrides[i].0.clone();
            let value = m.environment_overrides[i].1.clone();
            let ghost before = m.config;
            match m.apply_override(key.as_str(), value.as_str()) {
                Ok(()) => {},
                Err(e) => {
                    proof {
                        lemma_apply_all_stops(override_view(self.config), pairs, i as int);
                    }
                    return Err(e);
                },
            }
            i = i + 1;
        }
        assert(pairs.take(n as int) =~= pairs);
        Ok(m)
    }

    /// Checks the configuration: the port is not zero, the bind address is
    /// not empty, TLS has its certificate and key, the request limit, worker
    /// count, first-level cache and connection maximum are not zero, and the
    /// connection minimum does not exceed the maximum.
    pub fn validate(self) -> (r: Result<ConfigManager, ConfigError>)
        ensures
            match validation_problem(self.config) {
                None => r == Ok::<ConfigManager, ConfigError>(self),
                Some(m) => r matches Err(ConfigError::ValidationError(x)) && x@ == m,
            },
    {
        let c = &self.config;
        let problem: Option<&str> = if c.server.port == 0 {
            Some("Server port cannot be 0")
        } else if c.server.bind_address.as_str().unicode_len() == 0 {
            Some("Server bind address cannot be empty")
        } else if c.server.enable_tls && c.server.tls_cert_path.is_none() {
            Some("TLS certificate path required when TLS is enabled")
        } else if c.server.enable_tls && c.server.tls_key_path.is_none() {
            Some("TLS private key path required when TLS is enabled")
        } else if c.async_pool.max_concurrent_requests == 0 {
            Some("Max concurrent requests cannot be 0")
        } else if c.async_pool.worker_count == 0 {
            Some("Worker count cannot be 0")
        } else if c.cache.l1_size == 0 {
            Some("L1 cache size cannot be 0")
        } else if c.data_access.max_connections == 0 {
            Some("Max database connections cannot be 0")
        } else if c.data_access.min_connections > c.data_access.max_connections {
            Some("Min connections cannot be greater than max connections")
        } else {
            None
        };
        match problem {
            Some(m) => Err(ConfigError::ValidationError(String::from_str(m))),
            None => Ok(self),
        }
    }

    /// The configuration.
    pub fn build(self) -> (r: DavServerConfig)
        ensures
            r == self.config,
    {
        self.config
    }

    /// The configuration.
    pub fn config(&self) -> (r: &DavServerConfig)
        ensures
            *r == self.config,
    {
        &self.config
    }

    /// What reloading does with what reading the file gave (`loaded`),
    /// from this manager to `after`, returning `r`: a read failure is the
    /// result; otherwise the loaded manager's overrides are applied in
    /// order, a failing override being the result; the configuration that
    /// gives is validated, a problem being the result; a valid one replaces
    /// the configuration. Any failure leaves the configuration as it was.
    pub open spec fn reloaded(self, loaded: Result<ConfigManager, ConfigError>, after: ConfigManager, r: Result<(), ConfigError>) -> bool {
        &&& after.config_path == self.config_path
        &&& after.environment_overrides == self.environment_overrides
        &&& r is Err ==> after.config == self.config
        &&& match loaded {
            Err(e) => r == Err::<(), ConfigError>(e),
            Ok(m) => match apply_all(override_view(m.config), override_pairs(m.environment_overrides@)) {
                Err((k, x)) => r matches Err(ConfigError::InvalidOverride(k2, x2)) && k2@ == k && x2@ == x,
                Ok(v) => exists|c: DavServerConfig|
                    #![trigger override_view(c)]
                    override_view(c) == v && same_but_overridable(m.config, c) && match validation_problem(c) {
                        None => r is Ok && after.config == c,
                        Some(msg) => r matches Err(ConfigError::ValidationError(x)) && x@ == msg,
                    },
            },
        }
    }

    /// Reloads the configuration from its file: `load` is called with the
    /// stored path and reads the file into a fresh manager with the
    /// environment's overrides; what it gives is taken in as `reloaded`
    /// says. Without a stored path there is nothing to reload.
    pub fn reload<F: FnOnce(&String) -> Result<ConfigManager, ConfigError>>(&mut self, load: F) -> (r: Result<(), ConfigError>)
        requires
            forall|p: &String| #[trigger] load.requires((p,)),
        ensures
            old(self).config_path is None ==> r matches Err(ConfigError::NoConfigFile),
            old(self).config_path is None ==> *final(self) == *old(self),
            old(self).config_path matches Some(p) ==> exists|loaded: Result<ConfigManager, ConfigError>|
                call_ensures(load, (&p,), loaded) && old(self).reloaded(loaded, *final(self), r),
    {
        let loaded = match &self.config_path {
            Some(p) => load(p),
            None => {
                return Err(ConfigError::NoConfigFile);
            },
        };
        let ghost got = loaded;
        let r = self.take_reloaded(loaded);
        assert(old(self).reloaded(got, *self, r));
        r
    }

    /// Takes in what reading the configuration file gave; see `reloaded`.
    pub fn take_reloaded(&mut self, loaded: Result<ConfigManager, ConfigError>) -> (r: Result<(), ConfigError>)
        ensures
            old(self).reloaded(loaded, *final(self), r),
    {
        let loaded = match loaded {
            Ok(m) => m,
            Err(e) => {
                return Err(e);
            },
        };
        let applied = match loaded.apply_environment_overrides() {
            Ok(m) => m,
            Err(e) => {
                return Err(e);
            },
        };
        let ghost c = applied.config;
        let valid = match applied.validate() {
            Ok(m) => m,
            Err(e) => {
                assert(override_view(c) == override_view(c));
                return Err(e);
            },
        };
        assert(override_view(c) == override_view(c));
        self.config = valid.config;
        Ok(())
    }
}

/// Once an override fails, applying a longer list fails with the same
/// override.
proof fn lemma_apply_all_stops(v: OverrideView, pairs: Seq<(Seq<char>, Seq<char>)>, i: int)
    requires
        0 <= i < pairs.len(),
        apply_all(v, pairs.take(i)) is Ok,
        override_step(apply_all(v, pairs.take(i))->Ok_0, pairs[i].0, pairs[i].1) is None,
    ensures
        apply_all(v, pairs) == Err::<OverrideView, (Seq<char>, Seq<char>)>(pairs[i]),
    decreases pairs.len() - i,
{
    assert(pairs.take(i + 1).drop_last() =~= pairs.take(i));
    lemma_apply_all_failed_prefix(v, pairs, i + 1, pairs[i]);
}

/// A failure on a prefix is the failure of the whole list.
proof fn lemma_apply_all_failed_prefix(
    v: OverrideView,
    pairs: Seq<(Seq<char>, Seq<char>)>,
    k: int,
    e: (Seq<char>, Seq<char>),
)
    requires
        0 <= k <= pairs.len(),
        apply_all(v, pairs.take(k)) == Err::<OverrideView, (Seq<char>, Seq<char>)>(e),
    ensures
        apply_all(v, pairs) == Err::<OverrideView, (Seq<char>, Seq<char>)>(e),
    decreases pairs.len() - k,
{
    if k == pairs.len() {
        assert(pairs.take(k) =~= pairs);
    } else {
        assert(pairs.take(k + 1).drop_last() =~= pairs.take(k));
        lemma_apply_all_failed_prefix(v, pairs, k + 1, e);
    }
}


/// Sets the override `key` to `value` in `table`: each entry named `key`
/// takes the value; when there is none, the pair is added at the end.
fn set_override_in(table: &mut Vec<(String, String)>, key: &String, value: &String)
    ensures
        override_pairs(final(table)@) == set_override(override_pairs(old(table)@), key@, value@),
{
    let ghost t0 = override_pairs(old(table)@);
    let ghost k = key@;
    let ghost v = value@;
    let mut found = false;
    let mut j: usize = 0;
    while j < table.len()
        invariant
            j <= table@.len(),
            table@.len() == old(table)@.len(),
            t0 == override_pairs(old(table)@),
            k == key@,
            v == value@,
            found <==> exists|i: int| 0 <= i < j && #[trigger] t0[i].0 == k,
            forall|i: int|
                0 <= i < j ==> #[trigger] override_pairs(table@)[i] == (if t0[i].0 == k {
                    (k, v)
                } else {
                    t0[i]
                }),
            forall|i: int| j <= i < table@.len() ==> #[trigger] table@[i] == old(table)@[i],
        decreases table@.len() - j,
    {
        if str_is(table[j].0.as_str(), key.as_str()) {
            let ghost before = table@;
            table.set(j, (key.clone(), value.clone()));
            proof {
                assert forall|i: int| 0 <= i < j implies #[trigger] override_pairs(table@)[i] == override_pairs(
                    before,
                )[i] by {
                    assert(table@[i] == before[i]);
                }
            }
            found = true;
        }
        proof {
            assert(override_pairs(table@)[j as int] == (if t0[j as int].0 == k {
                (k, v)
            } else {
                t0[j as int]
            }));
        }
        j = j + 1;
    }
    if !found {
        let ghost mid = table@;
        proof {
            assert forall|i: int| 0 <= i < mid.len() implies #[trigger] override_pairs(mid)[i] == t0[i] by {
                assert(!(t0[i].0 == k));
            }
        }
        table.push((key.clone(), value.clone()));
        proof {
            assert forall|i: int| 0 <= i < mid.len() implies #[trigger] override_pairs(table@)[i] == t0[i] by {
                assert(table@[i] == mid[i]);
                assert(override_pairs(mid)[i] == t0[i]);
            }
            assert(override_pairs(table@) =~= t0.push((k, v)));
        }
    } else {
        proof {
            assert(override_pairs(table@) =~= t0.map_values(
                |p: (Seq<char>, Seq<char>)| if p.0 == k { (k, v) } else { p },
            ));
        }
    }
}


/// `c` with its database pool's minimum set to `m`.
pub open spec fn with_min_connections(c: DavServerConfig, m: usize) -> DavServerConfig {
    DavServerConfig { data_access: DataAccessConfig { min_connections: m, ..c.data_access }, ..c }
}

/// A database pool minimum up to the maximum, equal included, never makes a
/// configuration invalid: the outcome of validation is the same as with a
/// minimum of zero. A minimum above the maximum makes a configuration that
/// is otherwise valid invalid.
pub proof fn lemma_min_connections_up_to_max(c: DavServerConfig, m: usize)
    ensures
        m <= c.data_access.max_connections ==> validation_problem(with_min_connections(c, m)) == validation_problem(
            with_min_connections(c, 0),
        ),
        m > c.data_access.max_connections && validation_problem(with_min_connections(c, 0)) is None
            ==> validation_problem(with_min_connections(c, m)) is Some,
{
}

/// The default configuration stays valid with any database pool minimum
/// up to its maximum, a fixed-size pool included.
pub proof fn lemma_default_with_min_connections(c: DavServerConfig, m: usize)
    requires
        c.is_default(),
        m <= c.data_access.max_connections,
    ensures
        validation_problem(with_min_connections(c, m)) is None,
{
    lemma_default_is_valid(c);
    lemma_min_connections_up_to_max(c, m);
    lemma_min_connections_up_to_max(c, c.data_access.min_connections);
    assert(with_min_connections(c, c.data_access.min_connections) == c);
}

/// A configuration is valid exactly when the server has a port and a bind
/// address, TLS (when enabled) has both its certificate and key paths, the
/// request pool admits requests and has workers, the first cache level has
/// room, and the database pool has a maximum of at least one and a minimum
/// no greater than it.
pub proof fn lemma_valid_exactly_when(c: DavServerConfig)
    ensures
        validation_problem(c) is None <==> (c.server.port != 0 && c.server.bind_address@.len() > 0 && (
        c.server.enable_tls ==> c.server.tls_cert_path is Some && c.server.tls_key_path is Some)
            && c.async_pool.max_concurrent_requests > 0 && c.async_pool.worker_count > 0 && c.cache.l1_size > 0
            && c.data_access.max_connections > 0 && c.data_access.min_connections <= c.data_access.max_connections),
{
}
} // verus!
