//! The high-performance server front: security checks, the response cache,
//! admission to the concurrent processor and request metrics, combined for
//! each DAV request.
//!
//! Durations are in milliseconds.
use vstd::prelude::*;

use crate::async_pool::string_bytes;
use crate::cache::{CacheConfig, CacheKey, CacheStats, DavCache};
use crate::clock::Clock;
use crate::concurrency::{
    ConcurrencyConfig, ConcurrencyStats, ConcurrentProcessor, RequestPriority, RequestProcessor,
    RequestType,
};
use crate::connection_pool::{
    ConnectionFactory, ConnectionPoolConfig, ConnectionPoolStats, DavConnectionPool,
};
use crate::monitoring::{DavMetrics, RequestTracker};
use crate::performance::{DavPerformance, PerformanceConfig, PerformanceStats};
use crate::security::{DavSecurity, IpAddress, SecurityConfig, SecurityStats};
use crate::text::{append_str, chars_of, contains, contains_seq, str_is, string_from_chars};

verus! {

/// Configuration of the high-performance server.
#[derive(Debug, Clone)]
pub struct HighPerformanceConfig {
    pub concurrency: ConcurrencyConfig,
    pub connection_pool: ConnectionPoolConfig,
    pub cache: CacheConfig,
    pub performance: PerformanceConfig,
    pub security: SecurityConfig,
    pub enable_request_batching: bool,
    pub batch_size: usize,
    pub enable_adaptive_optimization: bool,
    pub optimization_interval: u64,
}

impl Default for HighPerformanceConfig {
    fn default() -> (r: HighPerformanceConfig)
        ensures
            r.concurrency.max_concurrent_requests == 10000,
            r.enable_request_batching,
            r.batch_size == 100,
            r.enable_adaptive_optimization,
            r.optimization_interval == 60_000,
    {
        HighPerformanceConfig {
            concurrency: ConcurrencyConfig::default(),
            connection_pool: ConnectionPoolConfig::default(),
            cache: CacheConfig::default(),
            performance: PerformanceConfig::default(),
            security: SecurityConfig::default(),
            enable_request_batching: true,
            batch_size: 100,
            enable_adaptive_optimization: true,
            optimization_interval: 60_000,
        }
    }
}

/// A response of the high-performance server.
#[derive(Debug, Clone)]
pub struct DavResponse {
    pub status: u16,
    pub headers: Vec<(String, String)>,
    pub body: Vec<u8>,
}

/// Statistics of every component.
#[derive(Debug, Clone)]
pub struct HighPerformanceStats {
    pub concurrency: ConcurrencyStats,
    pub connections: ConnectionPoolStats,
    pub cache: CacheStats,
    pub performance: PerformanceStats,
    pub security: SecurityStats,
}

/// Errors of the high-performance server.
#[derive(Debug, Clone)]
pub enum DavError {
    InvalidRequest(String),
    SecurityError(String),
    ConcurrencyError(String),
    ConnectionError(String),
    CacheError(String),
    ProcessingError(String),
}

impl DavError {
    /// The error's message.
    pub open spec fn message(&self) -> Seq<char> {
        match self {
            DavError::InvalidRequest(m) => "Invalid request: "@ + m@,
            DavError::SecurityError(m) => "Security error: "@ + m@,
            DavError::ConcurrencyError(m) => "Concurrency error: "@ + m@,
            DavError::ConnectionError(m) => "Connection error: "@ + m@,
            DavError::CacheError(m) => "Cache error: "@ + m@,
            DavError::ProcessingError(m) => "Processing error: "@ + m@,
        }
    }

    /// The error's message.
    pub fn to_string(&self) -> (r: String)
        ensures
            r@ == self.message(),
    {
        let mut t: Vec<char> = Vec::new();
        let (label, m) = match self {
            DavError::InvalidRequest(m) => ("Invalid request: ", m),
            DavError::SecurityError(m) => ("Security error: ", m),
            DavError::ConcurrencyError(m) => ("Concurrency error: ", m),
            DavError::ConnectionError(m) => ("Connection error: ", m),
            DavError::CacheError(m) => ("Cache error: ", m),
            DavError::ProcessingError(m) => ("Processing error: ", m),
        };
        append_str(&mut t, label);
        append_str(&mut t, m.as_str());
        string_from_chars(t.as_slice())
    }

    /// A security refusal, carrying the refusing error's message.
    pub fn from_security(err: &crate::error::DavError) -> (r: DavError)
        ensures
            r matches DavError::SecurityError(m) && m@ == err.message(),
    {
        DavError::SecurityError(err.to_string())
    }
}

/// The kind of work a method does.
pub open spec fn request_type_of(method: Seq<char>) -> RequestType {
    if method == "GET"@ || method == "PROPFIND"@ || method == "REPORT"@ {
        RequestType::Read
    } else if method == "PUT"@ || method == "PROPPATCH"@ || method == "DELETE"@ {
        RequestType::Write
    } else if method == "MKCOL"@ || method == "MKCALENDAR"@ {
        RequestType::Create
    } else if method == "COPY"@ || method == "MOVE"@ {
        RequestType::Move
    } else if method == "LOCK"@ || method == "UNLOCK"@ {
        RequestType::Lock
    } else if method == "ACL"@ {
        RequestType::Acl
    } else {
        RequestType::Read
    }
}

/// The priority of a request: administration paths first.
pub open spec fn request_priority_of(path: Seq<char>) -> RequestPriority {
    if contains_seq(path, "/admin/"@) {
        RequestPriority::High
    } else {
        RequestPriority::Normal
    }
}

/// The estimated processing time of a method, in milliseconds.
pub open spec fn processing_estimate(method: Seq<char>) -> u64 {
    if method == "GET"@ {
        10
    } else if method == "PROPFIND"@ {
        50
    } else if method == "PUT"@ {
        100
    } else if method == "DELETE"@ {
        30
    } else {
        20
    }
}

/// Methods whose responses are cached.
pub open spec fn cached_method(method: Seq<char>) -> bool {
    method == "GET"@ || method == "PROPFIND"@
}

/// The body the server answers a processed request with.
pub open spec fn processed_text(method: Seq<char>, path: Seq<char>) -> Seq<char> {
    "Processed "@ + method + " "@ + path
}

/// The work of one DAV request, as the concurrent processor sees it.
#[derive(Debug, Clone)]
pub struct DavRequestProcessor {
    pub method: String,
    pub path: String,
    pub headers: Vec<(String, String)>,
    pub body: Vec<u8>,
    pub cache_key: CacheKey,
    pub start_time: u64,
}

impl RequestProcessor for DavRequestProcessor {
    fn request_type(&self) -> (r: RequestType)
        ensures
            r == request_type_of(self.method@),
    {
        request_type_for(self.method.as_str())
    }

    fn priority(&self) -> (r: RequestPriority)
        ensures
            r == request_priority_of(self.path@),
    {
        priority_for(self.path.as_str())
    }

    fn estimated_duration(&self) -> (r: u64)
        ensures
            r == processing_estimate(self.method@),
    {
        estimate_for(self.method.as_str())
    }
}

/// The kind of work a method does.
pub fn request_type_for(method: &str) -> (r: RequestType)
    ensures
        r == request_type_of(method@),
{
    if str_is(method, "GET") || str_is(method, "PROPFIND") || str_is(method, "REPORT") {
        RequestType::Read
    } else if str_is(method, "PUT") || str_is(method, "PROPPATCH") || str_is(method, "DELETE") {
        RequestType::Write
    } else if str_is(method, "MKCOL") || str_is(method, "MKCALENDAR") {
        RequestType::Create
    } else if str_is(method, "COPY") || str_is(method, "MOVE") {
        RequestType::Move
    } else if str_is(method, "LOCK") || str_is(method, "UNLOCK") {
        RequestType::Lock
    } else if str_is(method, "ACL") {
        RequestType::Acl
    } else {
        RequestType::Read
    }
}

/// The priority of a request to `path`.
pub fn priority_for(path: &str) -> (r: RequestPriority)
    ensures
        r == request_priority_of(path@),
{
    let p = chars_of(path);
    if contains(p.as_slice(), chars_of("/admin/").as_slice()) {
        RequestPriority::High
    } else {
        RequestPriority::Normal
    }
}

/// The estimated processing time of a method, in milliseconds.
pub fn estimate_for(method: &str) -> (r: u64)
    ensures
        r == processing_estimate(method@),
{
    if str_is(method, "GET") {
        10
    } else if str_is(method, "PROPFIND") {
        50
    } else if str_is(method, "PUT") {
        100
    } else if str_is(method, "DELETE") {
        30
    } else {
        20
    }
}

/// Whether a request passes the security manager's checks at `now`: the
/// client's address is known, not blocked and under its rate limit, and the
/// path and the body size are valid.
pub open spec fn passes_security(
    security: DavSecurity,
    client_ip: Option<IpAddress>,
    path: Seq<char>,
    body_len: nat,
    now: u64,
) -> bool {
    &&& client_ip matches Some(ip)
    &&& !security.is_blocked_at(ip, now)
    &&& security.window_at(ip, now).0.len() < security.config.rate_limit_per_minute
    &&& crate::security::path_problem(path, security.config.max_path_depth as nat) is None
    &&& body_len <= security.config.max_body_size
}

/// The cached answer to a request: for `GET` and `PROPFIND`, what the cache
/// holds fresh at `now` under `method:path` in the `dav` namespace.
pub open spec fn cached_answer(cache: DavCache, method: Seq<char>, path: Seq<char>, now: u64) -> Option<
    (Seq<u8>, Seq<char>),
> {
    if method == "GET"@ || method == "PROPFIND"@ {
        cache.fresh_value(("dav"@, method + ":"@ + path, None), now)
    } else {
        None
    }
}

/// The high-performance server.
pub struct HighPerformanceDavServer<F: ConnectionFactory> {
    pub processor: ConcurrentProcessor,
    pub connection_pool: DavConnectionPool<F>,
    pub cache: DavCache,
    pub performance: DavPerformance,
    pub security: DavSecurity,
    pub metrics: DavMetrics,
    pub config: HighPerformanceConfig,
    pub clock: Clock,
}

impl<F: ConnectionFactory> HighPerformanceDavServer<F> {
    /// The server's invariant: its components are well formed.
    pub open spec fn wf(&self) -> bool {
        &&& self.processor.wf()
        &&& self.connection_pool.wf()
        &&& self.cache.wf()
        &&& self.performance.wf()
        &&& self.security.wf()
        &&& self.metrics.wf()
    }

    /// A server whose components are built from the sections of the
    /// configuration, with nothing queued, pooled or recorded.
    pub fn new(connection_factory: F, config: HighPerformanceConfig) -> (r: HighPerformanceDavServer<F>)
        ensures
            r.wf(),
            r.config == config,
            r.processor.config == config.concurrency,
            r.processor.active_requests.entries@.len() == 0,
            r.processor.metrics.total_requests == 0,
            r.connection_pool.config == config.connection_pool,
            r.connection_pool.pools.entries@.len() == 0,
            r.cache.config == config.cache,
            r.performance.config == config.performance,
            r.security.config.rate_limit_per_minute == config.security.rate_limit_per_minute,
            r.security.config.max_auth_failures == config.security.max_auth_failures,
            r.security.config.block_duration == config.security.block_duration,
            r.security.config.max_body_size == config.security.max_body_size,
            r.security.config.max_path_depth == config.security.max_path_depth,
            r.security.config.allowed_extensions@ == config.security.allowed_extensions@,
            r.security.config.enable_security_headers == config.security.enable_security_headers,
            r.security.rate_limits.entries@.len() == 0,
            r.security.blocked_ips.entries@.len() == 0,
    {
        let processor = ConcurrentProcessor::new(config.concurrency);
        let connection_pool = DavConnectionPool::new(connection_factory, config.connection_pool);
        let cache = DavCache::new(config.cache);
        let performance = DavPerformance::new(config.performance);
        let security = DavSecurity::new(config.security.duplicate());
        let metrics = DavMetrics::new();
        HighPerformanceDavServer {
            processor,
            connection_pool,
            cache,
            performance,
            security,
            metrics,
            config,
            clock: Clock::start(),
        }
    }

    /// What handling a request at `now` returns, from this state: a request
    /// that passes the security checks is answered from the cache (for
    /// `GET` and `PROPFIND`) or else queued with the processor and answered
    /// with a plain-text confirmation; refusals say which stage refused.
    pub open spec fn processed(
        self,
        client_ip: Option<IpAddress>,
        method: Seq<char>,
        path: Seq<char>,
        body_len: nat,
        now: u64,
        r: Result<DavResponse, DavError>,
    ) -> bool {
        let admitted = passes_security(self.security, client_ip, path, body_len, now);
        let hit = cached_answer(self.cache, method, path, now);
        &&& (r is Ok <==> admitted && (hit is Some || self.processor.admits(
            request_type_of(method),
        )))
        &&& (client_ip is None ==> (r matches Err(DavError::InvalidRequest(m)) && m@
            == "Invalid IP address"@))
        &&& (client_ip is Some && !admitted ==> (r matches Err(DavError::SecurityError(m))
            && exists|e: crate::error::DavError| #[trigger] e.message() == m@))
        &&& (client_ip matches Some(ip) && self.security.is_blocked_at(ip, now) ==> (r matches Err(
            DavError::SecurityError(m),
        ) && m@ == "Auth error ("@ + crate::error::status_words(403) + "): "@ + "IP address is blocked"@))
        &&& (admitted && hit is None && !self.processor.admits(request_type_of(method)) ==> (
        r matches Err(DavError::ConcurrencyError(m)) && exists|e: crate::concurrency::ConcurrencyError|
            #[trigger] e.message() == m@))
        &&& (r matches Ok(resp) ==> {
            &&& resp.status == 200
            &&& resp.headers@.len() == 1
            &&& resp.headers@[0].0@ == "Content-Type"@
            &&& match hit {
                Some((data, content_type)) => resp.body@ == data && resp.headers@[0].1@
                    == content_type,
                None => resp.body@ == vstd::utf8::encode_utf8(
                    "Processed "@ + method + " "@ + path,
                ) && resp.headers@[0].1@ == "text/plain"@,
            }
        })
    }

    /// Handles a DAV request now.
    pub fn process_dav_request(
        &mut self,
        client_ip: Option<IpAddress>,
        client: &str,
        method: &str,
        path: &str,
        headers: Vec<(String, String)>,
        body: Vec<u8>,
    ) -> (r: Result<DavResponse, DavError>)
        requires
            old(self).wf(),
        ensures
            final(self).wf(),
            final(self).config == old(self).config,
            exists|now: u64| #[trigger] old(self).processed(client_ip, method@, path@, body@.len(), now, r),
    {
        let now = self.clock.now_ms();
        let ghost body_len = body@.len();
        let r = self.process_dav_request_at(client_ip, client, method, path, headers, body, now);
        assert(old(self).processed(client_ip, method@, path@, body_len, now, r));
        r
    }

    /// Handles a DAV request at `now`: it is counted in the metrics; an
    /// unparsable client address is refused; the security manager checks
    /// the client, the path and the body size; a cached response to GET or
    /// PROPFIND is served; any other request is admitted to the concurrent
    /// processor, answered with a plain-text acknowledgement that is cached
    /// for GET and PROPFIND, and completed in the metrics. A refused request
    /// is completed in the metrics as an internal error.
    pub fn process_dav_request_at(
        &mut self,
        client_ip: Option<IpAddress>,
        client: &str,
        method: &str,
        path: &str,
        headers: Vec<(String, String)>,
        body: Vec<u8>,
        now: u64,
    ) -> (r: Result<DavResponse, DavError>)
        requires
            old(self).wf(),
        ensures
            final(self).wf(),
            final(self).config == old(self).config,
            old(self).processed(client_ip, method@, path@, body@.len(), now, r),
    {
        let tracker = RequestTracker::new(String::from_str(method), &mut self.metrics);
        let ip = match client_ip {
            Some(ip) => ip,
            None => {
                tracker.abandon(&mut self.metrics);
                return Err(DavError::InvalidRequest(String::from_str("Invalid IP address")));
            },
        };
        match self.security.check_rate_limit_at(ip, now) {
            Ok(()) => {},
            Err(e) => {
                tracker.abandon(&mut self.metrics);
                return Err(DavError::from_security(&e));
            },
        }
        match self.security.validate_path(path) {
            Ok(()) => {},
            Err(e) => {
                tracker.abandon(&mut self.metrics);
                return Err(DavError::from_security(&e));
            },
        }
        match self.security.validate_body_size(body.len()) {
            Ok(()) => {},
            Err(e) => {
                tracker.abandon(&mut self.metrics);
                return Err(DavError::from_security(&e));
            },
        }
        let mut key_text: Vec<char> = Vec::new();
        append_str(&mut key_text, method);
        append_str(&mut key_text, ":");
        append_str(&mut key_text, path);
        let cache_key = CacheKey {
            namespace: String::from_str("dav"),
            key: string_from_chars(key_text.as_slice()),
            version: None,
        };
        let cacheable = str_is(method, "GET") || str_is(method, "PROPFIND");
        if cacheable {
            match self.cache.get_at(&cache_key, now) {
                Some(cached) => {
                    let n = cached.data.len() as u64;
                    tracker.complete(&mut self.metrics, 200, n);
                    let mut headers_out: Vec<(String, String)> = Vec::new();
                    headers_out.push((String::from_str("Content-Type"), cached.content_type));
                    return Ok(DavResponse { status: 200, headers: headers_out, body: cached.data });
                },
                None => {},
            }
        }
        let work = DavRequestProcessor {
            method: String::from_str(method),
            path: String::from_str(path),
            headers,
            body,
            cache_key: CacheKey {
                namespace: cache_key.namespace.clone(),
                key: cache_key.key.clone(),
                version: None,
            },
            start_time: now,
        };
        let kind = request_type_for(method);
        let priority = priority_for(path);
        match self.processor.submit_at(client, kind, priority, now) {
            Ok(_) => {},
            Err(e) => {
                tracker.abandon(&mut self.metrics);
                return Err(DavError::ConcurrencyError(e.to_string()));
            },
        }
        let mut text: Vec<char> = Vec::new();
        append_str(&mut text, "Processed ");
        append_str(&mut text, method);
        append_str(&mut text, " ");
        append_str(&mut text, path);
        let response_body = string_bytes(string_from_chars(text.as_slice()));
        if cacheable {
            let copy = copy_bytes(&response_body);
            self.cache.put_at(&cache_key, copy, String::from_str("text/plain"), Some(300_000), now);
        }
        let n = response_body.len() as u64;
        tracker.complete(&mut self.metrics, 200, n);
        let mut headers_out: Vec<(String, String)> = Vec::new();
        headers_out.push((String::from_str("Content-Type"), String::from_str("text/plain")));
        Ok(DavResponse { status: 200, headers: headers_out, body: response_body })
    }

    /// Statistics of every component.
    pub fn get_performance_stats(&self) -> (r: HighPerformanceStats)
        requires
            self.wf(),
        ensures
            self.processor.reports_stats(r.concurrency),
            r.connections == self.connection_pool.metrics,
            self.cache.reports_stats(r.cache),
            r.performance == (PerformanceStats {
                cache_entries: self.performance.response_cache.entries@.len() as usize,
                property_cache_entries: self.performance.property_cache.entries@.len() as usize,
                total_requests: self.performance.metrics.total_requests,
                average_response_time: self.performance.metrics.average_response_time,
                compression_savings: self.performance.metrics.compression_savings,
                cache_hits: self.performance.metrics.cache_hits,
                cache_misses: self.performance.metrics.cache_misses,
                cache_evictions: self.performance.metrics.cache_evictions,
                active_connections: self.performance.connection_stats.active_connections,
            }),
            self.security.reports_stats(r.security),
    {
        HighPerformanceStats {
            concurrency: self.processor.get_performance_stats(),
            connections: self.connection_pool.get_metrics(),
            cache: self.cache.get_stats(),
            performance: self.performance.get_performance_stats(),
            security: self.security.get_security_stats(),
        }
    }

    /// Drops expired entries of the performance caches now.
    pub fn optimize_performance(&mut self)
        requires
            old(self).wf(),
        ensures
            final(self).wf(),
            exists|now: u64| #[trigger] old(self).performance.optimized(final(self).performance, now),
            *final(self) == (HighPerformanceDavServer { performance: final(self).performance, ..*old(self) }),
    {
        self.performance.optimize_cache();
    }
}

/// A copy of a byte vector.
fn copy_bytes(v: &Vec<u8>) -> (r: Vec<u8>)
    ensures
        r@ == v@,
{
    let r = v.clone();
    assert(r@ =~= v@);
    r
}

} // verus!
