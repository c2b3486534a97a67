//! The request router: security checks, resource resolution with a route
//! cache, priorities and duration estimates, and request preprocessing
//! hints.
//!
//! Durations are in milliseconds, measured routing times in nanoseconds.
use vstd::prelude::*;

use crate::async_pool::{AsyncRequestPool, RequestPriority};
use crate::clock::Clock;
use crate::counter::{elapsed, sat_add, spec_elapsed, spec_sat_add};
use crate::error::DavError;
use crate::lru::LruCache;
use crate::method::DavMethod;
use crate::monitoring::DavMetrics;
use crate::performance::DavPerformance;
use crate::request::DavResourceName;
use crate::security::{path_problem, DavSecurity, IpAddress};
use crate::text::{
    append_chars, append_str, chars_of, contains, contains_seq, decimal, decimal_chars, digit_char,
    ends_with, has_suffix, str_is, string_from_chars,
};

verus! {

/// Router configuration. Durations are in milliseconds.
#[derive(Debug, Clone, Copy, PartialEq, Eq, Structural)]
pub struct RouterConfig {
    pub enable_route_cache: bool,
    pub max_cached_routes: usize,
    pub route_cache_ttl: u64,
    pub enable_preprocessing: bool,
    pub enable_monitoring: bool,
    pub request_timeout: u64,
    pub enable_batching: bool,
    pub batch_size: usize,
}

impl Default for RouterConfig {
    fn default() -> (r: RouterConfig)
        ensures
            r == (RouterConfig {
                enable_route_cache: true,
                max_cached_routes: 10000,
                route_cache_ttl: 300_000,
                enable_preprocessing: true,
                enable_monitoring: true,
                request_timeout: 30_000,
                enable_batching: true,
                batch_size: 10,
            }),
    {
        RouterConfig {
            enable_route_cache: true,
            max_cached_routes: 10000,
            route_cache_ttl: 300_000,
            enable_preprocessing: true,
            enable_monitoring: true,
            request_timeout: 30_000,
            enable_batching: true,
            batch_size: 10,
        }
    }
}

/// A resolved route in the cache.
#[derive(Debug, Clone, Copy, PartialEq, Eq, Structural)]
pub struct CachedRoute {
    pub resource: DavResourceName,
    pub cached_at: u64,
    pub access_count: u64,
    pub last_accessed: u64,
}

/// Counters of the router.
#[derive(Debug, Clone, Copy, PartialEq, Eq, Structural)]
pub struct RouterStats {
    pub total_requests: u64,
    pub cached_routes: u64,
    pub route_cache_hits: u64,
    pub route_cache_misses: u64,
    /// Running average of preprocessing times, in nanoseconds.
    pub preprocessing_time: u64,
    /// Running average of routing times, in nanoseconds.
    pub routing_time: u64,
    pub failed_routes: u64,
}

/// What the router found for a request.
#[derive(Debug, Clone)]
pub struct RouteInfo {
    pub resource: DavResourceName,
    pub method: DavMethod,
    pub path: String,
    pub priority: RequestPriority,
    /// Estimated processing time, in milliseconds.
    pub estimated_duration: u64,
    pub requires_auth: bool,
    pub cacheable: bool,
}

impl RouteInfo {
    fn copy(&self) -> (r: RouteInfo)
        ensures
            r == *self,
    {
        RouteInfo {
            resource: self.resource,
            method: self.method,
            path: self.path.clone(),
            priority: self.priority,
            estimated_duration: self.estimated_duration,
            requires_auth: self.requires_auth,
            cacheable: self.cacheable,
        }
    }
}

/// An optimization the preprocessor found, with its description.
#[derive(Debug, Clone)]
pub enum RouteOptimization {
    CacheHit(String),
    Compression(String),
    Batching(String),
    Prefetch(String),
}

/// The result of preprocessing a request.
#[derive(Debug, Clone)]
pub struct PreprocessResult {
    pub route_info: RouteInfo,
    pub optimizations: Vec<RouteOptimization>,
    pub warnings: Vec<String>,
}

/// Router statistics.
#[derive(Debug, Clone, Copy, PartialEq, Eq, Structural)]
pub struct RouterPerformanceStats {
    pub total_requests: u64,
    pub cached_routes: usize,
    pub route_cache_hits: u64,
    pub route_cache_misses: u64,
    /// In nanoseconds.
    pub average_routing_time: u64,
    /// In nanoseconds.
    pub average_preprocessing_time: u64,
    pub failed_routes: u64,
}

/// The kind of resource a path addresses, by the first matching marker:
/// calendar, address book, file, principal, scheduling; files otherwise.
pub open spec fn resource_of(path: Seq<char>) -> DavResourceName {
    if contains_seq(path, "/calendar/"@) || contains_seq(path, "/cal/"@) {
        DavResourceName::Cal
    } else if contains_seq(path, "/addressbook/"@) || contains_seq(path, "/card/"@) {
        DavResourceName::Card
    } else if contains_seq(path, "/files/"@) || contains_seq(path, "/file/"@) {
        DavResourceName::File
    } else if contains_seq(path, "/principal/"@) {
        DavResourceName::Principal
    } else if contains_seq(path, "/scheduling/"@) {
        DavResourceName::Scheduling
    } else {
        DavResourceName::File
    }
}

/// The value of header `name` in a header list: the first pair with that
/// exact name.
pub open spec fn header_value(headers: Seq<(String, String)>, name: Seq<char>) -> Option<Seq<char>> {
    if exists|i: int| 0 <= i < headers.len() && #[trigger] headers[i].0@ == name {
        let i = choose|i: int|
            0 <= i < headers.len() && #[trigger] headers[i].0@ == name && forall|j: int|
                0 <= j < i ==> headers[j].0@ != name;
        Some(headers[i].1@)
    } else {
        None
    }
}

/// The priority of a request: administration paths and locking first,
/// infinite-depth requests last.
pub open spec fn priority_of(method: DavMethod, path: Seq<char>, headers: Seq<(String, String)>) -> RequestPriority {
    if contains_seq(path, "/admin/"@) {
        RequestPriority::High
    } else if method == DavMethod::LOCK || method == DavMethod::UNLOCK {
        RequestPriority::High
    } else if header_value(headers, "depth"@) == Some("infinity"@) {
        RequestPriority::Low
    } else {
        RequestPriority::Normal
    }
}

/// The estimated processing time of a method on a resource, in
/// milliseconds.
pub open spec fn duration_of(method: DavMethod, resource: DavResourceName) -> u64 {
    match method {
        DavMethod::GET => 10,
        DavMethod::PROPFIND => 50,
        DavMethod::PUT => if resource == DavResourceName::File {
            200
        } else {
            100
        },
        DavMethod::DELETE => 30,
        DavMethod::COPY | DavMethod::MOVE => 150,
        DavMethod::REPORT => 100,
        _ => 50,
    }
}

/// Methods whose responses may be cached.
pub open spec fn cacheable_method(method: DavMethod) -> bool {
    method == DavMethod::GET || method == DavMethod::PROPFIND || method == DavMethod::REPORT
}

/// A byte counted as text: printable ASCII or ASCII white space (space,
/// tab, line feed, form feed, carriage return).
pub open spec fn is_text_byte(b: u8) -> bool {
    (0x21 <= b && b <= 0x7e) || b == 0x20 || b == 0x09 || b == 0x0a || b == 0x0c || b == 0x0d
}

/// The number of text bytes among the first `n` bytes of `s`.
pub open spec fn text_bytes(s: Seq<u8>, n: int) -> nat
    decreases n,
{
    if n <= 0 {
        0
    } else {
        text_bytes(s, n - 1) + if is_text_byte(s[n - 1]) {
            1nat
        } else {
            0nat
        }
    }
}

/// The estimated compression savings of a body, in percent: none below a
/// kilobyte, then by the share of text bytes.
pub open spec fn savings_of(body: Seq<u8>) -> u32 {
    if body.len() < 1024 {
        0
    } else {
        let pct = text_bytes(body, body.len() as int) * 100 / body.len();
        if pct > 80 {
            60
        } else if pct > 50 {
            30
        } else {
            10
        }
    }
}

/// The key under which a route is cached.
pub open spec fn route_key(path: Seq<char>, method: DavMethod) -> Seq<char> {
    path + ":"@ + method.name()
}

/// The digits of a millisecond remainder below a thousand written as three
/// decimals, trailing zeros dropped.
pub open spec fn fraction_digits(f: nat) -> Seq<char> {
    let d1 = f / 100;
    let d2 = (f / 10) % 10;
    let d3 = f % 10;
    if d3 != 0 {
        seq![digit_char(d1), digit_char(d2), digit_char(d3)]
    } else if d2 != 0 {
        seq![digit_char(d1), digit_char(d2)]
    } else {
        seq![digit_char(d1)]
    }
}

/// A whole number of milliseconds as `Duration`'s `Debug` form writes it:
/// `0ns`, `Nms` below a second, seconds with a decimal fraction above.
pub open spec fn duration_text(ms: nat) -> Seq<char> {
    if ms == 0 {
        "0ns"@
    } else if ms < 1000 {
        decimal(ms) + "ms"@
    } else if ms % 1000 == 0 {
        decimal(ms / 1000) + "s"@
    } else {
        decimal(ms / 1000) + "."@ + fraction_digits(ms % 1000) + "s"@
    }
}

/// An optimization as its kind (0 cache validation, 1 compression,
/// 2 batching, 3 prefetching) and its description.
pub open spec fn optimization_view(o: RouteOptimization) -> (int, Seq<char>) {
    match o {
        RouteOptimization::CacheHit(s) => (0, s@),
        RouteOptimization::Compression(s) => (1, s@),
        RouteOptimization::Batching(s) => (2, s@),
        RouteOptimization::Prefetch(s) => (3, s@),
    }
}

/// An optional item as a sequence of at most one.
pub open spec fn maybe<A>(o: Option<A>) -> Seq<A> {
    match o {
        Some(x) => seq![x],
        None => seq![],
    }
}

/// Cache validation is possible for a cacheable request that names an
/// entity tag.
pub open spec fn cache_hint(info: RouteInfo, headers: Seq<(String, String)>) -> Option<(int, Seq<char>)> {
    if info.cacheable && header_value(headers, "if-none-match"@) is Some {
        Some((0int, "ETag match possible: "@ + header_value(headers, "if-none-match"@)->0))
    } else {
        None
    }
}

/// Compression is worth it, with the estimated savings.
pub open spec fn compression_hint(compress: bool, body: Seq<u8>) -> Option<(int, Seq<char>)> {
    if compress {
        Some((1int, "Content can be compressed ("@ + decimal(savings_of(body) as nat) + "% savings estimated)"@))
    } else {
        None
    }
}

/// Property searches can be batched when batching is on.
pub open spec fn batching_hint(info: RouteInfo, batching: bool) -> Option<(int, Seq<char>)> {
    if batching && info.method == DavMethod::PROPFIND {
        Some((2int, "Request can be batched with similar requests"@))
    } else {
        None
    }
}

/// Reading a calendar file lets related resources be prefetched.
pub open spec fn prefetch_hint(info: RouteInfo) -> Option<(int, Seq<char>)> {
    if info.method == DavMethod::GET && ends_with(info.path@, ".ics"@) {
        Some((3int, "Related calendar resources can be prefetched"@))
    } else {
        None
    }
}

/// The optimizations preprocessing finds, in order: cache validation,
/// compression, batching, prefetching.
pub open spec fn optimizations_of(
    info: RouteInfo,
    headers: Seq<(String, String)>,
    body: Seq<u8>,
    compress: bool,
    batching: bool,
) -> Seq<(int, Seq<char>)> {
    maybe(cache_hint(info, headers)) + maybe(compression_hint(compress, body)) + maybe(
        batching_hint(info, batching),
    ) + maybe(prefetch_hint(info))
}

/// A warning about a body over a megabyte.
pub open spec fn large_body_warning(body_len: nat) -> Option<Seq<char>> {
    if body_len > 1024 * 1024 {
        Some("Large request body: "@ + decimal(body_len) + " bytes"@)
    } else {
        None
    }
}

/// A warning about an estimate over half a second.
pub open spec fn slow_warning(info: RouteInfo) -> Option<Seq<char>> {
    if info.estimated_duration > 500 {
        Some("Slow operation estimated: "@ + duration_text(info.estimated_duration as nat))
    } else {
        None
    }
}

/// The warnings preprocessing gives, in order.
pub open spec fn warnings_of(info: RouteInfo, body_len: nat) -> Seq<Seq<char>> {
    maybe(large_body_warning(body_len)) + maybe(slow_warning(info))
}

/// The descriptions of a list of strings.
pub open spec fn texts(v: Seq<String>) -> Seq<Seq<char>> {
    v.map_values(|s: String| s@)
}

/// The views of a list of optimizations.
pub open spec fn optimization_views(v: Seq<RouteOptimization>) -> Seq<(int, Seq<char>)> {
    v.map_values(|o: RouteOptimization| optimization_view(o))
}

/// The route's cache entry is the least recently used of the entries.
pub open spec fn least_recent(s: Seq<(String, CachedRoute)>, i: int) -> bool {
    0 <= i < s.len() && forall|j: int| 0 <= j < s.len() ==> s[i].1.last_accessed <= #[trigger] s[j].1.last_accessed
}

/// The request router.
pub struct DavRouter {
    /// Cached routes by `path:METHOD`.
    pub route_cache: LruCache<String, CachedRoute>,
    pub request_pool: AsyncRequestPool,
    pub security: DavSecurity,
    pub performance: DavPerformance,
    pub metrics: DavMetrics,
    pub stats: RouterStats,
    pub config: RouterConfig,
    pub clock: Clock,
}

impl DavRouter {
    /// The router's invariant: its parts are well formed.
    pub open spec fn wf(&self) -> bool {
        self.route_cache.wf() && self.security.wf() && self.performance.wf() && self.metrics.wf()
            && self.request_pool.wf()
    }

    /// The cached route under `key`, if it is fresh at `now`.
    pub open spec fn fresh_route(&self, key: Seq<char>, now: u64) -> Option<CachedRoute> {
        let m = self.route_cache.map();
        if m.contains_key(key) && spec_elapsed(m[key].cached_at, now) < self.config.route_cache_ttl {
            Some(m[key])
        } else {
            None
        }
    }

    /// Whether a request from `client_ip` for `path` with a body of
    /// `body_len` bytes gets through at `now`: the address is known, not
    /// blocked and under its rate limit, and the path and the body size are
    /// valid.
    pub open spec fn admits(&self, client_ip: Option<IpAddress>, path: Seq<char>, body_len: nat, now: u64) -> bool {
        &&& client_ip matches Some(ip)
        &&& !self.security.is_blocked_at(ip, now)
        &&& self.security.window_at(ip, now).0.len() < self.security.config.rate_limit_per_minute
        &&& path_problem(path, self.security.config.max_path_depth as nat) is None
        &&& body_len <= self.security.config.max_body_size
    }

    /// Whether `ip` passes its block and its rate limit at `now`.
    pub open spec fn rate_ok(&self, ip: IpAddress, now: u64) -> bool {
        &&& !self.security.is_blocked_at(ip, now)
        &&& self.security.window_at(ip, now).0.len() < self.security.config.rate_limit_per_minute
    }

    /// The cached route that serves `path` and `method` at `now`: a fresh
    /// one, when the route cache is on.
    pub open spec fn cached_route(&self, path: Seq<char>, method: DavMethod, now: u64) -> Option<CachedRoute> {
        if self.config.enable_route_cache {
            self.fresh_route(route_key(path, method), now)
        } else {
            None
        }
    }

    /// What routing a request at `now` does, from this state to `after`,
    /// returning `r`. The request is counted. The security manager checks
    /// the client's block and rate limit (a missing address is refused
    /// first), then the path and the body size are validated; any refusal
    /// leaves the routes and the other counters as they are. An admitted
    /// request is served from a fresh cached route, whose use is counted, or
    /// else resolved from its path, counted as a miss and, with the cache
    /// on, cached; its priority, duration estimate and cacheability follow
    /// from the method, path and headers.
    pub open spec fn routed(
        self,
        after: DavRouter,
        path: Seq<char>,
        method: DavMethod,
        headers: Seq<(String, String)>,
        body_len: nat,
        client_ip: Option<IpAddress>,
        now: u64,
        r: Result<RouteInfo, DavError>,
    ) -> bool {
        let cached = self.cached_route(path, method, now);
        let key = route_key(path, method);
        let max_depth = self.security.config.max_path_depth as nat;
        let counted = RouterStats { total_requests: spec_sat_add(self.stats.total_requests, 1), ..self.stats };
        &&& after.config == self.config
        &&& after.request_pool == self.request_pool
        &&& after.performance == self.performance
        &&& after.metrics == self.metrics
        &&& (r is Ok <==> self.admits(client_ip, path, body_len, now))
        &&& client_ip is None ==> {
            &&& r matches Err(e) && e.is_plain_validation("Invalid IP address"@)
            &&& after.security == self.security
        }
        &&& (client_ip matches Some(ip) ==> self.security.rate_checked(
            after.security,
            ip,
            now,
            if self.rate_ok(ip, now) {
                Ok::<(), DavError>(())
            } else {
                match r {
                    Ok(_) => Ok::<(), DavError>(()),
                    Err(e) => Err::<(), DavError>(e),
                }
            },
        ))
        &&& (client_ip matches Some(ip) && self.security.is_blocked_at(ip, now) ==> (r matches Err(e)
            && e.is_auth("IP address is blocked"@, 403)))
        &&& (client_ip matches Some(ip) && !self.security.is_blocked_at(ip, now) && !self.rate_ok(ip, now)
            ==> (r matches Err(e) && e.is_auth("Rate limit exceeded"@, 429)))
        &&& (client_ip matches Some(ip) && self.rate_ok(ip, now) ==> match path_problem(path, max_depth) {
            Some(m) => r matches Err(e) && e.is_validation(m, "path"@),
            None => body_len > self.security.config.max_body_size ==> (r matches Err(e) && e.is_validation(
                "Request body size "@ + decimal(body_len) + " exceeds maximum "@ + decimal(
                    self.security.config.max_body_size as nat,
                ),
                "content-length"@,
            )),
        })
        &&& r is Err ==> after.route_cache == self.route_cache && after.stats == counted
        &&& r matches Ok(info) ==> {
            &&& info.resource == (match cached {
                Some(c) => c.resource,
                None => resource_of(path),
            })
            &&& info.method == method
            &&& info.path@ == path
            &&& info.priority == priority_of(method, path, headers)
            &&& info.estimated_duration == duration_of(method, info.resource)
            &&& info.requires_auth
            &&& info.cacheable == cacheable_method(method)
            &&& match cached {
                Some(c) => {
                    &&& after.stats == RouterStats {
                        route_cache_hits: spec_sat_add(self.stats.route_cache_hits, 1),
                        ..counted
                    }
                    &&& after.route_cache.map() =~= self.route_cache.map().insert(
                        key,
                        CachedRoute {
                            access_count: spec_sat_add(c.access_count, 1),
                            last_accessed: now,
                            ..c
                        },
                    )
                },
                None => {
                    &&& after.stats.total_requests == counted.total_requests
                    &&& after.stats.route_cache_hits == self.stats.route_cache_hits
                    &&& after.stats.route_cache_misses == spec_sat_add(self.stats.route_cache_misses, 1)
                    &&& after.stats.preprocessing_time == self.stats.preprocessing_time
                    &&& after.stats.routing_time == self.stats.routing_time
                    &&& after.stats.failed_routes == self.stats.failed_routes
                    &&& if self.config.enable_route_cache {
                        &&& after.stats.cached_routes == spec_sat_add(self.stats.cached_routes, 1)
                        &&& after.route_cache.map().contains_key(key)
                        &&& after.route_cache.map()[key] == (CachedRoute {
                            resource: info.resource,
                            cached_at: now,
                            access_count: 0,
                            last_accessed: now,
                        })
                    } else {
                        &&& after.stats.cached_routes == self.stats.cached_routes
                        &&& after.route_cache == self.route_cache
                    }
                },
            }
        }
    }

    /// A router over the given components with an empty route cache.
    pub fn new(
        request_pool: AsyncRequestPool,
        security: DavSecurity,
        performance: DavPerformance,
        metrics: DavMetrics,
        config: RouterConfig,
    ) -> (r: DavRouter)
        requires
            request_pool.wf(),
            security.wf(),
            performance.wf(),
            metrics.wf(),
        ensures
            r.wf(),
            r.config == config,
            r.request_pool == request_pool,
            r.security == security,
            r.performance == performance,
            r.metrics == metrics,
            r.route_cache.entries@.len() == 0,
            r.stats == (RouterStats {
                total_requests: 0,
                cached_routes: 0,
                route_cache_hits: 0,
                route_cache_misses: 0,
                preprocessing_time: 0,
                routing_time: 0,
                failed_routes: 0,
            }),
    {
        DavRouter {
            route_cache: LruCache::new(usize::MAX),
            request_pool,
            security,
            performance,
            metrics,
            stats: RouterStats {
                total_requests: 0,
                cached_routes: 0,
                route_cache_hits: 0,
                route_cache_misses: 0,
                preprocessing_time: 0,
                routing_time: 0,
                failed_routes: 0,
            },
            config,
            clock: Clock::start(),
        }
    }

    /// Routes a request now and folds the time it took into the routing
    /// average when it succeeds.
    pub fn route_request(
        &mut self,
        path: &str,
        method: DavMethod,
        headers: &Vec<(String, String)>,
        body: &[u8],
        client_ip: Option<IpAddress>,
    ) -> (r: Result<RouteInfo, DavError>)
        requires
            old(self).wf(),
        ensures
            final(self).wf(),
            exists|now: u64, mid: DavRouter|
                #[trigger] old(self).routed(mid, path@, method, headers@, body@.len(), client_ip, now, r)
                    && *final(self) == (DavRouter {
                    stats: RouterStats { routing_time: final(self).stats.routing_time, ..mid.stats },
                    ..mid
                }),
    {
        let start = self.clock.now_ns();
        let now = self.clock.now_ms();
        let r = self.route_request_at(path, method, headers, body, client_ip, now);
        let ghost mid = *self;
        if r.is_ok() {
            let end = self.clock.now_ns();
            let spent = elapsed(start, end);
            self.stats.routing_time = half_sum(self.stats.routing_time, spent);
        }
        assert(old(self).routed(mid, path@, method, headers@, body@.len(), client_ip, now, r));
        r
    }

    /// Routes a request at clock reading `now`. The request is counted; it
    /// is refused when the client address is missing (unparsable), when the
    /// security manager refuses it (block or rate limit), or when its path or
    /// body size is invalid. Otherwise its resource comes from a fresh cached
    /// route or from the path, and a newly resolved route is cached.
    pub fn route_request_at(
        &mut self,
        path: &str,
        method: DavMethod,
        headers: &Vec<(String, String)>,
        body: &[u8],
        client_ip: Option<IpAddress>,
        now: u64,
    ) -> (r: Result<RouteInfo, DavError>)
        requires
            old(self).wf(),
        ensures
            final(self).wf(),
            old(self).routed(*final(self), path@, method, headers@, body@.len(), client_ip, now, r),
    {
        self.stats.total_requests = sat_add(self.stats.total_requests, 1);
        let ip = match client_ip {
            Some(ip) => ip,
            None => {
                return Err(DavError::validation("Invalid IP address"));
            },
        };
        match self.security.check_rate_limit_at(ip, now) {
            Ok(()) => {},
            Err(e) => {
                return Err(e);
            },
        }
        match self.security.validate_path(path) {
            Ok(()) => {},
            Err(e) => {
                return Err(e);
            },
        }
        match self.security.validate_body_size(body.len()) {
            Ok(()) => {},
            Err(e) => {
                return Err(e);
            },
        }
        let key = route_key_text(path, method);
        let cached = if self.config.enable_route_cache {
            self.get_cached_route_at(&key, now)
        } else {
            None
        };
        let resource = match cached {
            Some(c) => {
                self.stats.route_cache_hits = sat_add(self.stats.route_cache_hits, 1);
                c.resource
            },
            None => {
                self.stats.route_cache_misses = sat_add(self.stats.route_cache_misses, 1);
                let resource = resolve_resource(path);
                if self.config.enable_route_cache {
                    self.cache_route_at(key, resource, now);
                }
                resource
            },
        };
        Ok(
            RouteInfo {
                resource,
                method,
                path: String::from_str(path),
                priority: determine_priority(method, path, headers),
                estimated_duration: estimate_duration(method, resource),
                requires_auth: true,
                cacheable: is_cacheable(method),
            },
        )
    }

    /// Looks up a route at `now`: a fresh entry has its access counted and
    /// is returned; a stale one is dropped.
    pub fn get_cached_route_at(&mut self, key: &String, now: u64) -> (r: Option<CachedRoute>)
        requires
            old(self).wf(),
        ensures
            final(self).wf(),
            final(self).config == old(self).config,
            final(self).stats == old(self).stats,
            final(self).security == old(self).security,
            final(self).request_pool == old(self).request_pool,
            final(self).performance == old(self).performance,
            final(self).metrics == old(self).metrics,
            ({
                let m = old(self).route_cache.map();
                let k = key@;
                match old(self).fresh_route(k, now) {
                    Some(c) => {
                        let c2 = CachedRoute {
                            access_count: spec_sat_add(c.access_count, 1),
                            last_accessed: now,
                            ..c
                        };
                        &&& r == Some(c)
                        &&& final(self).route_cache.map() == m.insert(k, c2)
                    },
                    None => {
                        &&& r is None
                        &&& final(self).route_cache.map() == m.remove(k)
                    },
                }
            }),
    {
        match self.route_cache.remove(key) {
            Some(c) => {
                if elapsed(c.cached_at, now) < self.config.route_cache_ttl {
                    let c2 = CachedRoute {
                        access_count: sat_add(c.access_count, 1),
                        last_accessed: now,
                        ..c
                    };
                    let ghost m = old(self).route_cache.map();
                    self.route_cache.insert(key.clone(), c2);
                    assert(m.remove(key@).insert(key@, c2) =~= m.insert(key@, c2));
                    Some(c)
                } else {
                    None
                }
            },
            None => None,
        }
    }

    /// Caches a resolved route at `now`. When the cache is full, the least
    /// recently used route is dropped first.
    pub fn cache_route_at(&mut self, key: String, resource: DavResourceName, now: u64)
        requires
            old(self).wf(),
        ensures
            final(self).wf(),
            final(self).config == old(self).config,
            final(self).security == old(self).security,
            final(self).request_pool == old(self).request_pool,
            final(self).performance == old(self).performance,
            final(self).metrics == old(self).metrics,
            final(self).stats == (RouterStats {
                cached_routes: spec_sat_add(old(self).stats.cached_routes, 1),
                ..old(self).stats
            }),
            ({
                let s = old(self).route_cache.entries@;
                let fresh = CachedRoute {
                    resource,
                    cached_at: now,
                    access_count: 0,
                    last_accessed: now,
                };
                if s.len() >= old(self).config.max_cached_routes && s.len() > 0 {
                    exists|i: int|
                        least_recent(s, i) && final(self).route_cache.map()
                            == old(self).route_cache.map().remove(#[trigger] s[i].0@).insert(key@, fresh)
                } else {
                    final(self).route_cache.map() == old(self).route_cache.map().insert(key@, fresh)
                }
            }),
    {
        let n = self.route_cache.len();
        if n >= self.config.max_cached_routes && n > 0 {
            let entries = self.route_cache.iter();
            let mut best: usize = 0;
            let mut i: usize = 1;
            while i < n
                invariant
                    entries@ == old(self).route_cache.entries@,
                    n == entries@.len(),
                    0 < n,
                    best < n,
                    1 <= i <= n,
                    forall|j: int| 0 <= j < i ==> entries@[best as int].1.last_accessed <= #[trigger] entries@[j].1.last_accessed,
                decreases n - i,
            {
                if entries[i].1.last_accessed < entries[best].1.last_accessed {
                    best = i;
                }
                i = i + 1;
            }
            let ghost s = old(self).route_cache.entries@;
            assert(least_recent(s, best as int));
            self.route_cache.remove_at(best);
        }
        self.route_cache.insert(
            key,
            CachedRoute { resource, cached_at: now, access_count: 0, last_accessed: now },
        );
        self.stats.cached_routes = sat_add(self.stats.cached_routes, 1);
    }

    /// Whether `r` holds the preprocessing hints of a routed request: none
    /// when preprocessing is off; otherwise the optimizations (caching,
    /// compression, batching, prefetching) and the warnings found.
    pub open spec fn preprocessed(
        &self,
        route_info: RouteInfo,
        headers: Seq<(String, String)>,
        body: Seq<u8>,
        r: PreprocessResult,
    ) -> bool {
        &&& r.route_info == route_info
        &&& !self.config.enable_preprocessing ==> r.optimizations@.len() == 0 && r.warnings@.len() == 0
        &&& self.config.enable_preprocessing ==> {
            let content_type = match header_value(headers, "content-type"@) {
                Some(t) => t,
                None => Seq::empty(),
            };
            let compress = self.performance.config.enable_compression && body.len()
                >= self.performance.config.compression_threshold
                && crate::performance::compressible_type(content_type);
            &&& optimization_views(r.optimizations@) =~= optimizations_of(
                route_info,
                headers,
                body,
                compress,
                self.config.enable_batching,
            )
            &&& texts(r.warnings@) =~= warnings_of(route_info, body.len())
        }
    }

    /// Preprocesses a routed request now and folds the time it took into the
    /// preprocessing average.
    pub fn preprocess_request(&mut self, route_info: &RouteInfo, headers: &Vec<(String, String)>, body: &[u8]) -> (r: Result<PreprocessResult, DavError>)
        ensures
            r matches Ok(p) && old(self).preprocessed(*route_info, headers@, body@, p),
            !old(self).config.enable_preprocessing ==> *final(self) == *old(self),
            *final(self) == (DavRouter {
                stats: RouterStats { preprocessing_time: final(self).stats.preprocessing_time, ..old(self).stats },
                ..*old(self)
            }),
    {
        let start = self.clock.now_ns();
        let r = self.preprocess(route_info, headers, body);
        if self.config.enable_preprocessing {
            let end = self.clock.now_ns();
            let spent = elapsed(start, end);
            self.stats.preprocessing_time = half_sum(self.stats.preprocessing_time, spent);
        }
        Ok(r)
    }

    /// The preprocessing hints of a routed request: none when preprocessing
    /// is off; otherwise the optimizations and warnings found.
    pub fn preprocess(&self, route_info: &RouteInfo, headers: &Vec<(String, String)>, body: &[u8]) -> (r: PreprocessResult)
        ensures
            self.preprocessed(*route_info, headers@, body@, r),
    {
        let info = route_info.copy();
        if !self.config.enable_preprocessing {
            return PreprocessResult { route_info: info, optimizations: Vec::new(), warnings: Vec::new() };
        }
        let mut optimizations: Vec<RouteOptimization> = Vec::new();
        assert(optimization_views(optimizations@) =~= Seq::<(int, Seq<char>)>::empty());
        let a = cache_step(route_info, headers);
        push_hint(&mut optimizations, a);
        let content_type: &str = match find_header(headers, "content-type") {
            Some(i) => headers[i].1.as_str(),
            None => {
                proof {
                    reveal_strlit("");
                }
                ""
            },
        };
        let ghost ct = match header_value(headers@, "content-type"@) {
            Some(t) => t,
            None => Seq::<char>::empty(),
        };
        assert(content_type@ =~= ct);
        let compress = self.performance.should_compress(body.len(), content_type);
        let b = compression_step(compress, body);
        push_hint(&mut optimizations, b);
        let c = batching_step(route_info, self.config.enable_batching);
        push_hint(&mut optimizations, c);
        let d = prefetch_step(route_info);
        push_hint(&mut optimizations, d);
        assert(optimization_views(optimizations@) =~= maybe(hint_view(a)) + maybe(hint_view(b)) + maybe(
            hint_view(c),
        ) + maybe(hint_view(d)));
        let warnings = warnings_for(route_info, body.len());
        PreprocessResult { route_info: info, optimizations, warnings }
    }

    /// The router's statistics.
    pub fn get_router_stats(&self) -> (r: RouterPerformanceStats)
        ensures
            r == (RouterPerformanceStats {
                total_requests: self.stats.total_requests,
                cached_routes: self.route_cache.entries@.len() as usize,
                route_cache_hits: self.stats.route_cache_hits,
                route_cache_misses: self.stats.route_cache_misses,
                average_routing_time: self.stats.routing_time,
                average_preprocessing_time: self.stats.preprocessing_time,
                failed_routes: self.stats.failed_routes,
            }),
    {
        RouterPerformanceStats {
            total_requests: self.stats.total_requests,
            cached_routes: self.route_cache.len(),
            route_cache_hits: self.stats.route_cache_hits,
            route_cache_misses: self.stats.route_cache_misses,
            average_routing_time: self.stats.routing_time,
            average_preprocessing_time: self.stats.preprocessing_time,
            failed_routes: self.stats.failed_routes,
        }
    }
}

/// The view of an optional optimization.
pub open spec fn hint_view(o: Option<RouteOptimization>) -> Option<(int, Seq<char>)> {
    match o {
        Some(x) => Some(optimization_view(x)),
        None => None,
    }
}

/// Appends an optimization, if there is one.
fn push_hint(v: &mut Vec<RouteOptimization>, o: Option<RouteOptimization>)
    ensures
        optimization_views(final(v)@) == optimization_views(old(v)@) + maybe(hint_view(o)),
{
    match o {
        Some(x) => {
            v.push(x);
        },
        None => {},
    }
    assert(optimization_views(v@) =~= optimization_views(old(v)@) + maybe(hint_view(o)));
}

fn cache_step(info: &RouteInfo, headers: &Vec<(String, String)>) -> (r: Option<RouteOptimization>)
    ensures
        hint_view(r) == cache_hint(*info, headers@),
{
    if info.cacheable {
        match find_header(headers, "if-none-match") {
            Some(i) => {
                let mut t: Vec<char> = Vec::new();
                append_str(&mut t, "ETag match possible: ");
                append_str(&mut t, headers[i].1.as_str());
                return Some(RouteOptimization::CacheHit(string_from_chars(t.as_slice())));
            },
            None => {},
        }
    }
    None
}

fn compression_step(compress: bool, body: &[u8]) -> (r: Option<RouteOptimization>)
    ensures
        hint_view(r) == compression_hint(compress, body@),
{
    if compress {
        let savings = estimate_compression_savings(body);
        let mut t: Vec<char> = Vec::new();
        append_str(&mut t, "Content can be compressed (");
        let d = decimal_chars(savings as u64);
        append_chars(&mut t, d.as_slice());
        append_str(&mut t, "% savings estimated)");
        Some(RouteOptimization::Compression(string_from_chars(t.as_slice())))
    } else {
        None
    }
}

fn batching_step(info: &RouteInfo, batching: bool) -> (r: Option<RouteOptimization>)
    ensures
        hint_view(r) == batching_hint(*info, batching),
{
    if batching && info.method == DavMethod::PROPFIND {
        Some(RouteOptimization::Batching(String::from_str("Request can be batched with similar requests")))
    } else {
        None
    }
}

fn prefetch_step(info: &RouteInfo) -> (r: Option<RouteOptimization>)
    ensures
        hint_view(r) == prefetch_hint(*info),
{
    let suffix = chars_of(".ics");
    let path_chars = chars_of(info.path.as_str());
    if info.method == DavMethod::GET && has_suffix(path_chars.as_slice(), suffix.as_slice()) {
        Some(RouteOptimization::Prefetch(String::from_str("Related calendar resources can be prefetched")))
    } else {
        None
    }
}

fn warnings_for(info: &RouteInfo, body_len: usize) -> (r: Vec<String>)
    ensures
        texts(r@) == warnings_of(*info, body_len as nat),
{
    let mut warnings: Vec<String> = Vec::new();
    if body_len > 1024 * 1024 {
        let mut t: Vec<char> = Vec::new();
        append_str(&mut t, "Large request body: ");
        let d = decimal_chars(body_len as u64);
        append_chars(&mut t, d.as_slice());
        append_str(&mut t, " bytes");
        warnings.push(string_from_chars(t.as_slice()));
    }
    assert(texts(warnings@) =~= maybe(large_body_warning(body_len as nat)));
    let ghost before = warnings@;
    if info.estimated_duration > 500 {
        let mut t: Vec<char> = Vec::new();
        append_str(&mut t, "Slow operation estimated: ");
        let d = duration_chars(info.estimated_duration);
        append_chars(&mut t, d.as_slice());
        warnings.push(string_from_chars(t.as_slice()));
    }
    assert(texts(warnings@) =~= texts(before) + maybe(slow_warning(*info)));
    warnings
}

/// The average of a running average and a new measurement, rounded down.
pub fn half_sum(avg: u64, sample: u64) -> (r: u64)
    ensures
        r == (avg as int + sample as int) / 2,
{
    ((avg as u128 + sample as u128) / 2) as u64
}

/// The key under which the route of `path` and `method` is cached.
pub fn route_key_text(path: &str, method: DavMethod) -> (r: String)
    ensures
        r@ == route_key(path@, method),
{
    let mut t: Vec<char> = Vec::new();
    append_str(&mut t, path);
    append_str(&mut t, ":");
    append_str(&mut t, method.as_str());
    string_from_chars(t.as_slice())
}

/// The kind of resource `path` addresses.
pub fn resolve_resource(path: &str) -> (r: DavResourceName)
    ensures
        r == resource_of(path@),
{
    let p = chars_of(path);
    let s = p.as_slice();
    if contains(s, chars_of("/calendar/").as_slice()) || contains(s, chars_of("/cal/").as_slice()) {
        DavResourceName::Cal
    } else if contains(s, chars_of("/addressbook/").as_slice()) || contains(s, chars_of("/card/").as_slice()) {
        DavResourceName::Card
    } else if contains(s, chars_of("/files/").as_slice()) || contains(s, chars_of("/file/").as_slice()) {
        DavResourceName::File
    } else if contains(s, chars_of("/principal/").as_slice()) {
        DavResourceName::Principal
    } else if contains(s, chars_of("/scheduling/").as_slice()) {
        DavResourceName::Scheduling
    } else {
        DavResourceName::File
    }
}

/// The position of the first header named exactly `name`.
pub fn find_header(headers: &Vec<(String, String)>, name: &str) -> (r: Option<usize>)
    ensures
        r matches Some(i) ==> i < headers@.len() && header_value(headers@, name@) == Some(
            headers@[i as int].1@,
        ),
        r is None ==> header_value(headers@, name@) is None,
{
    let mut i: usize = 0;
    while i < headers.len()
        invariant
            i <= headers@.len(),
            forall|j: int| 0 <= j < i ==> #[trigger] headers@[j].0@ != name@,
        decreases headers.len() - i,
    {
        if str_is(headers[i].0.as_str(), name) {
            proof {
                let w = choose|k: int|
                    0 <= k < headers@.len() && #[trigger] headers@[k].0@ == name@ && forall|j: int|
                        0 <= j < k ==> headers@[j].0@ != name@;
                assert(0 <= i < headers@.len() && headers@[i as int].0@ == name@ && forall|j: int|
                    0 <= j < i ==> headers@[j].0@ != name@);
                if w < i {
                } else if w > i {
                    assert(headers@[i as int].0@ != name@);
                }
            }
            return Some(i);
        }
        i = i + 1;
    }
    None
}

/// The priority of a request.
pub fn determine_priority(method: DavMethod, path: &str, headers: &Vec<(String, String)>) -> (r: RequestPriority)
    ensures
        r == priority_of(method, path@, headers@),
{
    let p = chars_of(path);
    if contains(p.as_slice(), chars_of("/admin/").as_slice()) {
        return RequestPriority::High;
    }
    if method == DavMethod::LOCK || method == DavMethod::UNLOCK {
        return RequestPriority::High;
    }
    match find_header(headers, "depth") {
        Some(i) => {
            if str_is(headers[i].1.as_str(), "infinity") {
                return RequestPriority::Low;
            }
        },
        None => {},
    }
    RequestPriority::Normal
}

/// The estimated processing time of a method on a resource, in
/// milliseconds.
pub fn estimate_duration(method: DavMethod, resource: DavResourceName) -> (r: u64)
    ensures
        r == duration_of(method, resource),
{
    match method {
        DavMethod::GET => 10,
        DavMethod::PROPFIND => 50,
        DavMethod::PUT => {
            if resource == DavResourceName::File {
                200
            } else {
                100
            }
        },
        DavMethod::DELETE => 30,
        DavMethod::COPY | DavMethod::MOVE => 150,
        DavMethod::REPORT => 100,
        _ => 50,
    }
}

/// Whether responses to `method` may be cached.
pub fn is_cacheable(method: DavMethod) -> (r: bool)
    ensures
        r == cacheable_method(method),
{
    method == DavMethod::GET || method == DavMethod::PROPFIND || method == DavMethod::REPORT
}

/// The estimated compression savings of a body, in percent.
pub fn estimate_compression_savings(body: &[u8]) -> (r: u32)
    ensures
        r == savings_of(body@),
{
    if body.len() < 1024 {
        return 0;
    }
    let mut text: usize = 0;
    let mut i: usize = 0;
    while i < body.len()
        invariant
            i <= body@.len(),
            text == text_bytes(body@, i as int),
            text <= i,
        decreases body.len() - i,
    {
        let b = body[i];
        if (0x21 <= b && b <= 0x7e) || b == 0x20 || b == 0x09 || b == 0x0a || b == 0x0c || b == 0x0d {
            text = text + 1;
        }
        i = i + 1;
    }
    let pct = (text as u128) * 100 / (body.len() as u128);
    if pct > 80 {
        60
    } else if pct > 50 {
        30
    } else {
        10
    }
}

/// A whole number of milliseconds in `Duration`'s `Debug` form.
pub fn duration_chars(ms: u64) -> (r: Vec<char>)
    ensures
        r@ == duration_text(ms as nat),
{
    let mut t: Vec<char> = Vec::new();
    if ms == 0 {
        append_str(&mut t, "0ns");
    } else if ms < 1000 {
        let d = decimal_chars(ms);
        append_chars(&mut t, d.as_slice());
        append_str(&mut t, "ms");
    } else {
        let d = decimal_chars(ms / 1000);
        append_chars(&mut t, d.as_slice());
        let f = ms % 1000;
        if f != 0 {
            append_str(&mut t, ".");
            let d1 = f / 100;
            let d2 = (f / 10) % 10;
            let d3 = f % 10;
            let c1 = digit(d1);
            let c2 = digit(d2);
            let c3 = digit(d3);
            let ghost before = t@;
            if d3 != 0 {
                t.push(c1);
                t.push(c2);
                t.push(c3);
                assert(t@ =~= before + seq![c1, c2, c3]);
            } else if d2 != 0 {
                t.push(c1);
                t.push(c2);
                assert(t@ =~= before + seq![c1, c2]);
            } else {
                t.push(c1);
                assert(t@ =~= before + seq![c1]);
            }
        }
        append_str(&mut t, "s");
    }
    t
}

/// The character of a decimal digit.
fn digit(d: u64) -> (c: char)
    requires
        d < 10,
    ensures
        c == digit_char(d as nat),
{
    ((d as u8) + 48) as char
}


/// Which kind of resource a path addresses, by the markers it holds: a
/// calendar marker (`/calendar/` or `/cal/`) wins; otherwise an address-book
/// marker (`/addressbook/` or `/card/`) gives an address book, a principal
/// marker without file markers a principal, a scheduling marker alone the
/// scheduling tree; every other path is file storage.
pub proof fn lemma_resource_markers(path: Seq<char>)
    ensures
        (contains_seq(path, "/calendar/"@) || contains_seq(path, "/cal/"@)) ==> resource_of(path)
            == DavResourceName::Cal,
        !contains_seq(path, "/calendar/"@) && !contains_seq(path, "/cal/"@) && (contains_seq(path, "/addressbook/"@)
            || contains_seq(path, "/card/"@)) ==> resource_of(path) == DavResourceName::Card,
        resource_of(path) == DavResourceName::Card ==> contains_seq(path, "/addressbook/"@) || contains_seq(
            path,
            "/card/"@,
        ),
        resource_of(path) == DavResourceName::Principal ==> contains_seq(path, "/principal/"@),
        resource_of(path) == DavResourceName::Scheduling ==> contains_seq(path, "/scheduling/"@),
        !contains_seq(path, "/calendar/"@) && !contains_seq(path, "/cal/"@) && !contains_seq(path, "/addressbook/"@)
            && !contains_seq(path, "/card/"@) && (contains_seq(path, "/files/"@) || contains_seq(path, "/file/"@))
            ==> resource_of(path) == DavResourceName::File,
{
}
} // verus!
