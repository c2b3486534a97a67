//! Response and property caches with time-to-live, the compression
//! decision, and request timing statistics.
use vstd::prelude::*;

use crate::clock::Clock;
use crate::counter::{elapsed, sat_add, spec_elapsed, spec_sat_add};
use crate::lru::{LruCache, LruKey};
use crate::request::opt_view;
use crate::text::str_is;

verus! {

/// The bounded cache used by the performance optimizer.
pub type LRU<K, V> = LruCache<K, V>;

/// Configuration of the performance optimizer. Durations are in
/// milliseconds.
#[derive(Debug, Clone, Copy, PartialEq, Eq, Structural)]
pub struct PerformanceConfig {
    /// Maximum cached responses.
    pub max_cache_entries: usize,
    /// How long a cached response stays valid.
    pub cache_ttl: u64,
    /// Maximum cached property sets.
    pub max_property_cache: usize,
    /// How long cached properties stay valid.
    pub property_cache_ttl: u64,
    /// Whether responses may be compressed.
    pub enable_compression: bool,
    /// Smallest response, in bytes, worth compressing.
    pub compression_threshold: usize,
    /// Maximum concurrent connections per client address.
    pub max_connections_per_ip: usize,
    /// Connection timeout.
    pub connection_timeout: u64,
}

impl Default for PerformanceConfig {
    fn default() -> (r: PerformanceConfig)
        ensures
            r == (PerformanceConfig {
                max_cache_entries: 1000,
                cache_ttl: 300_000,
                max_property_cache: 5000,
                property_cache_ttl: 600_000,
                enable_compression: true,
                compression_threshold: 1024,
                max_connections_per_ip: 10,
                connection_timeout: 30_000,
            }),
    {
        PerformanceConfig {
            max_cache_entries: 1000,
            cache_ttl: 300_000,
            max_property_cache: 5000,
            property_cache_ttl: 600_000,
            enable_compression: true,
            compression_threshold: 1024,
            max_connections_per_ip: 10,
            connection_timeout: 30_000,
        }
    }
}

/// The key of a cached response: path, method and entity tag.
#[derive(Debug, Clone, PartialEq, Eq, Hash)]
pub struct CacheKey {
    pub path: String,
    pub method: String,
    pub etag: Option<String>,
}

impl LruKey for CacheKey {
    type KeyView = (Seq<char>, Seq<char>, Option<Seq<char>>);

    open spec fn key_view(&self) -> (Seq<char>, Seq<char>, Option<Seq<char>>) {
        (self.path@, self.method@, opt_view(self.etag))
    }

    fn key_eq(&self, other: &Self) -> (r: bool) {
        let same_etag = match (&self.etag, &other.etag) {
            (Some(a), Some(b)) => *a == *b,
            (None, None) => true,
            _ => false,
        };
        self.path == other.path && self.method == other.method && same_etag
    }

    fn key_clone(&self) -> (r: Self) {
        CacheKey { path: self.path.clone(), method: self.method.clone(), etag: self.etag.clone() }
    }
}

/// A cached response. Times are clock readings in milliseconds.
#[derive(Debug, Clone)]
pub struct CacheEntry {
    pub data: Vec<u8>,
    pub content_type: String,
    pub etag: String,
    pub created_at: u64,
    pub access_count: u64,
    pub last_accessed: u64,
}

/// Cached serialized properties of a resource.
#[derive(Debug, Clone)]
pub struct PropertyCacheEntry {
    pub properties: Vec<u8>,
    pub created_at: u64,
    pub last_accessed: u64,
}

/// Connection counters.
#[derive(Debug, Clone, Copy, PartialEq, Eq, Structural)]
pub struct ConnectionStats {
    pub active_connections: u64,
    pub total_connections: u64,
    pub connection_errors: u64,
}

/// Cache and request counters. The average response time is in
/// nanoseconds.
#[derive(Debug, Clone, Copy, PartialEq, Eq, Structural)]
pub struct PerformanceMetrics {
    pub cache_hits: u64,
    pub cache_misses: u64,
    pub cache_evictions: u64,
    pub compression_savings: u64,
    pub total_requests: u64,
    pub average_response_time: u64,
}

/// A response served from the cache.
#[derive(Debug, Clone)]
pub struct CachedResponse {
    pub data: Vec<u8>,
    pub content_type: String,
    pub etag: String,
}

/// Statistics of the performance optimizer. The average response time is
/// in nanoseconds.
#[derive(Debug, Clone, Copy, PartialEq, Eq, Structural)]
pub struct PerformanceStats {
    pub cache_entries: usize,
    pub property_cache_entries: usize,
    pub total_requests: u64,
    pub average_response_time: u64,
    pub compression_savings: u64,
    pub cache_hits: u64,
    pub cache_misses: u64,
    pub cache_evictions: u64,
    pub active_connections: u64,
}

/// Content types whose responses are compressed.
pub open spec fn compressible_type(t: Seq<char>) -> bool {
    t == "text/xml"@ || t == "application/xml"@ || t == "text/calendar"@ || t == "text/vcard"@ || t
        == "application/json"@
}

/// The running average after a new measurement: nine tenths of the old
/// average plus one tenth of the measurement, rounded down.
pub open spec fn smoothed(avg: u64, sample: u64) -> u64 {
    ((avg as int * 9 + sample as int) / 10) as u64
}

/// The caching and timing optimizer.
pub struct DavPerformance {
    pub response_cache: LRU<CacheKey, CacheEntry>,
    pub property_cache: LRU<String, PropertyCacheEntry>,
    pub connection_stats: ConnectionStats,
    pub metrics: PerformanceMetrics,
    pub config: PerformanceConfig,
    pub clock: Clock,
}

/// The most entries a cache of capacity `cap` holds: its capacity, or one
/// for a capacity of zero (the entry just stored).
pub open spec fn bound(cap: usize) -> int {
    if cap > 0 {
        cap as int
    } else {
        1
    }
}

impl DavPerformance {
    /// The optimizer's invariant: its caches hold no key twice.
    pub open spec fn wf(&self) -> bool {
        &&& self.response_cache.wf()
        &&& self.property_cache.wf()
        &&& self.response_cache.entries@.len() <= bound(self.response_cache.capacity)
        &&& self.property_cache.entries@.len() <= bound(self.property_cache.capacity)
    }

    /// An optimizer with empty caches and zero counters.
    pub fn new(config: PerformanceConfig) -> (r: DavPerformance)
        ensures
            r.wf(),
            r.config == config,
            r.response_cache.entries@.len() == 0,
            r.response_cache.capacity == config.max_cache_entries,
            r.property_cache.entries@.len() == 0,
            r.property_cache.capacity == config.max_property_cache,
            r.metrics == (PerformanceMetrics {
                cache_hits: 0,
                cache_misses: 0,
                cache_evictions: 0,
                compression_savings: 0,
                total_requests: 0,
                average_response_time: 0,
            }),
            r.connection_stats == (ConnectionStats {
                active_connections: 0,
                total_connections: 0,
                connection_errors: 0,
            }),
    {
        DavPerformance {
            response_cache: LruCache::new(config.max_cache_entries),
            property_cache: LruCache::new(config.max_property_cache),
            connection_stats: ConnectionStats {
                active_connections: 0,
                total_connections: 0,
                connection_errors: 0,
            },
            metrics: PerformanceMetrics {
                cache_hits: 0,
                cache_misses: 0,
                cache_evictions: 0,
                compression_savings: 0,
                total_requests: 0,
                average_response_time: 0,
            },
            config,
            clock: Clock::start(),
        }
    }

    /// What looking up the response to `method` on `path` with `etag` at `now` does, from this state to `after`, returning `r`: a fresh entry is returned with its use counted as a hit; a stale one is dropped as an eviction; a miss is counted.
    pub open spec fn response_looked_up(self, after: Self, path: &str, method: &str, etag: Option<&str>, now: u64, r: Option<CachedResponse>) -> bool {
        &&& (after.config == self.config)
        &&& (after.connection_stats == self.connection_stats)
        &&& (after.property_cache == self.property_cache)
        &&& (after.response_cache.capacity == self.response_cache.capacity)
        &&& (({
            let k = (path@, method@, match etag {
                Some(e) => Some(e@),
                None => None,
            });
            let m = self.response_cache.map();
            let om = self.metrics;
            let fm = after.metrics;
            if m.contains_key(k) && spec_elapsed(m[k].created_at, now) < self.config.cache_ttl {
                let e = m[k];
                &&& r matches Some(c) && c.data@ =~= e.data@ && c.content_type == e.content_type
                    && c.etag == e.etag
                &&& after.response_cache.map() =~= m.insert(
                    k,
                    CacheEntry {
                        access_count: spec_sat_add(e.access_count, 1),
                        last_accessed: now,
                        ..e
                    },
                )
                &&& fm == PerformanceMetrics { cache_hits: spec_sat_add(om.cache_hits, 1), ..om }
            } else {
                &&& r is None
                &&& after.response_cache.map() =~= m.remove(k)
                &&& fm == PerformanceMetrics {
                    cache_misses: spec_sat_add(om.cache_misses, 1),
                    cache_evictions: if m.contains_key(k) {
                        spec_sat_add(om.cache_evictions, 1)
                    } else {
                        om.cache_evictions
                    },
                    ..om
                }
            }
        }))
    }

    /// Looks up a cached response at clock reading `now`. A fresh entry
    /// (younger than the cache TTL) is a hit: its access count and access
    /// time are updated. A stale entry is dropped and counted as an
    /// eviction. Anything but a hit counts as a miss.
    pub fn get_cached_response_at(
        &mut self,
        path: &str,
        method: &str,
        etag: Option<&str>,
        now: u64,
    ) -> (r: Option<CachedResponse>)
        requires
            old(self).wf(),
        ensures
            final(self).wf(),
            old(self).response_looked_up(*final(self), path, method, etag, now, r),
    {
        let key = CacheKey {
            path: String::from_str(path),
            method: String::from_str(method),
            etag: match etag {
                Some(e) => Some(String::from_str(e)),
                None => None,
            },
        };
        let ttl = self.config.cache_ttl;
        let ghost m = self.response_cache.map();
        let ghost s = self.response_cache.entries@;
        let mut hit: Option<CachedResponse> = None;
        let mut stale = false;
        match self.response_cache.get_mut(&key) {
            Some(entry) => {
                if elapsed(entry.created_at, now) < ttl {
                    entry.access_count = sat_add(entry.access_count, 1);
                    entry.last_accessed = now;
                    let data = entry.data.clone();
                    assert(data@ =~= entry.data@);
                    hit = Some(
                        CachedResponse {
                            data,
                            content_type: entry.content_type.clone(),
                            etag: entry.etag.clone(),
                        },
                    );
                } else {
                    stale = true;
                }
            },
            None => {},
        }
        proof {
            if m.contains_key(key.key_view()) {
                let i = crate::lru::position_of(s, key.key_view())->0;
                crate::lru::lemma_update_value_map(s, i, self.response_cache.entries@[i].1);
                if !(spec_elapsed(m[key.key_view()].created_at, now) < ttl) {
                    assert(self.response_cache.entries@ =~= s.update(i, (s[i].0, s[i].1)));
                    assert(self.response_cache.entries@ =~= s);
                }
            }
        }
        match hit {
            Some(resp) => {
                self.metrics.cache_hits = sat_add(self.metrics.cache_hits, 1);
                Some(resp)
            },
            None => {
                if stale {
                    self.response_cache.remove(&key);
                    self.metrics.cache_evictions = sat_add(self.metrics.cache_evictions, 1);
                } else {
                    assert(m.remove(key.key_view()) =~= m);
                }
                self.metrics.cache_misses = sat_add(self.metrics.cache_misses, 1);
                None
            },
        }
    }

    /// Looks up a cached response now.
    pub fn get_cached_response(&mut self, path: &str, method: &str, etag: Option<&str>) -> (r: Option<
        CachedResponse,
    >)
        requires
            old(self).wf(),
        ensures
            final(self).wf(),
            exists|now: u64| #[trigger] old(self).response_looked_up(*final(self), path, method, etag, now, r),
    {
        let now = self.clock.now_ms();
        let r = self.get_cached_response_at(path, method, etag, now);
        assert(old(self).response_looked_up(*self, path, method, etag, now, r));
        r
    }

    /// What storing a response at `now` does, from this state to `after`: the entry under the path, method and tag is replaced by the new one, a replaced entry being counted as an eviction and keeping the entry count; a new key is added, after the oldest entry is dropped when the cache is full; every other entry stays.
    pub open spec fn response_stored(self, after: Self, path: &str, method: &str, data: Vec<u8>, content_type: String, etag: String, now: u64) -> bool {
        &&& (after.config == self.config)
        &&& (after.connection_stats == self.connection_stats)
        &&& (after.property_cache == self.property_cache)
        &&& (({
            let k = (path@, method@, Some(etag@));
            let m = self.response_cache.map();
            let es = self.response_cache.entries@;
            let cap = self.response_cache.capacity;
            let fresh = !m.contains_key(k);
            let full = es.len() >= cap && es.len() > 0;
            let entry = CacheEntry { data, content_type, etag, created_at: now, access_count: 0, last_accessed: now };
            &&& after.response_cache.capacity == cap
            &&& after.response_cache.entries@.len() == if fresh && !full {
                es.len() + 1
            } else {
                es.len()
            }
            &&& after.response_cache.map() == m.remove(
                if fresh && full {
                    es[0].0.key_view()
                } else {
                    k
                },
            ).insert(k, entry)
            &&& after.metrics == (PerformanceMetrics {
                cache_evictions: if m.contains_key(k) {
                    spec_sat_add(self.metrics.cache_evictions, 1)
                } else {
                    self.metrics.cache_evictions
                },
                ..self.metrics
            })
        }))
    }

    /// Caches a response under its path, method and entity tag at clock
    /// reading `now`. A response replacing an earlier one for the same key
    /// counts as an eviction.
    pub fn cache_response_at(
        &mut self,
        path: &str,
        method: &str,
        data: Vec<u8>,
        content_type: String,
        etag: String,
        now: u64,
    )
        requires
            old(self).wf(),
        ensures
            final(self).wf(),
            old(self).response_stored(*final(self), path, method, data, content_type, etag, now),
    {
        let key = CacheKey {
            path: String::from_str(path),
            method: String::from_str(method),
            etag: Some(etag.clone()),
        };
        let entry = CacheEntry {
            data,
            content_type,
            etag,
            created_at: now,
            access_count: 0,
            last_accessed: now,
        };
        let replaced = self.response_cache.put(key, entry);
        if replaced.is_some() {
            self.metrics.cache_evictions = sat_add(self.metrics.cache_evictions, 1);
        }
    }

    /// Caches a response now.
    pub fn cache_response(
        &mut self,
        path: &str,
        method: &str,
        data: Vec<u8>,
        content_type: String,
        etag: String,
    )
        requires
            old(self).wf(),
        ensures
            final(self).wf(),
            exists|now: u64|
                #[trigger] old(self).response_stored(*final(self), path, method, data, content_type, etag, now),
    {
        let now = self.clock.now_ms();
        let ghost (d, c, t) = (data, content_type, etag);
        self.cache_response_at(path, method, data, content_type, etag, now);
        assert(old(self).response_stored(*self, path, method, d, c, t, now));
    }

    /// What looking up the properties of `resource_path` at `now` does, from this state to `after`, returning `r`: a fresh entry is returned and its access time updated; a stale one is dropped.
    pub open spec fn properties_looked_up(self, after: Self, resource_path: &str, now: u64, r: Option<Vec<u8>>) -> bool {
        &&& (after.config == self.config)
        &&& (after.connection_stats == self.connection_stats)
        &&& (after.metrics == self.metrics)
        &&& (after.response_cache == self.response_cache)
        &&& (({
            let k = resource_path@;
            let m = self.property_cache.map();
            if m.contains_key(k) && spec_elapsed(m[k].created_at, now) < self.config.property_cache_ttl {
                &&& r matches Some(p) && p@ =~= m[k].properties@
                &&& after.property_cache.map() =~= m.insert(
                    k,
                    PropertyCacheEntry { last_accessed: now, ..m[k] },
                )
            } else {
                &&& r is None
                &&& after.property_cache.map() =~= m.remove(k)
            }
        }))
    }

    /// Looks up cached properties at clock reading `now`: fresh ones
    /// (younger than the property TTL) are returned and their access time
    /// updated; stale ones are dropped.
    pub fn get_cached_properties_at(&mut self, resource_path: &str, now: u64) -> (r: Option<Vec<u8>>)
        requires
            old(self).wf(),
        ensures
            final(self).wf(),
            old(self).properties_looked_up(*final(self), resource_path, now, r),
    {
        let key = String::from_str(resource_path);
        let ttl = self.config.property_cache_ttl;
        let ghost m = self.property_cache.map();
        let ghost s = self.property_cache.entries@;
        let mut hit: Option<Vec<u8>> = None;
        let mut stale = false;
        match self.property_cache.get_mut(&key) {
            Some(entry) => {
                if elapsed(entry.created_at, now) < ttl {
                    entry.last_accessed = now;
                    let p = entry.properties.clone();
                    assert(p@ =~= entry.properties@);
                    hit = Some(p);
                } else {
                    stale = true;
                }
            },
            None => {},
        }
        proof {
            if m.contains_key(key.key_view()) {
                let i = crate::lru::position_of(s, key.key_view())->0;
                crate::lru::lemma_update_value_map(s, i, self.property_cache.entries@[i].1);
                if !(spec_elapsed(m[key.key_view()].created_at, now) < ttl) {
                    assert(self.property_cache.entries@ =~= s);
                }
            }
        }
        match hit {
            Some(p) => Some(p),
            None => {
                if stale {
                    self.property_cache.remove(&key);
                } else {
                    assert(m.remove(key.key_view()) =~= m);
                }
                None
            },
        }
    }

    /// Looks up cached properties now.
    pub fn get_cached_properties(&mut self, resource_path: &str) -> (r: Option<Vec<u8>>)
        requires
            old(self).wf(),
        ensures
            final(self).wf(),
            exists|now: u64| #[trigger] old(self).properties_looked_up(*final(self), resource_path, now, r),
    {
        let now = self.clock.now_ms();
        let r = self.get_cached_properties_at(resource_path, now);
        assert(old(self).properties_looked_up(*self, resource_path, now, r));
        r
    }

    /// What storing the properties of `resource_path` at `now` does, from this state to `after`: the entry under the path is replaced by the new one.
    pub open spec fn properties_stored(self, after: Self, resource_path: &str, properties: Vec<u8>, now: u64) -> bool {
        &&& (after.config == self.config)
        &&& (after.connection_stats == self.connection_stats)
        &&& (after.metrics == self.metrics)
        &&& (after.response_cache == self.response_cache)
        &&& (after.property_cache.map().contains_key(resource_path@))
        &&& (after.property_cache.map()[resource_path@] == (PropertyCacheEntry {
            properties,
            created_at: now,
            last_accessed: now,
        }))
    }

    /// Caches the serialized properties of a resource at clock reading `now`.
    pub fn cache_properties_at(&mut self, resource_path: &str, properties: Vec<u8>, now: u64)
        requires
            old(self).wf(),
        ensures
            final(self).wf(),
            old(self).properties_stored(*final(self), resource_path, properties, now),
    {
        let entry = PropertyCacheEntry { properties, created_at: now, last_accessed: now };
        self.property_cache.put(String::from_str(resource_path), entry);
    }

    /// Caches the serialized properties of a resource now.
    pub fn cache_properties(&mut self, resource_path: &str, properties: Vec<u8>)
        requires
            old(self).wf(),
        ensures
            final(self).wf(),
            exists|now: u64| #[trigger] old(self).properties_stored(*final(self), resource_path, properties, now),
    {
        let now = self.clock.now_ms();
        let ghost p = properties;
        self.cache_properties_at(resource_path, properties, now);
        assert(old(self).properties_stored(*self, resource_path, p, now));
    }

    /// Whether a response should be compressed: compression is enabled, the
    /// response is at least the threshold, and its type is XML, iCalendar,
    /// vCard or JSON.
    pub fn should_compress(&self, content_length: usize, content_type: &str) -> (r: bool)
        ensures
            r == (self.config.enable_compression && content_length
                >= self.config.compression_threshold && compressible_type(content_type@)),
    {
        if !self.config.enable_compression {
            return false;
        }
        if content_length < self.config.compression_threshold {
            return false;
        }
        str_is(content_type, "text/xml") || str_is(content_type, "application/xml") || str_is(
            content_type,
            "text/calendar",
        ) || str_is(content_type, "text/vcard") || str_is(content_type, "application/json")
    }

    /// Adds the bytes saved by compressing a response to the savings.
    pub fn record_compression(&mut self, original_size: usize, compressed_size: usize)
        requires
            compressed_size <= original_size,
        ensures
            final(self).metrics == (PerformanceMetrics {
                compression_savings: spec_sat_add(
                    old(self).metrics.compression_savings,
                    (original_size - compressed_size) as u64,
                ),
                ..old(self).metrics
            }),
            final(self).response_cache == old(self).response_cache,
            final(self).property_cache == old(self).property_cache,
            final(self).config == old(self).config,
            final(self).connection_stats == old(self).connection_stats,
    {
        self.metrics.compression_savings = sat_add(
            self.metrics.compression_savings,
            (original_size - compressed_size) as u64,
        );
    }

    /// Counts a request and folds its response time, in nanoseconds, into
    /// the exponential moving average (smoothing factor one tenth).
    pub fn record_request(&mut self, response_time_ns: u64)
        ensures
            final(self).metrics == (PerformanceMetrics {
                total_requests: spec_sat_add(old(self).metrics.total_requests, 1),
                average_response_time: smoothed(
                    old(self).metrics.average_response_time,
                    response_time_ns,
                ),
                ..old(self).metrics
            }),
            final(self).response_cache == old(self).response_cache,
            final(self).property_cache == old(self).property_cache,
            final(self).config == old(self).config,
            final(self).connection_stats == old(self).connection_stats,
    {
        self.metrics.total_requests = sat_add(self.metrics.total_requests, 1);
        let avg = self.metrics.average_response_time as u128;
        let sample = response_time_ns as u128;
        let next = (avg * 9 + sample) / 10;
        assert(next <= u64::MAX) by (nonlinear_arith)
            requires
                avg <= u64::MAX,
                sample <= u64::MAX,
                next == (avg * 9 + sample) / 10,
        ;
        self.metrics.average_response_time = next as u64;
    }

    /// The optimizer's statistics.
    pub fn get_performance_stats(&self) -> (r: PerformanceStats)
        ensures
            r == (PerformanceStats {
                cache_entries: self.response_cache.entries@.len() as usize,
                property_cache_entries: self.property_cache.entries@.len() as usize,
                total_requests: self.metrics.total_requests,
                average_response_time: self.metrics.average_response_time,
                compression_savings: self.metrics.compression_savings,
                cache_hits: self.metrics.cache_hits,
                cache_misses: self.metrics.cache_misses,
                cache_evictions: self.metrics.cache_evictions,
                active_connections: self.connection_stats.active_connections,
            }),
    {
        PerformanceStats {
            cache_entries: self.response_cache.len(),
            property_cache_entries: self.property_cache.len(),
            total_requests: self.metrics.total_requests,
            average_response_time: self.metrics.average_response_time,
            compression_savings: self.metrics.compression_savings,
            cache_hits: self.metrics.cache_hits,
            cache_misses: self.metrics.cache_misses,
            cache_evictions: self.metrics.cache_evictions,
            active_connections: self.connection_stats.active_connections,
        }
    }

    /// Empties both caches.
    pub fn clear_caches(&mut self)
        requires
            old(self).wf(),
        ensures
            final(self).wf(),
            final(self).response_cache.entries@.len() == 0,
            final(self).property_cache.entries@.len() == 0,
            final(self).response_cache.capacity == old(self).response_cache.capacity,
            final(self).property_cache.capacity == old(self).property_cache.capacity,
            final(self).metrics == old(self).metrics,
            final(self).config == old(self).config,
            final(self).connection_stats == old(self).connection_stats,
    {
        self.response_cache.clear();
        self.property_cache.clear();
    }

    /// What an optimization pass at `now` does, from this state to `after`: entries older than their lifetime leave both caches, the dropped responses being counted as evictions.
    pub open spec fn optimized(self, after: Self, now: u64) -> bool {
        &&& (after.config == self.config)
        &&& (after.connection_stats == self.connection_stats)
        &&& (after.response_cache.entries@ =~= self.response_cache.entries@.filter(
            |e: (CacheKey, CacheEntry)|
                !(spec_elapsed(e.1.created_at, now) > self.config.cache_ttl),
        ))
        &&& (after.property_cache.entries@ =~= self.property_cache.entries@.filter(
            |e: (String, PropertyCacheEntry)|
                !(spec_elapsed(e.1.created_at, now) > self.config.property_cache_ttl),
        ))
        &&& (after.metrics == (PerformanceMetrics {
            cache_evictions: spec_sat_add(
                self.metrics.cache_evictions,
                (self.response_cache.entries@.len()
                    - after.response_cache.entries@.len()) as u64,
            ),
            ..self.metrics
        }))
    }

    /// Drops, at clock reading `now`, every cached response older than the
    /// cache TTL (counting each as an eviction) and all cached properties
    /// older than the property TTL.
    pub fn optimize_cache_at(&mut self, now: u64)
        requires
            old(self).wf(),
        ensures
            final(self).wf(),
            old(self).optimized(*final(self), now),
    {
        let ttl = self.config.cache_ttl;
        let pttl = self.config.property_cache_ttl;
        let before = self.response_cache.len();
        let ghost keep_resp = |e: (CacheKey, CacheEntry)| !(spec_elapsed(e.1.created_at, now) > ttl);
        let fresh = |e: &(CacheKey, CacheEntry)| -> (b: bool)
            ensures
                b == !(spec_elapsed(e.1.created_at, now) > ttl),
            { !(elapsed(e.1.created_at, now) > ttl) };
        self.response_cache.retain_where(fresh, Ghost(keep_resp));
        let ghost keep_prop = |e: (String, PropertyCacheEntry)|
            !(spec_elapsed(e.1.created_at, now) > pttl);
        let fresh_props = |e: &(String, PropertyCacheEntry)| -> (b: bool)
            ensures
                b == !(spec_elapsed(e.1.created_at, now) > pttl),
            { !(elapsed(e.1.created_at, now) > pttl) };
        self.property_cache.retain_where(fresh_props, Ghost(keep_prop));
        proof {
            old(self).response_cache.entries@.lemma_filter_len(keep_resp);
        }
        let after = self.response_cache.len();
        self.metrics.cache_evictions = sat_add(self.metrics.cache_evictions, (before - after) as u64);
    }

    /// Drops expired cache entries now.
    pub fn optimize_cache(&mut self)
        requires
            old(self).wf(),
        ensures
            final(self).wf(),
            exists|now: u64| #[trigger] old(self).optimized(*final(self), now),
    {
        let now = self.clock.now_ms();
        self.optimize_cache_at(now);
        assert(old(self).optimized(*self, now));
    }
}


/// A response stored at `now` is found again by a lookup with the same
/// path, method and tag at `later`, while it is fresh: the same data,
/// content type and tag come back.
pub proof fn lemma_response_cached_then_found(
    p0: DavPerformance,
    p1: DavPerformance,
    p2: DavPerformance,
    path: &str,
    method: &str,
    data: Vec<u8>,
    content_type: String,
    etag: String,
    tag: &str,
    now: u64,
    later: u64,
    r: Option<CachedResponse>,
)
    requires
        p0.response_stored(p1, path, method, data, content_type, etag, now),
        p1.response_looked_up(p2, path, method, Some(tag), later, r),
        tag@ == etag@,
        now <= later,
        later - now < p0.config.cache_ttl,
    ensures
        r matches Some(c) && c.data@ == data@ && c.content_type@ == content_type@ && c.etag@ == etag@,
{
}

/// Properties stored at `now` are found again at `later`, while they are
/// fresh.
pub proof fn lemma_properties_cached_then_found(
    p0: DavPerformance,
    p1: DavPerformance,
    p2: DavPerformance,
    resource_path: &str,
    properties: Vec<u8>,
    now: u64,
    later: u64,
    r: Option<Vec<u8>>,
)
    requires
        p0.properties_stored(p1, resource_path, properties, now),
        p1.properties_looked_up(p2, resource_path, later, r),
        now <= later,
        later - now < p0.config.property_cache_ttl,
    ensures
        r matches Some(p) && p@ == properties@,
{
}

} // verus!
