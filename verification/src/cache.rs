//! The two-level data cache: a first level for entries up to a size limit,
//! a second level for larger ones, with time-to-live, promotion of hot
//! second-level entries, access tracking and statistics.
use vstd::prelude::*;

use crate::clock::Clock;
use crate::counter::{elapsed, sat_add, spec_elapsed, spec_sat_add};
pub use crate::lru::LruCache;
use crate::lru::{count_after_put, dropped_by_put, entries_map, LruKey};
use crate::request::opt_view;

verus! {

/// Configuration of the data cache. Durations are in milliseconds.
#[derive(Debug, Clone, Copy, PartialEq, Eq, Structural)]
pub struct CacheConfig {
    /// First-level capacity, in entries.
    pub l1_size: usize,
    /// Second-level capacity, in entries.
    pub l2_size: usize,
    /// Whether a persistent third level is used.
    pub enable_l3_cache: bool,
    /// Time-to-live of entries stored without one.
    pub default_ttl: u64,
    /// Largest entry, in bytes, kept in the first level.
    pub l1_max_entry_size: usize,
    /// Size, in bytes, from which second-level entries are compressed.
    pub compression_threshold: usize,
    /// Whether the cache may resize itself.
    pub enable_adaptive_sizing: bool,
    /// Interval between cleanups.
    pub cleanup_interval: u64,
    /// Whether accesses are counted per key.
    pub enable_frequency_tracking: bool,
}

impl Default for CacheConfig {
    fn default() -> (r: CacheConfig)
        ensures
            r == (CacheConfig {
                l1_size: 10000,
                l2_size: 50000,
                enable_l3_cache: false,
                default_ttl: 3_600_000,
                l1_max_entry_size: 1048576,
                compression_threshold: 4096,
                enable_adaptive_sizing: true,
                cleanup_interval: 300_000,
                enable_frequency_tracking: true,
            }),
    {
        CacheConfig {
            l1_size: 10000,
            l2_size: 50000,
            enable_l3_cache: false,
            default_ttl: 3_600_000,
            l1_max_entry_size: 1024 * 1024,
            compression_threshold: 4096,
            enable_adaptive_sizing: true,
            cleanup_interval: 300_000,
            enable_frequency_tracking: true,
        }
    }
}

/// The key of a cached item: namespace, key and optional version.
#[derive(Debug, Clone, PartialEq, Eq, Hash)]
pub struct CacheKey {
    pub namespace: String,
    pub key: String,
    pub version: Option<String>,
}

impl LruKey for CacheKey {
    type KeyView = (Seq<char>, Seq<char>, Option<Seq<char>>);

    open spec fn key_view(&self) -> (Seq<char>, Seq<char>, Option<Seq<char>>) {
        (self.namespace@, self.key@, opt_view(self.version))
    }

    fn key_eq(&self, other: &Self) -> (r: bool) {
        let same_version = match (&self.version, &other.version) {
            (Some(a), Some(b)) => *a == *b,
            (None, None) => true,
            _ => false,
        };
        self.namespace == other.namespace && self.key == other.key && same_version
    }

    fn key_clone(&self) -> (r: Self) {
        CacheKey {
            namespace: self.namespace.clone(),
            key: self.key.clone(),
            version: self.version.clone(),
        }
    }
}

/// A first-level entry. Times are clock readings and durations, in
/// milliseconds.
#[derive(Debug, Clone)]
pub struct CacheEntry {
    pub data: Vec<u8>,
    pub content_type: String,
    pub created_at: u64,
    pub last_accessed: u64,
    pub access_count: u64,
    pub ttl: u64,
    pub size: usize,
}

/// A second-level entry.
#[derive(Debug, Clone)]
pub struct CompressedEntry {
    pub compressed_data: Vec<u8>,
    pub original_size: usize,
    pub content_type: String,
    pub created_at: u64,
    pub last_accessed: u64,
    pub access_count: u64,
    pub ttl: u64,
}

/// Accesses counted for a key.
#[derive(Debug, Clone, Copy, PartialEq, Eq, Structural)]
pub struct AccessInfo {
    pub count: u64,
    pub last_access: u64,
}

/// Cache counters.
#[derive(Debug, Clone, Copy, PartialEq, Eq, Structural)]
pub struct CacheMetrics {
    pub l1_hits: u64,
    pub l1_misses: u64,
    pub l2_hits: u64,
    pub l2_misses: u64,
    pub l3_hits: u64,
    pub l3_misses: u64,
    pub total_requests: u64,
    pub evictions: u64,
    pub promotions: u64,
    pub demotions: u64,
    pub compression_savings: u64,
}

/// Data returned by the cache. `cached_at` is the clock reading at which it
/// was stored.
#[derive(Debug, Clone)]
pub struct CachedData {
    pub data: Vec<u8>,
    pub content_type: String,
    pub cached_at: u64,
    pub access_count: u64,
}

/// Statistics of the cache.
#[derive(Debug, Clone, Copy, PartialEq, Eq, Structural)]
pub struct CacheStats {
    pub l1_entries: usize,
    pub l2_entries: usize,
    pub l1_hits: u64,
    pub l1_misses: u64,
    pub l2_hits: u64,
    pub l2_misses: u64,
    pub l3_hits: u64,
    pub l3_misses: u64,
    pub total_requests: u64,
    pub evictions: u64,
    pub promotions: u64,
    pub demotions: u64,
    pub compression_savings: u64,
    pub memory_usage: u64,
}

/// A persistent third cache level. Implemented by the users of the cache.
pub trait PersistentCache {
    fn get(&self, key: &CacheKey) -> Option<Vec<u8>>;

    /// Stores data for `ttl` milliseconds.
    fn put(&self, key: &CacheKey, data: &[u8], ttl: u64) -> Result<(), CacheError>;

    fn remove(&self, key: &CacheKey) -> Result<(), CacheError>;

    /// Drops expired entries and returns how many.
    fn cleanup_expired(&self) -> Result<u64, CacheError>;
}

/// Errors of cache back ends.
#[derive(Debug, Clone)]
pub enum CacheError {
    SerializationError(String),
    CompressionError(String),
    PersistentStoreError(String),
    InvalidKey(String),
}

impl CacheError {
    /// The error's message.
    pub open spec fn message(self) -> Seq<char> {
        match self {
            CacheError::SerializationError(m) => "Serialization error: "@ + m@,
            CacheError::CompressionError(m) => "Compression error: "@ + m@,
            CacheError::PersistentStoreError(m) => "Persistent store error: "@ + m@,
            CacheError::InvalidKey(m) => "Invalid key: "@ + m@,
        }
    }

    /// The error's message, as its `Display` form writes it.
    pub fn to_string(&self) -> (r: String)
        ensures
            r@ == self.message(),
    {
        let (prefix, m) = match self {
            CacheError::SerializationError(m) => ("Serialization error: ", m),
            CacheError::CompressionError(m) => ("Compression error: ", m),
            CacheError::PersistentStoreError(m) => ("Persistent store error: ", m),
            CacheError::InvalidKey(m) => ("Invalid key: ", m),
        };
        let mut s = String::from_str(prefix);
        s.append(m.as_str());
        s
    }
}

/// Whether an entry stored at `created_at` with time-to-live `ttl` is still
/// valid at `now`.
pub open spec fn is_fresh(created_at: u64, ttl: u64, now: u64) -> bool {
    spec_elapsed(created_at, now) < ttl
}

/// The sum of the sizes of first-level entries.
pub open spec fn l1_bytes(s: Seq<(CacheKey, CacheEntry)>) -> int
    decreases s.len(),
{
    if s.len() == 0 {
        0
    } else {
        l1_bytes(s.drop_last()) + s.last().1.size
    }
}

/// The sum of the stored sizes of second-level entries.
pub open spec fn l2_bytes(s: Seq<(CacheKey, CompressedEntry)>) -> int
    decreases s.len(),
{
    if s.len() == 0 {
        0
    } else {
        l2_bytes(s.drop_last()) + s.last().1.compressed_data@.len()
    }
}

/// The two-level data cache.
pub struct DavCache {
    pub l1_cache: LruCache<CacheKey, CacheEntry>,
    pub l2_cache: LruCache<CacheKey, CompressedEntry>,
    pub metrics: CacheMetrics,
    pub frequency: LruCache<CacheKey, AccessInfo>,
    /// How long access counts are kept after the last access.
    pub window_size: u64,
    pub config: CacheConfig,
    pub clock: Clock,
}

impl DavCache {
    /// The data and content type that a lookup of key `k` finds at `now`:
    /// a fresh first-level entry, else a fresh second-level one.
    pub open spec fn fresh_value(&self, k: (Seq<char>, Seq<char>, Option<Seq<char>>), now: u64) -> Option<(Seq<u8>, Seq<char>)> {
        let m1 = self.l1_cache.map();
        let m2 = self.l2_cache.map();
        if m1.contains_key(k) && is_fresh(m1[k].created_at, m1[k].ttl, now) {
            Some((m1[k].data@, m1[k].content_type@))
        } else if m2.contains_key(k) && is_fresh(m2[k].created_at, m2[k].ttl, now) {
            Some((m2[k].compressed_data@, m2[k].content_type@))
        } else {
            None
        }
    }

    /// The cache's invariant: no key occurs twice in a level.
    pub open spec fn wf(&self) -> bool {
        self.l1_cache.wf() && self.l2_cache.wf() && self.frequency.wf() && self.frequency.capacity
            == usize::MAX
    }

    /// An empty cache with zero counters.
    pub fn new(config: CacheConfig) -> (r: DavCache)
        ensures
            r.wf(),
            r.config == config,
            r.l1_cache.entries@.len() == 0,
            r.l1_cache.capacity == config.l1_size,
            r.l2_cache.entries@.len() == 0,
            r.l2_cache.capacity == config.l2_size,
            r.frequency.entries@.len() == 0,
            r.window_size == 300_000,
            r.metrics == (CacheMetrics {
                l1_hits: 0,
                l1_misses: 0,
                l2_hits: 0,
                l2_misses: 0,
                l3_hits: 0,
                l3_misses: 0,
                total_requests: 0,
                evictions: 0,
                promotions: 0,
                demotions: 0,
                compression_savings: 0,
            }),
    {
        DavCache {
            l1_cache: LruCache::new(config.l1_size),
            l2_cache: LruCache::new(config.l2_size),
            metrics: CacheMetrics {
                l1_hits: 0,
                l1_misses: 0,
                l2_hits: 0,
                l2_misses: 0,
                l3_hits: 0,
                l3_misses: 0,
                total_requests: 0,
                evictions: 0,
                promotions: 0,
                demotions: 0,
                compression_savings: 0,
            },
            frequency: LruCache::new(usize::MAX),
            window_size: 300_000,
            config,
            clock: Clock::start(),
        }
    }

    /// Counts an access to `key` at clock reading `now`.
    pub fn track_access(&mut self, key: &CacheKey, now: u64)
        requires
            old(self).wf(),
        ensures
            final(self).wf(),
            final(self).l1_cache == old(self).l1_cache,
            final(self).l2_cache == old(self).l2_cache,
            final(self).metrics == old(self).metrics,
            final(self).config == old(self).config,
            !old(self).config.enable_frequency_tracking ==> final(self).frequency == old(self).frequency,
            old(self).config.enable_frequency_tracking && old(self).frequency.entries@.len()
                < usize::MAX ==> final(self).frequency.map() == old(self).frequency.map().insert(
                key.key_view(),
                AccessInfo {
                    count: spec_sat_add(
                        if old(self).frequency.map().contains_key(key.key_view()) {
                            old(self).frequency.map()[key.key_view()].count
                        } else {
                            0
                        },
                        1,
                    ),
                    last_access: now,
                },
            ),
    {
        if !self.config.enable_frequency_tracking {
            return;
        }
        let count = match self.frequency.get(key) {
            Some(info) => info.count,
            None => 0,
        };
        let ghost before = self.frequency.map();
        let info = AccessInfo { count: sat_add(count, 1), last_access: now };
        self.frequency.put(key.key_clone(), info);
        assert(before.remove(key.key_view()).insert(key.key_view(), info) =~= before.insert(
            key.key_view(),
            info,
        ));
    }

    /// Reads a first-level entry at `now`: a fresh entry has its access time
    /// and count updated and is returned; a stale one is dropped.
    fn get_from_l1(&mut self, key: &CacheKey, now: u64) -> (r: Option<CacheEntry>)
        requires
            old(self).wf(),
        ensures
            final(self).wf(),
            final(self).l2_cache == old(self).l2_cache,
            final(self).frequency == old(self).frequency,
            final(self).metrics == old(self).metrics,
            final(self).config == old(self).config,
            final(self).l1_cache.capacity == old(self).l1_cache.capacity,
            ({
                let k = key.key_view();
                let m = old(self).l1_cache.map();
                if m.contains_key(k) && is_fresh(m[k].created_at, m[k].ttl, now) {
                    let e = CacheEntry {
                        last_accessed: now,
                        access_count: spec_sat_add(m[k].access_count, 1),
                        ..m[k]
                    };
                    &&& r matches Some(x) && x.data@ == e.data@ && x.content_type == e.content_type
                        && x.created_at == e.created_at && x.last_accessed == now && x.access_count
                        == e.access_count && x.ttl == e.ttl && x.size == e.size
                    &&& final(self).l1_cache.map() == m.insert(k, e)
                    &&& final(self).l1_cache.entries@.len() == old(self).l1_cache.entries@.len()
                } else {
                    &&& r is None
                    &&& final(self).l1_cache.map() == m.remove(k)
                }
            }),
    {
        let ghost m = self.l1_cache.map();
        let ghost s = self.l1_cache.entries@;
        let mut found: Option<CacheEntry> = None;
        let mut stale = false;
        match self.l1_cache.get_mut(key) {
            Some(entry) => {
                if elapsed(entry.created_at, now) < entry.ttl {
                    entry.last_accessed = now;
                    entry.access_count = sat_add(entry.access_count, 1);
                    let data = entry.data.clone();
                    assert(data@ =~= entry.data@);
                    found = Some(
                        CacheEntry {
                            data,
                            content_type: entry.content_type.clone(),
                            created_at: entry.created_at,
                            last_accessed: entry.last_accessed,
                            access_count: entry.access_count,
                            ttl: entry.ttl,
                            size: entry.size,
                        },
                    );
                } else {
                    stale = true;
                }
            },
            None => {},
        }
        proof {
            if m.contains_key(key.key_view()) {
                let i = crate::lru::position_of(s, key.key_view())->0;
                crate::lru::lemma_update_value_map(s, i, self.l1_cache.entries@[i].1);
                if !is_fresh(m[key.key_view()].created_at, m[key.key_view()].ttl, now) {
                    assert(self.l1_cache.entries@ =~= s);
                }
            }
        }
        if stale {
            self.l1_cache.remove(key);
        } else if found.is_none() {
            assert(m.remove(key.key_view()) =~= m);
        }
        found
    }

    /// Reads a second-level entry at `now`, as `get_from_l1` does.
    fn get_from_l2(&mut self, key: &CacheKey, now: u64) -> (r: Option<CompressedEntry>)
        requires
            old(self).wf(),
        ensures
            final(self).wf(),
            final(self).l1_cache == old(self).l1_cache,
            final(self).frequency == old(self).frequency,
            final(self).metrics == old(self).metrics,
            final(self).config == old(self).config,
            final(self).l2_cache.capacity == old(self).l2_cache.capacity,
            ({
                let k = key.key_view();
                let m = old(self).l2_cache.map();
                if m.contains_key(k) && is_fresh(m[k].created_at, m[k].ttl, now) {
                    let e = CompressedEntry {
                        last_accessed: now,
                        access_count: spec_sat_add(m[k].access_count, 1),
                        ..m[k]
                    };
                    &&& r matches Some(x) && x.compressed_data@ == e.compressed_data@ && x.content_type == e.content_type
                        && x.created_at == e.created_at && x.last_accessed == now && x.access_count
                        == e.access_count && x.ttl == e.ttl && x.original_size == e.original_size
                    &&& final(self).l2_cache.map() == m.insert(k, e)
                } else {
                    &&& r is None
                    &&& final(self).l2_cache.map() == m.remove(k)
                }
            }),
    {
        let ghost m = self.l2_cache.map();
        let ghost s = self.l2_cache.entries@;
        let mut found: Option<CompressedEntry> = None;
        let mut stale = false;
        match self.l2_cache.get_mut(key) {
            Some(entry) => {
                if elapsed(entry.created_at, now) < entry.ttl {
                    entry.last_accessed = now;
                    entry.access_count = sat_add(entry.access_count, 1);
                    let data = entry.compressed_data.clone();
                    assert(data@ =~= entry.compressed_data@);
                    found = Some(
                        CompressedEntry {
                            compressed_data: data,
                            original_size: entry.original_size,
                            content_type: entry.content_type.clone(),
                            created_at: entry.created_at,
                            last_accessed: entry.last_accessed,
                            access_count: entry.access_count,
                            ttl: entry.ttl,
                        },
                    );
                } else {
                    stale = true;
                }
            },
            None => {},
        }
        proof {
            if m.contains_key(key.key_view()) {
                let i = crate::lru::position_of(s, key.key_view())->0;
                crate::lru::lemma_update_value_map(s, i, self.l2_cache.entries@[i].1);
                if !is_fresh(m[key.key_view()].created_at, m[key.key_view()].ttl, now) {
                    assert(self.l2_cache.entries@ =~= s);
                }
            }
        }
        if stale {
            self.l2_cache.remove(key);
        } else if found.is_none() {
            assert(m.remove(key.key_view()) =~= m);
        }
        found
    }

    /// Stores data in the first level; replacing an existing entry counts
    /// as an eviction.
    fn put_in_l1(&mut self, key: &CacheKey, data: Vec<u8>, content_type: String, ttl: u64, now: u64)
        requires
            old(self).wf(),
        ensures
            final(self).wf(),
            final(self).l2_cache == old(self).l2_cache,
            final(self).frequency == old(self).frequency,
            final(self).config == old(self).config,
            final(self).l1_cache.capacity == old(self).l1_cache.capacity,
            final(self).l1_cache.map() == old(self).l1_cache.map().remove(
                dropped_by_put(old(self).l1_cache.entries@, old(self).l1_cache.capacity, key.key_view()),
            ).insert(
                key.key_view(),
                CacheEntry {
                    size: data@.len() as usize,
                    data,
                    content_type,
                    created_at: now,
                    last_accessed: now,
                    access_count: 0,
                    ttl,
                },
            ),
            final(self).l1_cache.entries@.len() == count_after_put(
                old(self).l1_cache.entries@,
                old(self).l1_cache.capacity,
                key.key_view(),
            ),
            final(self).metrics == (CacheMetrics {
                evictions: if old(self).l1_cache.map().contains_key(key.key_view()) {
                    spec_sat_add(old(self).metrics.evictions, 1)
                } else {
                    old(self).metrics.evictions
                },
                ..old(self).metrics
            }),
    {
        let entry = CacheEntry {
            size: data.len(),
            data,
            content_type,
            created_at: now,
            last_accessed: now,
            access_count: 0,
            ttl,
        };
        if self.l1_cache.put(key.key_clone(), entry).is_some() {
            self.metrics.evictions = sat_add(self.metrics.evictions, 1);
        }
    }

    /// Stores data in the second level; data of at least the compression
    /// threshold goes through the compressor, which keeps it as it is.
    fn put_in_l2(&mut self, key: &CacheKey, data: &Vec<u8>, content_type: &str, ttl: u64, now: u64)
        requires
            old(self).wf(),
        ensures
            final(self).wf(),
            final(self).l1_cache == old(self).l1_cache,
            final(self).frequency == old(self).frequency,
            final(self).config == old(self).config,
            final(self).l2_cache.capacity == old(self).l2_cache.capacity,
            final(self).l2_cache.map().contains_key(key.key_view()),
            final(self).l2_cache.map().remove(key.key_view()) == old(self).l2_cache.map().remove(
                dropped_by_put(old(self).l2_cache.entries@, old(self).l2_cache.capacity, key.key_view()),
            ).remove(key.key_view()),
            final(self).l2_cache.entries@.len() == count_after_put(
                old(self).l2_cache.entries@,
                old(self).l2_cache.capacity,
                key.key_view(),
            ),
            final(self).l2_cache.map()[key.key_view()].compressed_data@ == data@,
            final(self).l2_cache.map()[key.key_view()].original_size == data@.len(),
            final(self).l2_cache.map()[key.key_view()].content_type@ == content_type@,
            final(self).l2_cache.map()[key.key_view()].created_at == now,
            final(self).l2_cache.map()[key.key_view()].last_accessed == now,
            final(self).l2_cache.map()[key.key_view()].access_count == 0,
            final(self).l2_cache.map()[key.key_view()].ttl == ttl,
            final(self).metrics == (CacheMetrics {
                evictions: if old(self).l2_cache.map().contains_key(key.key_view()) {
                    spec_sat_add(old(self).metrics.evictions, 1)
                } else {
                    old(self).metrics.evictions
                },
                ..old(self).metrics
            }),
    {
        let stored = data.clone();
        assert(stored@ =~= data@);
        let entry = CompressedEntry {
            compressed_data: stored,
            original_size: data.len(),
            content_type: String::from_str(content_type),
            created_at: now,
            last_accessed: now,
            access_count: 0,
            ttl,
        };
        if self.l2_cache.put(key.key_clone(), entry).is_some() {
            self.metrics.evictions = sat_add(self.metrics.evictions, 1);
        }
    }

    /// What a lookup of `key` at `now` does, from this state to `after`, returning `r`: the request is counted; a fresh first-level entry is returned with its access counted (the first level otherwise unchanged); else a fresh second-level entry is returned, counted, and promoted when used often and small enough; else both levels drop the key and the miss is counted.
    pub open spec fn looked_up(self, after: Self, key: CacheKey, now: u64, r: Option<CachedData>) -> bool {
        &&& (after.config == self.config)
        &&& (after.metrics.total_requests == spec_sat_add(self.metrics.total_requests, 1))
        &&& (({
            let k = key.key_view();
            let m1 = self.l1_cache.map();
            let m2 = self.l2_cache.map();
            if m1.contains_key(k) && is_fresh(m1[k].created_at, m1[k].ttl, now) {
                &&& r matches Some(d) && d.data@ =~= m1[k].data@ && d.content_type == m1[k].content_type
                    && d.cached_at == m1[k].created_at && d.access_count == spec_sat_add(
                    m1[k].access_count,
                    1,
                )
                &&& after.metrics.l1_hits == spec_sat_add(self.metrics.l1_hits, 1)
                &&& after.metrics.l1_misses == self.metrics.l1_misses
                &&& after.l2_cache == self.l2_cache
                &&& after.l1_cache.map() == m1.insert(
                    k,
                    CacheEntry { last_accessed: now, access_count: spec_sat_add(m1[k].access_count, 1), ..m1[k] },
                )
                &&& after.l1_cache.entries@.len() == self.l1_cache.entries@.len()
            } else if m2.contains_key(k) && is_fresh(m2[k].created_at, m2[k].ttl, now) {
                &&& r matches Some(d) && d.data@ =~= m2[k].compressed_data@ && d.content_type
                    == m2[k].content_type && d.cached_at == m2[k].created_at && d.access_count
                    == spec_sat_add(m2[k].access_count, 1)
                &&& after.metrics.l1_misses == spec_sat_add(self.metrics.l1_misses, 1)
                &&& after.metrics.l2_hits == spec_sat_add(self.metrics.l2_hits, 1)
                &&& after.metrics.promotions == (if spec_sat_add(m2[k].access_count, 1) > 5
                    && m2[k].original_size <= self.config.l1_max_entry_size
                    && m2[k].compressed_data@.len() <= self.config.l1_max_entry_size {
                    spec_sat_add(self.metrics.promotions, 1)
                } else {
                    self.metrics.promotions
                })
            } else {
                &&& r is None
                &&& after.metrics.l1_misses == spec_sat_add(self.metrics.l1_misses, 1)
                &&& after.metrics.l2_misses == spec_sat_add(self.metrics.l2_misses, 1)
                &&& after.l1_cache.map() =~= m1.remove(k)
                &&& after.l2_cache.map() =~= m2.remove(k)
            }
        }))
    }

    /// Looks `key` up at clock reading `now`: first level, then second
    /// level. A second-level hit on an entry read more than five times
    /// before, small enough for the first level, is promoted to it.
    pub fn get_at(&mut self, key: &CacheKey, now: u64) -> (r: Option<CachedData>)
        requires
            old(self).wf(),
        ensures
            final(self).wf(),
            old(self).looked_up(*final(self), *key, now, r),
    {
        self.metrics.total_requests = sat_add(self.metrics.total_requests, 1);
        if self.config.enable_frequency_tracking {
            self.track_access(key, now);
        }
        let l1 = self.get_from_l1(key, now);
        match l1 {
            Some(entry) => {
                self.metrics.l1_hits = sat_add(self.metrics.l1_hits, 1);
                return Some(
                    CachedData {
                        data: entry.data,
                        content_type: entry.content_type,
                        cached_at: entry.created_at,
                        access_count: entry.access_count,
                    },
                );
            },
            None => {},
        }
        self.metrics.l1_misses = sat_add(self.metrics.l1_misses, 1);
        let l2 = self.get_from_l2(key, now);
        match l2 {
            Some(entry) => {
                self.metrics.l2_hits = sat_add(self.metrics.l2_hits, 1);
                let data = entry.compressed_data.clone();
                assert(data@ =~= entry.compressed_data@);
                if entry.access_count > 5 && entry.original_size <= self.config.l1_max_entry_size {
                    if data.len() <= self.config.l1_max_entry_size {
                        let copy = data.clone();
                        self.put_in_l1(key, copy, entry.content_type.clone(), entry.ttl, now);
                        self.metrics.promotions = sat_add(self.metrics.promotions, 1);
                    }
                }
                return Some(
                    CachedData {
                        data,
                        content_type: entry.content_type,
                        cached_at: entry.created_at,
                        access_count: entry.access_count,
                    },
                );
            },
            None => {},
        }
        self.metrics.l2_misses = sat_add(self.metrics.l2_misses, 1);
        None
    }

    /// Looks `key` up now.
    pub fn get(&mut self, key: &CacheKey) -> (r: Option<CachedData>)
        requires
            old(self).wf(),
        ensures
            final(self).wf(),
            exists|now: u64| #[trigger] old(self).looked_up(*final(self), *key, now, r),
    {
        let now = self.clock.now_ms();
        let r = self.get_at(key, now);
        assert(old(self).looked_up(*self, *key, now, r));
        r
    }

    /// What storing `data` under `key` at `now` does, from this state to `after`: small data goes to the first level, larger data to the second, with the given lifetime or the default one; the level written keeps its other entries, except its oldest one when a new key finds it full, and the other level is unchanged; replacing an entry counts as an eviction, and no other counter changes.
    pub open spec fn stored(self, after: Self, key: CacheKey, data: Vec<u8>, content_type: String, ttl: Option<u64>, now: u64) -> bool {
        &&& (after.config == self.config)
        &&& (after.frequency == self.frequency)
        &&& (({
            let t = match ttl {
                Some(t) => t,
                None => self.config.default_ttl,
            };
            let k = key.key_view();
            if data@.len() <= self.config.l1_max_entry_size {
                &&& after.l2_cache == self.l2_cache
                &&& after.l1_cache.map() == self.l1_cache.map().remove(
                    dropped_by_put(self.l1_cache.entries@, self.l1_cache.capacity, k),
                ).insert(
                    k,
                    CacheEntry {
                        size: data@.len() as usize,
                        data,
                        content_type,
                        created_at: now,
                        last_accessed: now,
                        access_count: 0,
                        ttl: t,
                    },
                )
                &&& after.l1_cache.entries@.len() == count_after_put(self.l1_cache.entries@, self.l1_cache.capacity, k)
                &&& after.l1_cache.capacity == self.l1_cache.capacity
                &&& after.metrics == (CacheMetrics {
                    evictions: if self.l1_cache.map().contains_key(k) {
                        spec_sat_add(self.metrics.evictions, 1)
                    } else {
                        self.metrics.evictions
                    },
                    ..self.metrics
                })
            } else {
                &&& after.l1_cache == self.l1_cache
                &&& after.l2_cache.map().contains_key(k)
                &&& after.l2_cache.map().remove(k) == self.l2_cache.map().remove(
                    dropped_by_put(self.l2_cache.entries@, self.l2_cache.capacity, k),
                ).remove(k)
                &&& after.l2_cache.entries@.len() == count_after_put(self.l2_cache.entries@, self.l2_cache.capacity, k)
                &&& after.l2_cache.capacity == self.l2_cache.capacity
                &&& after.metrics == (CacheMetrics {
                    evictions: if self.l2_cache.map().contains_key(k) {
                        spec_sat_add(self.metrics.evictions, 1)
                    } else {
                        self.metrics.evictions
                    },
                    ..self.metrics
                })
                &&& after.l2_cache.map()[k].compressed_data@ =~= data@
                &&& after.l2_cache.map()[k].content_type@ =~= content_type@
                &&& after.l2_cache.map()[k].created_at == now
                &&& after.l2_cache.map()[k].ttl == t
            }
        }))
    }

    /// Stores data under `key` at clock reading `now`, with the given
    /// time-to-live or the default one: in the first level when it fits the
    /// first-level entry limit, in the second level otherwise.
    pub fn put_at(&mut self, key: &CacheKey, data: Vec<u8>, content_type: String, ttl: Option<u64>, now: u64)
        requires
            old(self).wf(),
        ensures
            final(self).wf(),
            old(self).stored(*final(self), *key, data, content_type, ttl, now),
    {
        let t = match ttl {
            Some(t) => t,
            None => self.config.default_ttl,
        };
        if data.len() <= self.config.l1_max_entry_size {
            self.put_in_l1(key, data, content_type, t, now);
        } else {
            self.put_in_l2(key, &data, content_type.as_str(), t, now);
        }
    }

    /// Stores data now.
    pub fn put(&mut self, key: &CacheKey, data: Vec<u8>, content_type: String, ttl: Option<u64>)
        requires
            old(self).wf(),
        ensures
            final(self).wf(),
            exists|now: u64| #[trigger] old(self).stored(*final(self), *key, data, content_type, ttl, now),
    {
        let now = self.clock.now_ms();
        let ghost (d, c) = (data, content_type);
        self.put_at(key, data, content_type, ttl, now);
        assert(old(self).stored(*self, *key, d, c, ttl, now));
    }

    /// Removes `key` from both levels.
    pub fn remove(&mut self, key: &CacheKey)
        requires
            old(self).wf(),
        ensures
            final(self).wf(),
            final(self).config == old(self).config,
            final(self).metrics == old(self).metrics,
            final(self).l1_cache.map() == old(self).l1_cache.map().remove(key.key_view()),
            final(self).l2_cache.map() == old(self).l2_cache.map().remove(key.key_view()),
    {
        self.l1_cache.remove(key);
        self.l2_cache.remove(key);
    }

    /// The bytes held by both levels: entry sizes in the first level and
    /// stored sizes in the second, held at `u64::MAX`.
    pub fn calculate_memory_usage(&self) -> (r: u64)
        ensures
            r == (if l1_bytes(self.l1_cache.entries@) + l2_bytes(self.l2_cache.entries@) <= u64::MAX {
                (l1_bytes(self.l1_cache.entries@) + l2_bytes(self.l2_cache.entries@)) as u64
            } else {
                u64::MAX
            }),
    {
        let mut total: u128 = 0;
        let mut i: usize = 0;
        let l1 = self.l1_cache.iter();
        while i < l1.len()
            invariant
                i <= l1@.len(),
                l1@ == self.l1_cache.entries@,
                total == l1_bytes(l1@.take(i as int)),
                total <= i * (usize::MAX as int),
            decreases l1.len() - i,
        {
            assert(l1@.take(i + 1).drop_last() =~= l1@.take(i as int));
            total = total + l1[i].1.size as u128;
            i = i + 1;
        }
        assert(l1@.take(i as int) =~= l1@);
        let first = total;
        let mut j: usize = 0;
        let l2 = self.l2_cache.iter();
        let mut second: u128 = 0;
        while j < l2.len()
            invariant
                j <= l2@.len(),
                l2@ == self.l2_cache.entries@,
                second == l2_bytes(l2@.take(j as int)),
                second <= j * (usize::MAX as int),
            decreases l2.len() - j,
        {
            assert(l2@.take(j + 1).drop_last() =~= l2@.take(j as int));
            second = second + l2[j].1.compressed_data.len() as u128;
            j = j + 1;
        }
        assert(l2@.take(j as int) =~= l2@);
        if first <= u64::MAX as u128 && second <= u64::MAX as u128 && first + second
            <= u64::MAX as u128 {
            (first + second) as u64
        } else {
            u64::MAX
        }
    }

    /// Whether `r` reports this cache's entry counts, counters and memory use.
    pub open spec fn reports_stats(&self, r: CacheStats) -> bool {
        &&& (r.l1_entries == self.l1_cache.entries@.len())
        &&& (r.l2_entries == self.l2_cache.entries@.len())
        &&& (r.l1_hits == self.metrics.l1_hits)
        &&& (r.l1_misses == self.metrics.l1_misses)
        &&& (r.l2_hits == self.metrics.l2_hits)
        &&& (r.l2_misses == self.metrics.l2_misses)
        &&& (r.l3_hits == self.metrics.l3_hits)
        &&& (r.l3_misses == self.metrics.l3_misses)
        &&& (r.total_requests == self.metrics.total_requests)
        &&& (r.evictions == self.metrics.evictions)
        &&& (r.promotions == self.metrics.promotions)
        &&& (r.demotions == self.metrics.demotions)
        &&& (r.compression_savings == self.metrics.compression_savings)
        &&& (r.memory_usage == (if l1_bytes(self.l1_cache.entries@) + l2_bytes(self.l2_cache.entries@)
            <= u64::MAX {
            (l1_bytes(self.l1_cache.entries@) + l2_bytes(self.l2_cache.entries@)) as u64
        } else {
            u64::MAX
        }))
    }

    /// The cache's statistics.
    pub fn get_stats(&self) -> (r: CacheStats)
        ensures
            self.reports_stats(r),
    {
        CacheStats {
            l1_entries: self.l1_cache.len(),
            l2_entries: self.l2_cache.len(),
            l1_hits: self.metrics.l1_hits,
            l1_misses: self.metrics.l1_misses,
            l2_hits: self.metrics.l2_hits,
            l2_misses: self.metrics.l2_misses,
            l3_hits: self.metrics.l3_hits,
            l3_misses: self.metrics.l3_misses,
            total_requests: self.metrics.total_requests,
            evictions: self.metrics.evictions,
            promotions: self.metrics.promotions,
            demotions: self.metrics.demotions,
            compression_savings: self.metrics.compression_savings,
            memory_usage: self.calculate_memory_usage(),
        }
    }

    /// What a cleanup at `now` does, from this state to `after`: expired entries leave both levels, and with frequency tracking on, access counts not touched within the window are dropped.
    pub open spec fn swept(self, after: Self, now: u64) -> bool {
        &&& (after.config == self.config)
        &&& (after.metrics == self.metrics)
        &&& (after.l1_cache.entries@ =~= self.l1_cache.entries@.filter(
            |e: (CacheKey, CacheEntry)| is_fresh(e.1.created_at, e.1.ttl, now),
        ))
        &&& (after.l2_cache.entries@ =~= self.l2_cache.entries@.filter(
            |e: (CacheKey, CompressedEntry)| is_fresh(e.1.created_at, e.1.ttl, now),
        ))
        &&& (self.config.enable_frequency_tracking ==> after.frequency.entries@ =~= self.frequency.entries@.filter(
            |e: (CacheKey, AccessInfo)|
                (now >= self.window_size ==> e.1.last_access > now - self.window_size),
        ))
        &&& (!self.config.enable_frequency_tracking ==> after.frequency == self.frequency)
    }

    /// Drops, at clock reading `now`, every entry past its time-to-live, and,
    /// when accesses are tracked, the access counts of keys not read within
    /// the tracking window.
    pub fn cleanup_at(&mut self, now: u64)
        requires
            old(self).wf(),
        ensures
            final(self).wf(),
            old(self).swept(*final(self), now),
    {
        let keep1 = |e: &(CacheKey, CacheEntry)| -> (b: bool)
            ensures
                b == is_fresh(e.1.created_at, e.1.ttl, now),
            { elapsed(e.1.created_at, now) < e.1.ttl };
        self.l1_cache.retain_where(
            keep1,
            Ghost(|e: (CacheKey, CacheEntry)| is_fresh(e.1.created_at, e.1.ttl, now)),
        );
        let keep2 = |e: &(CacheKey, CompressedEntry)| -> (b: bool)
            ensures
                b == is_fresh(e.1.created_at, e.1.ttl, now),
            { elapsed(e.1.created_at, now) < e.1.ttl };
        self.l2_cache.retain_where(
            keep2,
            Ghost(|e: (CacheKey, CompressedEntry)| is_fresh(e.1.created_at, e.1.ttl, now)),
        );
        if self.config.enable_frequency_tracking {
            let window = self.window_size;
            let keep3 = |e: &(CacheKey, AccessInfo)| -> (b: bool)
                ensures
                    b == (now >= window ==> e.1.last_access > now - window),
                { now < window || e.1.last_access > now - window };
            self.frequency.retain_where(
                keep3,
                Ghost(|e: (CacheKey, AccessInfo)| (now >= window ==> e.1.last_access > now - window)),
            );
        }
    }

    /// Drops expired entries now.
    pub fn cleanup(&mut self)
        requires
            old(self).wf(),
        ensures
            final(self).wf(),
            exists|now: u64| #[trigger] old(self).swept(*final(self), now),
    {
        let now = self.clock.now_ms();
        self.cleanup_at(now);
        assert(old(self).swept(*self, now));
    }
}


/// A lookup at `later` finds what was stored under the same key at `now`,
/// while its lifetime has not passed: the same data and content type come
/// back. Data too large for the first level goes to the second, and a fresh
/// first-level entry under the key would still be found first; the law
/// leaves that case out.
pub proof fn lemma_put_then_get(
    c0: DavCache,
    c1: DavCache,
    c2: DavCache,
    key: CacheKey,
    data: Vec<u8>,
    content_type: String,
    ttl: Option<u64>,
    now: u64,
    later: u64,
    r: Option<CachedData>,
)
    requires
        c0.stored(c1, key, data, content_type, ttl, now),
        c1.looked_up(c2, key, later, r),
        now <= later,
        later - now < (match ttl {
            Some(t) => t,
            None => c0.config.default_ttl,
        }),
        data@.len() <= c0.config.l1_max_entry_size || !(c0.l1_cache.map().contains_key(key.key_view())
            && is_fresh(
            c0.l1_cache.map()[key.key_view()].created_at,
            c0.l1_cache.map()[key.key_view()].ttl,
            later,
        )),
    ensures
        r matches Some(d) && d.data@ == data@ && d.content_type@ == content_type@,
{
}

/// A lookup after the lifetime of what was stored has passed finds nothing
/// of it: when the data went to the first level, the lookup misses, unless
/// the second level holds a fresh entry under the key.
pub proof fn lemma_expired_put_misses(
    c0: DavCache,
    c1: DavCache,
    c2: DavCache,
    key: CacheKey,
    data: Vec<u8>,
    content_type: String,
    ttl: Option<u64>,
    now: u64,
    later: u64,
    r: Option<CachedData>,
)
    requires
        c0.stored(c1, key, data, content_type, ttl, now),
        c1.looked_up(c2, key, later, r),
        now <= later,
        later - now >= (match ttl {
            Some(t) => t,
            None => c0.config.default_ttl,
        }),
        data@.len() <= c0.config.l1_max_entry_size,
        !(c0.l2_cache.map().contains_key(key.key_view()) && is_fresh(
            c0.l2_cache.map()[key.key_view()].created_at,
            c0.l2_cache.map()[key.key_view()].ttl,
            later,
        )),
    ensures
        r is None,
{
}

} // verus!
