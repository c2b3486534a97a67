use dav::cache::{CacheConfig, CacheError, CacheKey, DavCache};
use dav::lru::LruCache;

fn key(name: &str) -> CacheKey {
    CacheKey { namespace: "calendar".to_string(), key: name.to_string(), version: None }
}

#[test]
fn test_lru_cache_basic_operations() {
    let mut cache: LruCache<String, String> = LruCache::new(3);

    cache.put("key1".to_string(), "value1".to_string());
    cache.put("key2".to_string(), "value2".to_string());
    cache.put("key3".to_string(), "value3".to_string());

    assert_eq!(cache.len(), 3);
    assert!(cache.get_mut(&"key1".to_string()).is_some());

    cache.put("key4".to_string(), "value4".to_string());
    assert_eq!(cache.len(), 3);

    cache.remove(&"key2".to_string());
    assert_eq!(cache.len(), 2);
}

#[test]
fn lru_evicts_oldest_entry_when_full() {
    let mut cache: LruCache<String, u32> = LruCache::new(2);
    cache.put("a".to_string(), 1);
    cache.put("b".to_string(), 2);
    assert_eq!(cache.put("a".to_string(), 10), Some(1));
    assert_eq!(cache.len(), 2);
    cache.put("c".to_string(), 3);
    assert!(cache.get(&"a".to_string()).is_none());
    assert_eq!(cache.get(&"b".to_string()), Some(&2));
    assert_eq!(cache.get(&"c".to_string()), Some(&3));
}

#[test]
fn test_cache_error_display() {
    let error = CacheError::SerializationError("test error".to_string());
    assert!(error.to_string().contains("Serialization error"));

    let error = CacheError::CompressionError("compression failed".to_string());
    assert!(error.to_string().contains("Compression error"));

    let error = CacheError::InvalidKey("invalid key".to_string());
    assert!(error.to_string().contains("Invalid key"));

    let error = CacheError::PersistentStoreError("down".to_string());
    assert_eq!(error.to_string(), "Persistent store error: down");
}

#[test]
fn test_cache_creation() {
    let cache = DavCache::new(CacheConfig::default());
    let stats = cache.get_stats();
    assert_eq!(stats.l1_entries, 0);
    assert_eq!(stats.l2_entries, 0);
    assert_eq!(stats.total_requests, 0);
}

#[test]
fn put_then_get_hits_first_level() {
    let config = CacheConfig { l1_size: 10, l2_size: 20, ..CacheConfig::default() };
    let mut cache = DavCache::new(config);
    let k = key("personal");
    cache.put_at(&k, b"BEGIN:VCALENDAR".to_vec(), "text/calendar".to_string(), None, 1000);
    let hit = cache.get_at(&k, 1500).unwrap();
    assert_eq!(hit.data, b"BEGIN:VCALENDAR".to_vec());
    assert_eq!(hit.content_type, "text/calendar");
    assert!(cache.get_at(&key("missing"), 1500).is_none());
    let stats = cache.get_stats();
    assert_eq!(stats.l1_hits, 1);
    assert_eq!(stats.total_requests, 2);
    assert_eq!(stats.l1_hits as f64 / stats.total_requests as f64, 0.5);
}

#[test]
fn entries_expire_after_their_ttl() {
    let mut cache = DavCache::new(CacheConfig::default());
    let k = key("short");
    cache.put_at(&k, vec![1, 2, 3], "application/octet-stream".to_string(), Some(100), 0);
    assert!(cache.get_at(&k, 99).is_some());
    assert!(cache.get_at(&k, 100).is_none());
}

#[test]
fn large_entries_go_to_second_level() {
    let config = CacheConfig { l1_max_entry_size: 4, ..CacheConfig::default() };
    let mut cache = DavCache::new(config);
    let k = key("big");
    cache.put_at(&k, vec![7; 16], "application/octet-stream".to_string(), None, 0);
    let stats = cache.get_stats();
    assert_eq!(stats.l1_entries, 0);
    assert_eq!(stats.l2_entries, 1);
    assert_eq!(cache.get_at(&k, 1).unwrap().data, vec![7; 16]);
}

#[test]
fn remove_drops_entry() {
    let mut cache = DavCache::new(CacheConfig::default());
    let k = key("gone");
    cache.put_at(&k, vec![1], "text/plain".to_string(), None, 0);
    cache.remove(&k);
    assert!(cache.get_at(&k, 1).is_none());
}

#[test]
fn fresh_first_level_entry_shadows_larger_second_level_value() {
    let config = CacheConfig { l1_max_entry_size: 4, ..CacheConfig::default() };
    let mut cache = DavCache::new(config);
    let k = key("shadowed");
    cache.put_at(&k, vec![1, 2], "text/plain".to_string(), Some(1_000), 0);
    cache.put_at(&k, vec![9; 10], "application/octet-stream".to_string(), Some(1_000), 0);
    let got = cache.get_at(&k, 1).unwrap();
    assert_eq!(got.data, vec![1, 2]);
    assert_eq!(got.content_type, "text/plain");
}

#[test]
fn cleanup_drops_expired_entries_of_both_levels() {
    let config = CacheConfig { l1_max_entry_size: 4, ..CacheConfig::default() };
    let mut cache = DavCache::new(config);
    cache.put_at(&key("a"), vec![1], "x".to_string(), Some(10), 0);
    cache.put_at(&key("b"), vec![2; 8], "y".to_string(), Some(10), 0);
    cache.put_at(&key("c"), vec![3], "z".to_string(), Some(1_000), 0);
    cache.cleanup_at(10);
    let stats = cache.get_stats();
    assert_eq!(stats.l1_entries, 1);
    assert_eq!(stats.l2_entries, 0);
}

#[test]
fn test_cache_put_and_get() {
    let config = CacheConfig { l1_size: 10, l2_size: 20, ..CacheConfig::default() };
    let mut cache = DavCache::new(config);
    let k = key("user1");
    cache.put(&k, b"test calendar data".to_vec(), "text/calendar".to_string(), None);
    let d = cache.get(&k).unwrap();
    assert_eq!(d.data, b"test calendar data".to_vec());
    assert_eq!(d.content_type, "text/calendar");
    assert_eq!(d.access_count, 1);
    let stats = cache.get_stats();
    assert_eq!(stats.l1_entries, 1);
    assert_eq!(stats.l1_hits, 1);
    cache.remove(&k);
    assert!(cache.get(&k).is_none());
}

#[test]
fn storing_keeps_counters_and_counts_replacements() {
    let mut cache = DavCache::new(CacheConfig::default());
    let k = key("a");
    cache.put_at(&k, b"1".to_vec(), "text/plain".to_string(), None, 0);
    let s = cache.get_stats();
    assert_eq!((s.l1_hits, s.l1_misses, s.total_requests, s.evictions), (0, 0, 0, 0));
    cache.put_at(&k, b"2".to_vec(), "text/plain".to_string(), None, 1);
    assert_eq!(cache.get_stats().evictions, 1);
    assert_eq!(cache.get_stats().l1_entries, 1);
}
