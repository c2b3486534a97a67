use dav::performance::{DavPerformance, PerformanceConfig};

#[test]
fn test_response_caching() {
    let mut performance = DavPerformance::new(PerformanceConfig::default());

    performance.cache_response(
        "/calendar/user/personal",
        "GET",
        b"test data".to_vec(),
        "text/calendar".to_string(),
        "etag123".to_string(),
    );

    let cached = performance.get_cached_response("/calendar/user/personal", "GET", Some("etag123"));
    assert!(cached.is_some());

    let cached = cached.unwrap();
    assert_eq!(cached.data, b"test data");
    assert_eq!(cached.content_type, "text/calendar");
    assert_eq!(cached.etag, "etag123");
}

#[test]
fn test_property_caching() {
    let mut performance = DavPerformance::new(PerformanceConfig::default());

    let properties = b"serialized properties".to_vec();
    performance.cache_properties("/calendar/user/personal", properties.clone());

    let cached = performance.get_cached_properties("/calendar/user/personal");
    assert!(cached.is_some());
    assert_eq!(cached.unwrap(), properties);
}

#[test]
fn test_compression_decision() {
    let performance = DavPerformance::new(PerformanceConfig::default());

    assert!(performance.should_compress(2048, "text/xml"));
    assert!(performance.should_compress(2048, "application/xml"));
    assert!(performance.should_compress(2048, "text/calendar"));

    assert!(!performance.should_compress(512, "text/xml"));

    assert!(!performance.should_compress(2048, "image/jpeg"));
    assert!(!performance.should_compress(2048, "application/octet-stream"));
}

#[test]
fn performance_test_performance_stats() {
    let mut performance = DavPerformance::new(PerformanceConfig::default());

    performance.record_request(100_000_000);
    performance.record_request(200_000_000);
    performance.record_compression(2048, 1024);

    let stats = performance.get_performance_stats();
    assert_eq!(stats.total_requests, 2);
    assert!(stats.average_response_time > 0);
    assert_eq!(stats.compression_savings, 1024);
}

#[test]
fn test_cache_hit_rate() {
    let mut performance = DavPerformance::new(PerformanceConfig::default());

    performance.cache_response("/test", "GET", b"data".to_vec(), "text/plain".to_string(), "etag".to_string());

    let _ = performance.get_cached_response("/test", "GET", Some("etag"));
    let _ = performance.get_cached_response("/other", "GET", Some("etag"));

    let stats = performance.get_performance_stats();
    assert_eq!(stats.cache_hits, 1);
    assert_eq!(stats.cache_misses, 1);
    let rate = stats.cache_hits as f64 / (stats.cache_hits + stats.cache_misses) as f64;
    assert_eq!(rate, 0.5);
}

#[test]
fn moving_average_of_response_times() {
    let mut performance = DavPerformance::new(PerformanceConfig::default());
    performance.record_request(1000);
    assert_eq!(performance.get_performance_stats().average_response_time, 100);
    performance.record_request(1000);
    assert_eq!(performance.get_performance_stats().average_response_time, 190);
}

#[test]
fn cached_responses_expire() {
    let mut performance = DavPerformance::new(PerformanceConfig::default());
    performance.cache_response_at("/x", "GET", vec![1], "text/plain".to_string(), "e".to_string(), 0);
    assert!(performance.get_cached_response_at("/x", "GET", Some("e"), 299_999).is_some());
    assert!(performance.get_cached_response_at("/x", "GET", Some("e"), 300_001).is_none());
}

#[test]
fn compression_needs_it_enabled() {
    let config = PerformanceConfig { enable_compression: false, ..PerformanceConfig::default() };
    let performance = DavPerformance::new(config);
    assert!(!performance.should_compress(1 << 20, "text/xml"));
}

#[test]
fn response_cache_counts_entries_and_replacements() {
    let config = PerformanceConfig { max_cache_entries: 2, ..PerformanceConfig::default() };
    let mut p = DavPerformance::new(config);
    p.cache_response("/a", "GET", b"1".to_vec(), "text/plain".to_string(), "e1".to_string());
    p.cache_response("/a", "GET", b"2".to_vec(), "text/plain".to_string(), "e1".to_string());
    let s = p.get_performance_stats();
    assert_eq!(s.cache_entries, 1);
    assert_eq!(s.cache_evictions, 1);
    p.cache_response("/b", "GET", b"3".to_vec(), "text/plain".to_string(), "e2".to_string());
    p.cache_response("/c", "GET", b"4".to_vec(), "text/plain".to_string(), "e3".to_string());
    let s = p.get_performance_stats();
    assert_eq!(s.cache_entries, 2);
    assert!(p.get_cached_response("/a", "GET", Some("e1")).is_none());
    assert_eq!(p.get_cached_response("/c", "GET", Some("e3")).unwrap().data, b"4".to_vec());
}

#[test]
fn recording_keeps_connection_statistics() {
    let mut p = DavPerformance::new(PerformanceConfig::default());
    let before = p.get_performance_stats().active_connections;
    p.record_compression(2048, 1024);
    p.record_request(1000);
    p.clear_caches();
    let s = p.get_performance_stats();
    assert_eq!(s.compression_savings, 1024);
    assert_eq!(s.active_connections, before);
}
