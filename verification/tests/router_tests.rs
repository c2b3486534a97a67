use dav::async_pool::{AsyncPoolConfig, AsyncRequestPool, RequestPriority};
use dav::method::DavMethod;
use dav::monitoring::DavMetrics;
use dav::performance::{DavPerformance, PerformanceConfig};
use dav::request::DavResourceName;
use dav::router::{
    determine_priority, duration_chars, estimate_compression_savings, estimate_duration, is_cacheable,
    resolve_resource, DavRouter, RouteInfo, RouteOptimization, RouterConfig,
};
use dav::security::{DavSecurity, IpAddress, SecurityConfig};

fn router(config: RouterConfig) -> DavRouter {
    DavRouter::new(
        AsyncRequestPool::new(AsyncPoolConfig::default()),
        DavSecurity::new(SecurityConfig::default()),
        DavPerformance::new(PerformanceConfig::default()),
        DavMetrics::new(),
        config,
    )
}

#[test]
fn test_resource_resolution() {
    assert_eq!(resolve_resource("/calendar/user/personal"), DavResourceName::Cal);
    assert_eq!(resolve_resource("/addressbook/user/contacts"), DavResourceName::Card);
    assert_eq!(resolve_resource("/files/user/documents"), DavResourceName::File);
    assert_eq!(resolve_resource("/principal/user"), DavResourceName::Principal);
    assert_eq!(resolve_resource("/scheduling/inbox/"), DavResourceName::Scheduling);
    assert_eq!(resolve_resource("/elsewhere"), DavResourceName::File);
}

#[test]
fn test_route_caching() {
    let mut r = router(RouterConfig::default());
    let headers = Vec::new();
    let ip = Some(IpAddress::v4(192, 168, 1, 1));
    let route1 = r.route_request_at("/calendar/user/personal", DavMethod::GET, &headers, &[], ip, 0).unwrap();
    let route2 = r.route_request_at("/calendar/user/personal", DavMethod::GET, &headers, &[], ip, 10).unwrap();
    assert_eq!(route1.resource, route2.resource);
    assert_eq!(route1.method, route2.method);
    let stats = r.get_router_stats();
    assert!(stats.route_cache_hits > 0);
    assert_eq!(stats.route_cache_misses, 1);
    assert_eq!(stats.total_requests, 2);
    assert_eq!(stats.cached_routes, 1);
}

#[test]
fn route_refuses_bad_requests() {
    let mut r = router(RouterConfig::default());
    let headers = Vec::new();
    assert!(r.route_request_at("/calendar/x", DavMethod::GET, &headers, &[], None, 0).is_err());
    let ip = Some(IpAddress::v4(1, 1, 1, 1));
    assert!(r.route_request_at("/calendar/../etc", DavMethod::GET, &headers, &[], ip, 0).is_err());
    let big = vec![0u8; 10 * 1024 * 1024 + 1];
    assert!(r.route_request_at("/calendar/x", DavMethod::PUT, &headers, &big, ip, 0).is_err());
    assert_eq!(r.get_router_stats().total_requests, 3);
}

#[test]
fn route_info_fields() {
    let mut r = router(RouterConfig::default());
    let headers = vec![("depth".to_string(), "infinity".to_string())];
    let ip = Some(IpAddress::v4(1, 1, 1, 1));
    let info = r.route_request_at("/files/a.txt", DavMethod::PUT, &headers, b"x", ip, 0).unwrap();
    assert_eq!(info.resource, DavResourceName::File);
    assert_eq!(info.priority, RequestPriority::Low);
    assert_eq!(info.estimated_duration, 200);
    assert!(info.requires_auth);
    assert!(!info.cacheable);
    assert_eq!(info.path, "/files/a.txt");
}

#[test]
fn priorities_durations_and_caching() {
    let none = Vec::new();
    assert_eq!(determine_priority(DavMethod::GET, "/admin/x", &none), RequestPriority::High);
    assert_eq!(determine_priority(DavMethod::LOCK, "/x", &none), RequestPriority::High);
    assert_eq!(determine_priority(DavMethod::GET, "/x", &none), RequestPriority::Normal);
    assert_eq!(estimate_duration(DavMethod::GET, DavResourceName::Cal), 10);
    assert_eq!(estimate_duration(DavMethod::PUT, DavResourceName::Cal), 100);
    assert_eq!(estimate_duration(DavMethod::MOVE, DavResourceName::File), 150);
    assert_eq!(estimate_duration(DavMethod::OPTIONS, DavResourceName::File), 50);
    assert!(is_cacheable(DavMethod::REPORT));
    assert!(!is_cacheable(DavMethod::DELETE));
}

#[test]
fn compression_savings_by_text_share() {
    assert_eq!(estimate_compression_savings(&[b'a'; 100]), 0);
    assert_eq!(estimate_compression_savings(&[b'a'; 2048]), 60);
    let mut mixed = vec![b'a'; 1200];
    mixed.extend(vec![0u8; 800]);
    assert_eq!(estimate_compression_savings(&mixed), 30);
    assert_eq!(estimate_compression_savings(&[0u8; 2048]), 10);
}

#[test]
fn duration_debug_form() {
    let text = |ms: u64| duration_chars(ms).into_iter().collect::<String>();
    assert_eq!(text(0), format!("{:?}", std::time::Duration::from_millis(0)));
    assert_eq!(text(10), format!("{:?}", std::time::Duration::from_millis(10)));
    assert_eq!(text(1000), format!("{:?}", std::time::Duration::from_millis(1000)));
    assert_eq!(text(1500), format!("{:?}", std::time::Duration::from_millis(1500)));
    assert_eq!(text(2050), format!("{:?}", std::time::Duration::from_millis(2050)));
    assert_eq!(text(1001), format!("{:?}", std::time::Duration::from_millis(1001)));
}

#[test]
fn test_request_preprocessing() {
    let r = router(RouterConfig::default());
    let route_info = RouteInfo {
        resource: DavResourceName::Cal,
        method: DavMethod::GET,
        path: "/calendar/test.ics".to_string(),
        priority: RequestPriority::Normal,
        estimated_duration: 10,
        requires_auth: true,
        cacheable: true,
    };
    let headers = Vec::new();
    let body = b"large body content that should trigger compression";
    let result = r.preprocess(&route_info, &headers, body);
    assert!(!result.optimizations.is_empty());
    assert_eq!(result.route_info.resource, DavResourceName::Cal);
    assert!(matches!(result.optimizations[0], RouteOptimization::Prefetch(_)));
}

#[test]
fn preprocessing_hints_and_warnings() {
    let r = router(RouterConfig::default());
    let info = RouteInfo {
        resource: DavResourceName::Cal,
        method: DavMethod::PROPFIND,
        path: "/calendar/".to_string(),
        priority: RequestPriority::Normal,
        estimated_duration: 1500,
        requires_auth: true,
        cacheable: true,
    };
    let headers = vec![
        ("if-none-match".to_string(), "\"abc\"".to_string()),
        ("content-type".to_string(), "text/xml".to_string()),
    ];
    let body = vec![b'x'; 2 * 1024 * 1024];
    let result = r.preprocess(&info, &headers, &body);
    assert_eq!(result.optimizations.len(), 3);
    match &result.optimizations[0] {
        RouteOptimization::CacheHit(s) => assert_eq!(s, "ETag match possible: \"abc\""),
        _ => panic!("expected a cache hint"),
    }
    match &result.optimizations[1] {
        RouteOptimization::Compression(s) => assert_eq!(s, "Content can be compressed (60% savings estimated)"),
        _ => panic!("expected a compression hint"),
    }
    assert!(matches!(result.optimizations[2], RouteOptimization::Batching(_)));
    assert_eq!(result.warnings, vec![
        "Large request body: 2097152 bytes".to_string(),
        "Slow operation estimated: 1.5s".to_string(),
    ]);

    let off = router(RouterConfig { enable_preprocessing: false, ..RouterConfig::default() });
    let result = off.preprocess(&info, &headers, &body);
    assert!(result.optimizations.is_empty() && result.warnings.is_empty());
}

#[test]
fn full_route_cache_drops_least_recently_used() {
    let mut r = router(RouterConfig { max_cached_routes: 2, ..RouterConfig::default() });
    let headers = Vec::new();
    let ip = Some(IpAddress::v4(5, 5, 5, 5));
    r.route_request_at("/calendar/a", DavMethod::GET, &headers, &[], ip, 0).unwrap();
    r.route_request_at("/calendar/b", DavMethod::GET, &headers, &[], ip, 1).unwrap();
    r.route_request_at("/calendar/a", DavMethod::GET, &headers, &[], ip, 2).unwrap();
    r.route_request_at("/calendar/c", DavMethod::GET, &headers, &[], ip, 3).unwrap();
    let keys: Vec<String> = r.route_cache.entries.iter().map(|(k, _)| k.clone()).collect();
    assert!(keys.contains(&"/calendar/a:GET".to_string()));
    assert!(keys.contains(&"/calendar/c:GET".to_string()));
    assert!(!keys.contains(&"/calendar/b:GET".to_string()));
}
