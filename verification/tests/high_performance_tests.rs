use dav::concurrency::{RequestPriority, RequestProcessor, RequestType};
use dav::connection_pool::{Connection, ConnectionError, ConnectionFactory, ConnectionInfo, ConnectionType, PooledConnection, QueryResult};
use dav::high_performance::{
    estimate_for, priority_for, request_type_for, DavError, HighPerformanceConfig, HighPerformanceDavServer,
};
use dav::security::IpAddress;

#[derive(Debug)]
struct Conn;

impl Connection for Conn {
    fn is_alive(&self) -> bool {
        true
    }
    fn reset(&self) -> Result<(), ConnectionError> {
        Ok(())
    }
    fn execute_query(&self, _query: &str) -> Result<QueryResult, ConnectionError> {
        Ok(QueryResult { rows_affected: 0, data: Vec::new(), execution_time: 0 })
    }
    fn get_connection_info(&self) -> ConnectionInfo {
        ConnectionInfo {
            id: "c".to_string(),
            host: "localhost".to_string(),
            port: 1,
            database: None,
            connection_type: ConnectionType::Cache,
        }
    }
}

#[derive(Debug)]
struct Factory;

impl ConnectionFactory for Factory {
    type Conn = Conn;
    fn create_connection(&self, _pool_name: &str) -> Result<Conn, ConnectionError> {
        Ok(Conn)
    }
    fn validate_connection(&self, _connection: &PooledConnection<Conn>) -> bool {
        true
    }
}

#[test]
fn high_performance_test_dav_error_display() {
    let error = DavError::InvalidRequest("test error".to_string());
    assert_eq!(error.to_string(), "Invalid request: test error");

    let error = DavError::SecurityError("security issue".to_string());
    assert_eq!(error.to_string(), "Security error: security issue");

    let error = DavError::ConcurrencyError("too many requests".to_string());
    assert_eq!(error.to_string(), "Concurrency error: too many requests");

    let error = DavError::ConnectionError("connection failed".to_string());
    assert_eq!(error.to_string(), "Connection error: connection failed");

    let error = DavError::CacheError("cache miss".to_string());
    assert_eq!(error.to_string(), "Cache error: cache miss");

    let error = DavError::ProcessingError("processing failed".to_string());
    assert_eq!(error.to_string(), "Processing error: processing failed");
}

#[test]
fn test_high_performance_config_defaults() {
    let config = HighPerformanceConfig::default();
    assert_eq!(config.concurrency.max_concurrent_requests, 10000);
    assert_eq!(config.batch_size, 100);
    assert_eq!(config.optimization_interval, 60_000);
}

#[test]
fn test_process_dav_request() {
    let mut server = HighPerformanceDavServer::new(Factory, HighPerformanceConfig::default());
    let ip = Some(IpAddress::v4(192, 168, 1, 1));
    let response = server
        .process_dav_request_at(ip, "192.168.1.1", "GET", "/calendar/user/personal", Vec::new(), Vec::new(), 0)
        .unwrap();
    assert_eq!(response.status, 200);
    assert_eq!(response.body, b"Processed GET /calendar/user/personal".to_vec());
    assert_eq!(response.headers, vec![("Content-Type".to_string(), "text/plain".to_string())]);
}

#[test]
fn test_cache_integration() {
    let mut server = HighPerformanceDavServer::new(Factory, HighPerformanceConfig::default());
    let ip = Some(IpAddress::v4(192, 168, 1, 1));
    let first = server.process_dav_request_at(ip, "ip", "GET", "/calendar/a", Vec::new(), Vec::new(), 0).unwrap();
    let second = server.process_dav_request_at(ip, "ip", "GET", "/calendar/a", Vec::new(), Vec::new(), 5).unwrap();
    assert_eq!(first.body, second.body);
    let stats = server.get_performance_stats();
    assert!(stats.cache.l1_hits >= 1);
    assert_eq!(stats.concurrency.total_requests, 1);
}

#[test]
fn refusals_are_reported() {
    let mut server = HighPerformanceDavServer::new(Factory, HighPerformanceConfig::default());
    match server.process_dav_request_at(None, "bad", "GET", "/x", Vec::new(), Vec::new(), 0) {
        Err(DavError::InvalidRequest(m)) => assert_eq!(m, "Invalid IP address"),
        _ => panic!("expected an invalid request"),
    }
    let ip = Some(IpAddress::v4(1, 1, 1, 1));
    match server.process_dav_request_at(ip, "ip", "GET", "/a/../b", Vec::new(), Vec::new(), 0) {
        Err(DavError::SecurityError(m)) => assert!(m.contains("traversal")),
        _ => panic!("expected a security error"),
    }
    let snapshot = server.metrics.get_metrics();
    assert_eq!(snapshot.error_counts, vec![(500, 2)]);
}

#[test]
fn high_performance_test_rate_limiting() {
    let mut config = HighPerformanceConfig::default();
    config.security.rate_limit_per_minute = 2;
    let mut server = HighPerformanceDavServer::new(Factory, config);
    let ip = Some(IpAddress::v4(10, 0, 0, 1));
    assert!(server.process_dav_request_at(ip, "ip", "PUT", "/files/a", Vec::new(), Vec::new(), 0).is_ok());
    assert!(server.process_dav_request_at(ip, "ip", "PUT", "/files/b", Vec::new(), Vec::new(), 1).is_ok());
    match server.process_dav_request_at(ip, "ip", "PUT", "/files/c", Vec::new(), Vec::new(), 2) {
        Err(DavError::SecurityError(m)) => assert_eq!(m, "Auth error (429 Too Many Requests): Rate limit exceeded"),
        _ => panic!("expected a rate limit"),
    }
}

#[test]
fn test_dav_request_processor_different_methods() {
    assert_eq!(request_type_for("GET"), RequestType::Read);
    assert_eq!(request_type_for("PROPPATCH"), RequestType::Write);
    assert_eq!(request_type_for("MKCALENDAR"), RequestType::Create);
    assert_eq!(request_type_for("COPY"), RequestType::Move);
    assert_eq!(request_type_for("UNLOCK"), RequestType::Lock);
    assert_eq!(request_type_for("ACL"), RequestType::Acl);
    assert_eq!(request_type_for("BREW"), RequestType::Read);
    assert_eq!(estimate_for("PROPFIND"), 50);
    assert_eq!(estimate_for("OPTIONS"), 20);
}

#[test]
fn test_admin_path_priority() {
    assert_eq!(priority_for("/admin/users"), RequestPriority::High);
    assert_eq!(priority_for("/calendar/x"), RequestPriority::Normal);
}

#[test]
fn request_processor_reports_kind_priority_and_estimate() {
    let p = dav::high_performance::DavRequestProcessor {
        method: "MKCOL".to_string(),
        path: "/admin/x".to_string(),
        headers: vec![],
        body: vec![],
        cache_key: dav::cache::CacheKey { namespace: "dav".to_string(), key: "MKCOL:/admin/x".to_string(), version: None },
        start_time: 0,
    };
    assert_eq!(p.request_type(), RequestType::Create);
    assert_eq!(p.priority(), RequestPriority::High);
    assert_eq!(p.estimated_duration(), dav::high_performance::estimate_for("MKCOL"));
}
