use dav::config::{DavServerConfig, ServerConfig};
use dav::method::DavMethod;
use dav::security::IpAddress;
use dav::server::{DavServer, ServerError, ServerStats};

fn server() -> DavServer {
    DavServer::new(DavServerConfig::default()).unwrap()
}

#[test]
fn server_creation_succeeds() {
    let config = DavServerConfig::default();
    assert!(DavServer::new(config).is_ok());
}

#[test]
fn fresh_server_has_zero_stats() {
    let s = server();
    let stats = s.get_server_stats();
    assert_eq!(stats.total_requests, 0);
    assert_eq!(stats.active_connections, 0);
    assert_eq!(stats, ServerStats::default());
    assert!(!s.is_shutdown_triggered());
}

#[test]
fn shutdown_signal_is_set_by_trigger() {
    let mut s = server();
    s.trigger_shutdown();
    assert!(s.is_shutdown_triggered());
    assert!(s.shutdown_signal);
}

#[test]
fn uptime_counts_from_start() {
    let mut s = server();
    s.mark_started(1_000);
    let stats = s.get_server_stats_at(1_250);
    assert_eq!(stats.uptime, 250);
    assert_eq!(stats.started_at, Some(1_000));
    assert_eq!(s.get_server_stats_at(500).uptime, 0);
}

#[test]
fn server_error_messages() {
    let e = ServerError::InvalidAddress("invalid".to_string(), "parse error".to_string());
    assert!(e.to_string().contains("Invalid address"));
    assert_eq!(e.to_string(), "Invalid address invalid: parse error");
    let e = ServerError::RoutingError("routing failed".to_string());
    assert_eq!(e.to_string(), "Routing error: routing failed");
    let e = ServerError::ProcessingError("processing failed".to_string());
    assert_eq!(e.to_string(), "Processing error: processing failed");
    let e = ServerError::BindError("0.0.0.0:80".to_string(), "denied".to_string());
    assert_eq!(e.to_string(), "Failed to bind to 0.0.0.0:80: denied");
    assert_eq!(ServerError::PreprocessingError("x".to_string()).to_string(), "Preprocessing error: x");
    assert_eq!(ServerError::ShutdownError("y".to_string()).to_string(), "Shutdown error: y");
}

#[test]
fn graceful_shutdown_waits_for_connections_until_timeout() {
    let mut config = DavServerConfig::default();
    config.server = ServerConfig { graceful_shutdown_timeout: 100, ..ServerConfig::default() };
    let mut s = DavServer::new(config).unwrap();
    assert!(s.shutdown_step(0, 0));
    s.connection_accepted();
    assert!(!s.shutdown_step(0, 50));
    assert!(s.shutdown_signal);
    assert!(s.shutdown_step(0, 100));
}

#[test]
fn stats_tracking_reports_fields() {
    let mut s = server();
    s.server_stats.total_requests = 100;
    s.server_stats.active_connections = 5;
    s.server_stats.peak_connections = 10;
    s.server_stats.total_bytes_sent = 1024;
    s.server_stats.total_bytes_received = 512;
    let stats = s.get_server_stats();
    assert_eq!(stats.total_requests, 100);
    assert_eq!(stats.active_connections, 5);
    assert_eq!(stats.peak_connections, 10);
    assert_eq!(stats.total_bytes_sent, 1024);
    assert_eq!(stats.total_bytes_received, 512);
}

#[test]
fn custom_config_is_kept() {
    let mut config = DavServerConfig::default();
    config.server = ServerConfig { port: 9090, bind_address: "127.0.0.1".to_string(), ..ServerConfig::default() };
    let s = DavServer::new(config).unwrap();
    assert_eq!(s.config.server.port, 9090);
    assert_eq!(s.bind_address(), "127.0.0.1:9090");
    assert_eq!(server().bind_address(), "0.0.0.0:8080");
}

#[test]
fn connections_track_the_peak() {
    let mut s = server();
    s.connection_accepted();
    s.connection_accepted();
    assert_eq!(s.server_stats.active_connections, 2);
    assert_eq!(s.server_stats.peak_connections, 2);
    let id = s
        .handle_request_at(
            Some(IpAddress::v4(127, 0, 0, 1)),
            "127.0.0.1",
            DavMethod::GET,
            "/calendar/user/personal",
            Vec::new(),
            Vec::new(),
            0,
        )
        .unwrap();
    assert_eq!(id, 0);
    assert_eq!(s.server_stats.active_connections, 1);
    assert_eq!(s.server_stats.peak_connections, 2);
    assert_eq!(s.server_stats.total_requests, 1);
    assert_eq!(s.router.request_pool.queue.len(), 1);
    assert_eq!(s.router.request_pool.queue[0].method, "GET");
}

#[test]
fn refused_requests_leave_counters() {
    let mut s = server();
    s.connection_accepted();
    let r = s.handle_request_at(None, "bogus", DavMethod::GET, "/x", Vec::new(), Vec::new(), 0);
    assert_eq!(r, Err(ServerError::RoutingError("Validation error: Invalid IP address".to_string())));
    assert_eq!(s.server_stats.active_connections, 1);
    assert_eq!(s.server_stats.total_requests, 0);
    let r = s.handle_request_at(
        Some(IpAddress::v4(10, 0, 0, 1)),
        "10.0.0.1",
        DavMethod::GET,
        "/a/../b",
        Vec::new(),
        Vec::new(),
        0,
    );
    assert!(matches!(r, Err(ServerError::RoutingError(_))));
    assert_eq!(s.server_stats.total_requests, 0);
}

#[test]
fn pool_limits_give_processing_errors() {
    let mut config = DavServerConfig::default();
    config.async_pool.max_requests_per_ip = 1;
    let mut s = DavServer::new(config).unwrap();
    s.connection_accepted();
    s.connection_accepted();
    let ip = Some(IpAddress::v4(10, 0, 0, 2));
    assert!(s.handle_request_at(ip, "10.0.0.2", DavMethod::PUT, "/file", Vec::new(), Vec::new(), 0).is_ok());
    let r = s.handle_request_at(ip, "10.0.0.2", DavMethod::PUT, "/file", Vec::new(), Vec::new(), 1);
    assert_eq!(r, Err(ServerError::ProcessingError("IP rate limit exceeded".to_string())));
    assert_eq!(s.server_stats.active_connections, 1);
}
