use dav::monitoring::{health_status_of, DavMetrics, HealthStatus, RequestTracker};

fn stats_of<'a>(snapshot: &'a dav::monitoring::DavMetricsSnapshot, method: &str) -> Option<&'a dav::monitoring::MethodStats> {
    snapshot.method_stats.iter().find(|(m, _)| m == method).map(|(_, s)| s)
}

#[test]
fn test_metrics_collection() {
    let mut metrics = DavMetrics::new();

    metrics.record_request_start("GET");
    metrics.record_request_complete("GET", 200, 100, 1024);

    metrics.record_request_start("PUT");
    metrics.record_request_complete("PUT", 201, 200, 2048);

    metrics.record_request_start("DELETE");
    metrics.record_request_complete("DELETE", 404, 50, 0);

    let snapshot = metrics.get_metrics();

    assert_eq!(snapshot.total_requests, 3);
    assert_eq!(snapshot.bytes_transferred, 3072);
    assert_eq!(snapshot.active_requests, 0);
    assert!(snapshot.total_errors as f64 / snapshot.total_requests as f64 > 0.0);

    assert!(stats_of(&snapshot, "GET").is_some());
    assert!(stats_of(&snapshot, "PUT").is_some());
    assert!(stats_of(&snapshot, "DELETE").is_some());

    let get_stats = stats_of(&snapshot, "GET").unwrap();
    assert_eq!(get_stats.request_count, 1);
    assert_eq!(get_stats.avg_response_time, 100);

    assert_eq!(snapshot.error_counts.iter().find(|(s, _)| *s == 404).map(|(_, c)| *c), Some(1));
}

#[test]
fn test_request_tracker() {
    let mut metrics = DavMetrics::new();
    let tracker = RequestTracker::new("PROPFIND".to_string(), &mut metrics);
    tracker.complete(&mut metrics, 207, 512);

    let snapshot = metrics.get_metrics();
    assert_eq!(snapshot.total_requests, 1);
    assert!(stats_of(&snapshot, "PROPFIND").is_some());
    assert_eq!(snapshot.bytes_transferred, 512);
    assert_eq!(snapshot.total_errors, 0);
    assert!(snapshot.error_counts.is_empty());
    assert_eq!(snapshot.active_requests, 0);
}

#[test]
fn test_health_status() {
    let mut metrics = DavMetrics::new();

    assert_eq!(metrics.get_health_status().status, HealthStatus::Healthy);

    for _ in 0..6 {
        metrics.record_request_start("GET");
        metrics.record_request_complete("GET", 200, 100, 1024);
    }
    for _ in 0..4 {
        metrics.record_request_start("GET");
        metrics.record_request_complete("GET", 500, 100, 0);
    }

    let health = metrics.get_health_status();
    assert_eq!(health.status, HealthStatus::Unhealthy);
    assert_eq!(health.total_requests, 10);
}

#[test]
fn test_metrics_reset() {
    let mut metrics = DavMetrics::new();

    metrics.record_request_start("GET");
    metrics.record_request_complete("GET", 200, 100, 1024);

    assert_eq!(metrics.get_metrics().total_requests, 1);

    metrics.reset();

    let snapshot_after = metrics.get_metrics();
    assert_eq!(snapshot_after.total_requests, 0);
    assert_eq!(snapshot_after.bytes_transferred, 0);
    assert!(snapshot_after.method_stats.is_empty());
}

#[test]
fn health_thresholds_are_one_tenth_and_one_twentieth() {
    let mut metrics = DavMetrics::new();
    for i in 0..20 {
        metrics.record_request_start("GET");
        metrics.record_request_complete("GET", if i == 0 { 503 } else { 200 }, 1, 0);
    }
    assert_eq!(metrics.get_health_status().status, HealthStatus::Healthy);
    metrics.record_request_start("GET");
    metrics.record_request_complete("GET", 418, 1, 0);
    assert_eq!(metrics.get_health_status().status, HealthStatus::Degraded);
    let mut snapshot = metrics.get_metrics();
    snapshot.total_errors = 3;
    snapshot.total_requests = 30;
    assert_eq!(health_status_of(&snapshot).status, HealthStatus::Degraded);
    snapshot.total_errors = 4;
    assert_eq!(health_status_of(&snapshot).status, HealthStatus::Unhealthy);
}

#[test]
fn method_statistics_min_max_average() {
    let mut metrics = DavMetrics::new();
    for t in [30u64, 10, 50] {
        metrics.record_request_start("REPORT");
        metrics.record_request_complete("REPORT", 207, t, 0);
    }
    let snapshot = metrics.get_metrics();
    let s = stats_of(&snapshot, "REPORT").unwrap();
    assert_eq!(s.request_count, 3);
    assert_eq!(s.avg_response_time, 30);
    assert_eq!(s.min_response_time, 10);
    assert_eq!(s.max_response_time, 50);
}

#[test]
fn abandoned_request_counts_as_internal_error() {
    let mut metrics = DavMetrics::new();
    let tracker = RequestTracker::new("GET".to_string(), &mut metrics);
    tracker.abandon(&mut metrics);
    let snapshot = metrics.get_metrics();
    assert_eq!(snapshot.error_counts, vec![(500, 1)]);
    assert_eq!(snapshot.active_requests, 0);
}
