use dav::concurrency::{
    enqueue, ConcurrencyConfig, ConcurrencyError, ConcurrentProcessor, PendingRequest, RequestOutcome,
    RequestPriority, RequestProcessor, RequestType,
};

struct Work {
    kind: RequestType,
    priority: RequestPriority,
}

impl RequestProcessor for Work {
    fn request_type(&self) -> RequestType {
        self.kind
    }
    fn priority(&self) -> RequestPriority {
        self.priority
    }
    fn estimated_duration(&self) -> u64 {
        10
    }
}

#[test]
fn submitted_requests_wait_by_priority() {
    let mut p = ConcurrentProcessor::new(ConcurrencyConfig::for_cpus(2));
    let low = p.submit_at("1.1.1.1", RequestType::Read, RequestPriority::Low, 0).unwrap();
    let high = p.submit_at("1.1.1.1", RequestType::Read, RequestPriority::High, 1).unwrap();
    let normal = p.submit_at("1.1.1.1", RequestType::Read, RequestPriority::Normal, 2).unwrap();
    assert_eq!((low, high, normal), (0, 1, 2));
    assert_eq!(p.take_next(RequestType::Read).unwrap().id, high);
    assert_eq!(p.take_next(RequestType::Read).unwrap().id, normal);
    assert_eq!(p.take_next(RequestType::Read).unwrap().id, low);
    assert!(p.take_next(RequestType::Read).is_none());
}

#[test]
fn queue_full_is_refused_and_counted() {
    let config = ConcurrencyConfig { queue_size_per_worker: 1, ..ConcurrencyConfig::for_cpus(1) };
    let mut p = ConcurrentProcessor::new(config);
    assert!(p.submit_at("a", RequestType::Write, RequestPriority::Normal, 0).is_ok());
    assert_eq!(p.submit_at("a", RequestType::Write, RequestPriority::Normal, 0), Err(ConcurrencyError::QueueFull));
    assert!(p.submit_at("a", RequestType::Lock, RequestPriority::Normal, 0).is_ok());
    let stats = p.get_performance_stats();
    assert_eq!(stats.queue_full_rejections, 1);
    assert_eq!(stats.total_queue_size, 2);
    assert_eq!(stats.active_requests, 2);
}

#[test]
fn zero_limits_refuse_everything() {
    let config = ConcurrencyConfig { max_concurrent_requests: 0, ..ConcurrencyConfig::for_cpus(1) };
    let mut p = ConcurrentProcessor::new(config);
    assert_eq!(
        p.submit_at("a", RequestType::Read, RequestPriority::Normal, 0),
        Err(ConcurrencyError::GlobalRateLimitExceeded)
    );
    let config = ConcurrencyConfig { max_requests_per_ip: 0, ..ConcurrencyConfig::for_cpus(1) };
    let mut p = ConcurrentProcessor::new(config);
    assert_eq!(
        p.submit_at("a", RequestType::Read, RequestPriority::Normal, 0),
        Err(ConcurrencyError::IpRateLimitExceeded)
    );
}

#[test]
fn finishing_counts_outcomes() {
    let mut p = ConcurrentProcessor::new(ConcurrencyConfig::for_cpus(1));
    let work = Work { kind: RequestType::Acl, priority: RequestPriority::Critical };
    let handle = p.submit_request("b", &work).unwrap();
    let id = handle.id();
    assert!(p.is_active(id));
    assert!(handle.is_active(&p));
    assert!(!handle.cancel());
    let req = p.take_next(RequestType::Acl).unwrap();
    assert_eq!(req.priority, RequestPriority::Critical);
    p.finish(id, RequestOutcome::Failed, 100, 300);
    assert!(!p.is_active(id));
    let stats = p.get_performance_stats();
    assert_eq!(stats.failed_requests, 1);
    assert_eq!(stats.average_queue_time, 50);
    assert_eq!(stats.average_processing_time, 150);
    assert_eq!(stats.queue_stats.len(), 6);
    assert_eq!(stats.queue_stats[5].0, RequestType::Acl);
}

#[test]
fn enqueue_keeps_arrival_order_within_priority() {
    let mut q: Vec<PendingRequest> = Vec::new();
    for (id, prio) in [(1, RequestPriority::Normal), (2, RequestPriority::Normal), (3, RequestPriority::High)] {
        let req = PendingRequest { id, request_type: RequestType::Read, client_ip: "x".to_string(), created_at: 0, priority: prio };
        enqueue(&mut q, req);
    }
    let ids: Vec<u64> = q.iter().map(|r| r.id).collect();
    assert_eq!(ids, vec![3, 1, 2]);
}

#[test]
fn concurrency_error_messages() {
    assert_eq!(ConcurrencyError::QueueFull.to_string(), "Request queue is full");
    assert_eq!(ConcurrencyError::WorkerPoolShutdown.to_string(), "Worker pool is shutting down");
    assert_eq!(ConcurrencyConfig::for_cpus(3).worker_threads, 6);
}
