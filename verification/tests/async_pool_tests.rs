use dav::async_pool::{
    process_request, processing_time, AsyncPoolConfig, AsyncPoolError, AsyncRequestPool, RequestOutcome,
    RequestPriority,
};

fn submit(pool: &mut AsyncRequestPool, ip: &str, path: &str, priority: RequestPriority) -> Result<u64, AsyncPoolError> {
    pool.submit(ip.to_string(), "GET".to_string(), path.to_string(), Vec::new(), Vec::new(), priority, 0)
}

#[test]
fn test_async_pool_basic_processing() {
    let mut pool = AsyncRequestPool::new(AsyncPoolConfig::for_cpus(1));
    let id = submit(&mut pool, "192.168.1.1", "/calendar/user/personal", RequestPriority::Normal).unwrap();
    let req = pool.take_next().unwrap();
    assert_eq!(req.id, id);
    let result = process_request(&req);
    assert_eq!(result.status, 200);
    assert_eq!(result.body, format!("Processed GET /calendar/user/personal (ID: {})", id).into_bytes());
    pool.release("192.168.1.1", RequestOutcome::Completed);
    let stats = pool.get_stats();
    assert_eq!(stats.total_requests, 1);
    assert_eq!(stats.completed_requests, 1);
}

#[test]
fn higher_priority_is_served_first() {
    let mut pool = AsyncRequestPool::new(AsyncPoolConfig::for_cpus(1));
    let low = submit(&mut pool, "a", "/1", RequestPriority::Low).unwrap();
    let crit = submit(&mut pool, "a", "/2", RequestPriority::Critical).unwrap();
    let normal = submit(&mut pool, "a", "/3", RequestPriority::Normal).unwrap();
    assert_eq!(pool.take_next().unwrap().id, crit);
    assert_eq!(pool.take_next().unwrap().id, normal);
    assert_eq!(pool.take_next().unwrap().id, low);
}

#[test]
fn per_client_limit_is_enforced() {
    let config = AsyncPoolConfig { max_requests_per_ip: 1, ..AsyncPoolConfig::for_cpus(1) };
    let mut pool = AsyncRequestPool::new(config);
    assert!(submit(&mut pool, "a", "/1", RequestPriority::Normal).is_ok());
    assert_eq!(submit(&mut pool, "a", "/2", RequestPriority::Normal), Err(AsyncPoolError::IpRateLimitExceeded));
    assert!(submit(&mut pool, "b", "/3", RequestPriority::Normal).is_ok());
    pool.release("a", RequestOutcome::Completed);
    assert!(submit(&mut pool, "a", "/4", RequestPriority::Normal).is_ok());
}

#[test]
fn processing_times_by_method() {
    assert_eq!(processing_time("GET"), 10);
    assert_eq!(processing_time("PROPFIND"), 50);
    assert_eq!(processing_time("PUT"), 100);
    assert_eq!(processing_time("DELETE"), 30);
    assert_eq!(processing_time("TRACE"), 20);
    assert_eq!(AsyncPoolConfig::for_cpus(2).worker_count, 8);
}

#[test]
fn equal_priorities_are_served_in_submission_order() {
    let mut pool = AsyncRequestPool::new(AsyncPoolConfig::for_cpus(1));
    let first = submit(&mut pool, "a", "/1", RequestPriority::Normal).unwrap();
    let high = submit(&mut pool, "a", "/2", RequestPriority::High).unwrap();
    let second = submit(&mut pool, "a", "/3", RequestPriority::Normal).unwrap();
    let third = submit(&mut pool, "a", "/4", RequestPriority::Normal).unwrap();
    assert_eq!(pool.take_next().unwrap().id, high);
    assert_eq!(pool.take_next().unwrap().id, first);
    assert_eq!(pool.take_next().unwrap().id, second);
    assert_eq!(pool.take_next().unwrap().id, third);
}
