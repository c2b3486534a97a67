use std::cell::Cell;

use dav::connection_pool::{
    drop_expired, Connection, ConnectionError, ConnectionFactory, ConnectionHandle, ConnectionInfo,
    ConnectionPoolConfig, ConnectionType, DavConnectionPool, PooledConnection, QueryResult,
};

#[derive(Debug)]
struct MockConnection {
    id: String,
}

impl Connection for MockConnection {
    fn is_alive(&self) -> bool {
        !self.id.starts_with("dead")
    }
    fn reset(&self) -> Result<(), ConnectionError> {
        Ok(())
    }
    fn execute_query(&self, query: &str) -> Result<QueryResult, ConnectionError> {
        Ok(QueryResult {
            rows_affected: 1,
            data: vec![vec![("query".to_string(), query.to_string())]],
            execution_time: 1,
        })
    }
    fn get_connection_info(&self) -> ConnectionInfo {
        ConnectionInfo {
            id: self.id.clone(),
            host: "localhost".to_string(),
            port: 5432,
            database: Some("dav".to_string()),
            connection_type: ConnectionType::Database,
        }
    }
}

#[derive(Debug)]
struct MockFactory {
    fail: bool,
    valid: bool,
    created: Cell<u32>,
}

impl ConnectionFactory for MockFactory {
    type Conn = MockConnection;
    fn create_connection(&self, pool_name: &str) -> Result<MockConnection, ConnectionError> {
        if self.fail {
            return Err(ConnectionError::ConnectionFailed("refused".to_string()));
        }
        self.created.set(self.created.get() + 1);
        Ok(MockConnection { id: format!("{}-{}", pool_name, self.created.get()) })
    }
    fn validate_connection(&self, _connection: &PooledConnection<MockConnection>) -> bool {
        self.valid
    }
}

fn factory(fail: bool, valid: bool) -> MockFactory {
    MockFactory { fail, valid, created: Cell::new(0) }
}

#[test]
fn first_request_creates_connection_and_pool() {
    let mut pool = DavConnectionPool::new(factory(false, true), ConnectionPoolConfig::default());
    let handle = pool.get_connection_at("main", 0).unwrap();
    let info = handle.get_info().unwrap();
    assert_eq!(info.id, "main-1");
    assert_eq!(handle.execute_query("SELECT 1").unwrap().rows_affected, 1);
    let stats = pool.get_metrics();
    assert_eq!(stats.total_requests, 1);
    assert_eq!(stats.successful_requests, 1);
    assert_eq!(stats.total_connections_created, 1);
    let pools = pool.get_pool_stats();
    assert_eq!(pools.len(), 1);
    assert_eq!(pools[0].0, "main");
}

#[test]
fn returned_connection_is_reused() {
    let mut pool = DavConnectionPool::new(factory(false, true), ConnectionPoolConfig::default());
    let handle = pool.get_connection_at("main", 0).unwrap();
    pool.return_connection(handle);
    assert_eq!(pool.get_pool_stats()[0].1.available_connections, 1);
    let again = pool.get_connection_at("main", 10).unwrap();
    let c = again.connection.as_ref().unwrap();
    assert_eq!(c.id, 0);
    assert_eq!(c.use_count, 2);
    assert_eq!(c.last_used, 10);
    assert_eq!(pool.get_metrics().total_connections_created, 1);
}

#[test]
fn invalid_idle_connection_is_replaced() {
    let mut pool = DavConnectionPool::new(factory(false, false), ConnectionPoolConfig::default());
    let handle = pool.get_connection_at("main", 0).unwrap();
    pool.return_connection(handle);
    let fresh = pool.get_connection_at("main", 1).unwrap();
    assert_eq!(fresh.connection.as_ref().unwrap().id, 1);
    assert_eq!(fresh.connection.as_ref().unwrap().use_count, 1);
}

#[test]
fn expired_idle_connections_are_dropped() {
    let mut pool = DavConnectionPool::new(factory(false, true), ConnectionPoolConfig::default());
    let handle = pool.get_connection_at("main", 0).unwrap();
    pool.return_connection(handle);
    let next = pool.get_connection_at("main", 300_001).unwrap();
    assert_eq!(next.connection.as_ref().unwrap().id, 1);
    assert_eq!(pool.get_metrics().total_connections_destroyed, 1);
}

#[test]
fn factory_failure_and_zero_capacity() {
    let mut pool = DavConnectionPool::new(factory(true, true), ConnectionPoolConfig::default());
    match pool.get_connection_at("main", 0) {
        Err(ConnectionError::ConnectionFailed(m)) => assert_eq!(m, "refused"),
        _ => panic!("expected a connection failure"),
    }
    assert_eq!(pool.get_metrics().failed_requests, 1);
    assert_eq!(pool.get_pool_stats()[0].1.in_use_connections, 0);
    let config = ConnectionPoolConfig { max_connections: 0, ..ConnectionPoolConfig::default() };
    let mut pool = DavConnectionPool::new(factory(false, true), config);
    assert!(matches!(pool.get_connection_at("main", 0), Err(ConnectionError::Timeout)));
    assert_eq!(pool.get_metrics().connection_timeouts, 1);
}

#[test]
fn closed_handle_refuses_queries() {
    let handle: ConnectionHandle<MockConnection> = ConnectionHandle { connection: None, pool_name: "main".to_string() };
    assert!(matches!(handle.execute_query("x"), Err(ConnectionError::ConnectionClosed)));
    assert!(handle.get_info().is_none());
    assert_eq!(ConnectionError::ConnectionClosed.to_string(), "Connection is closed");
    assert_eq!(ConnectionError::QueryFailed("x".to_string()).to_string(), "Query failed: x");
}

#[test]
fn drop_expired_stops_at_first_live_connection() {
    let config = ConnectionPoolConfig::default();
    let conn = |id: u64, last_used: u64| PooledConnection {
        id,
        connection: MockConnection { id: id.to_string() },
        created_at: 0,
        last_used,
        use_count: 1,
        is_healthy: true,
    };
    let mut idle = vec![conn(0, 0), conn(1, 500_000), conn(2, 0)];
    let dropped = drop_expired(&mut idle, 400_000, config);
    assert_eq!(dropped, 1);
    assert_eq!(idle.iter().map(|c| c.id).collect::<Vec<_>>(), vec![1, 2]);
}

#[test]
fn health_check_counts_dead_idle_connections() {
    let mut pool = DavConnectionPool::new(factory(false, true), ConnectionPoolConfig::default());
    assert_eq!(pool.check_health(), 0);
    let a = pool.get_connection_at("dead", 0).unwrap();
    let b = pool.get_connection_at("dead", 0).unwrap();
    let c = pool.get_connection_at("main", 0).unwrap();
    assert_eq!(pool.check_health(), 0);
    pool.return_connection(a);
    pool.return_connection(b);
    pool.return_connection(c);
    assert_eq!(pool.check_health(), 2);
    assert_eq!(pool.get_metrics().health_check_failures, 2);
    assert_eq!(pool.check_health(), 2);
    assert_eq!(pool.get_metrics().health_check_failures, 4);
}

#[test]
fn adopted_connections_get_the_next_id_and_refusals_change_nothing() {
    let mut pool = DavConnectionPool::new(factory(false, true), ConnectionPoolConfig::default());
    let refused = pool.adopt_connection(Err(ConnectionError::ConnectionFailed("down".to_string())), 5);
    assert!(matches!(refused, Err(ConnectionError::ConnectionFailed(ref m)) if m == "down"));
    assert_eq!(pool.metrics.total_connections_created, 0);
    let first = pool.adopt_connection(Ok(MockConnection { id: "a".to_string() }), 7).unwrap();
    assert_eq!((first.id, first.created_at, first.last_used, first.use_count, first.is_healthy), (0, 7, 7, 1, true));
    assert_eq!(first.connection.id, "a");
    let second = pool.adopt_connection(Ok(MockConnection { id: "b".to_string() }), 9).unwrap();
    assert_eq!(second.id, 1);
    assert_eq!(pool.metrics.total_connections_created, 2);
}

#[test]
fn connection_pool_exhaustion() {
    let config = ConnectionPoolConfig { max_connections: 2, min_connections: 0, ..ConnectionPoolConfig::default() };
    let mut pool = DavConnectionPool::new(factory(false, true), config);
    let handle1 = pool.get_connection_at("test_pool", 0).unwrap();
    let _handle2 = pool.get_connection_at("test_pool", 0).unwrap();
    assert!(matches!(pool.get_connection_at("test_pool", 1), Err(ConnectionError::Timeout)));
    let stats = pool.get_metrics();
    assert!(stats.connection_timeouts > 0);
    assert_eq!(stats.total_connections_created, 2);
    pool.return_connection(handle1);
    assert!(pool.get_connection_at("test_pool", 2).is_ok());
}

#[test]
fn pool_statistics_count_handed_out_connections() {
    let config = ConnectionPoolConfig { max_connections: 3, min_connections: 1, ..ConnectionPoolConfig::default() };
    let mut pool = DavConnectionPool::new(factory(false, true), config);
    let handle1 = pool.get_connection_at("test_pool", 0).unwrap();
    let handle2 = pool.get_connection_at("test_pool", 0).unwrap();
    let stats = pool.get_pool_stats();
    assert_eq!(stats[0].1.in_use_connections, 2);
    assert_eq!(stats[0].1.max_connections, 3);
    assert!(stats[0].1.total_connections >= 2);
    pool.return_connection(handle1);
    pool.return_connection(handle2);
    let stats = pool.get_pool_stats();
    assert_eq!(stats[0].1.in_use_connections, 0);
    assert_eq!(stats[0].1.available_connections, 2);
}

#[test]
fn free_slots_follow_handed_out_connections() {
    let config = ConnectionPoolConfig { max_connections: 1, ..ConnectionPoolConfig::default() };
    let mut pool = DavConnectionPool::new(factory(false, true), config);
    assert!(pool.has_free_slot("p"));
    let h = pool.get_connection_at("p", 0).unwrap();
    assert!(!pool.has_free_slot("p"));
    pool.return_connection(h);
    assert!(pool.has_free_slot("p"));
    let m = DavConnectionPool::new(factory(false, true), ConnectionPoolConfig::default()).get_metrics();
    assert_eq!((m.connection_timeouts, m.failed_requests, m.pool_exhaustions), (0, 0, 0));
}
