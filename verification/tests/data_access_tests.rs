use dav::data_access::{
    generate_cache_key, is_cacheable_query, simulated_execution_time, DataAccessConfig, DataAccessError,
    DataAccessLayer,
};

#[test]
fn test_data_access_layer_creation() {
    let dal = DataAccessLayer::new(DataAccessConfig::default());
    let stats = dal.get_performance_stats();
    assert_eq!(stats.total_queries, 0);
    assert_eq!(stats.active_transactions, 0);
    assert_eq!(dal.available.len(), 10);
}

#[test]
fn test_query_execution() {
    let config = DataAccessConfig {
        max_connections: 5,
        min_connections: 2,
        enable_query_cache: false,
        ..Default::default()
    };
    let mut dal = DataAccessLayer::new(config);

    let result = dal.execute_query("SELECT * FROM users WHERE id = ?", &["1"]);

    assert!(result.is_ok());
    let query_result = result.unwrap();
    assert!(!query_result.from_cache);
    assert_eq!(query_result.rows_affected, 1);
    assert!(!query_result.rows.is_empty());

    let stats = dal.get_performance_stats();
    assert_eq!(stats.total_queries, 1);
    assert_eq!(stats.successful_queries, 1);
}

#[test]
fn test_query_caching() {
    let config = DataAccessConfig {
        enable_query_cache: true,
        max_cached_queries: 10,
        query_cache_ttl: 60_000,
        ..Default::default()
    };
    let mut dal = DataAccessLayer::new(config);

    let sql = "SELECT * FROM users WHERE active = ?";
    let params = &["true"];

    let result1 = dal.execute_query_at(sql, params, 0).unwrap();
    assert!(!result1.from_cache);

    let result2 = dal.execute_query_at(sql, params, 10).unwrap();
    assert!(result2.from_cache);
    assert_eq!(result2.rows, result1.rows);

    let stats = dal.get_performance_stats();
    assert!(stats.query_cache_hits > 0);
    let rate = stats.query_cache_hits as f64 / (stats.query_cache_hits + stats.query_cache_misses) as f64;
    assert!(rate > 0.0);

    let result3 = dal.execute_query_at(sql, params, 60_010).unwrap();
    assert!(!result3.from_cache);
}

#[test]
fn test_transaction_management() {
    let mut dal = DataAccessLayer::new(DataAccessConfig::default());

    let tx_id = dal.begin_transaction().unwrap();
    assert!(tx_id > 0);

    assert_eq!(dal.get_performance_stats().active_transactions, 1);

    assert!(dal.commit_transaction(tx_id).is_ok());

    let stats = dal.get_performance_stats();
    assert_eq!(stats.active_transactions, 0);
    assert_eq!(stats.committed_transactions, 1);
}

#[test]
fn test_transaction_rollback() {
    let mut dal = DataAccessLayer::new(DataAccessConfig::default());
    let tx_id = dal.begin_transaction().unwrap();
    assert!(dal.rollback_transaction(tx_id).is_ok());
    let stats = dal.get_performance_stats();
    assert_eq!(stats.active_transactions, 0);
    assert_eq!(stats.rolled_back_transactions, 1);
    assert_eq!(dal.commit_transaction(tx_id).unwrap_err(), DataAccessError::TransactionNotFound(tx_id));
}

#[test]
fn pool_exhaustion() {
    let config = DataAccessConfig { max_connections: 1, min_connections: 0, ..Default::default() };
    let mut dal = DataAccessLayer::new(config);
    assert!(dal.begin_transaction_at(0).is_ok());
    assert_eq!(dal.begin_transaction_at(0).unwrap_err(), DataAccessError::ConnectionPoolExhausted);
    assert_eq!(
        DataAccessError::ConnectionPoolExhausted.to_string(),
        "Connection pool exhausted"
    );
}

#[test]
fn cacheable_queries_and_keys() {
    assert!(is_cacheable_query("SELECT id FROM t"));
    assert!(is_cacheable_query("select id from t"));
    assert!(!is_cacheable_query("SELECT NOW()"));
    assert!(!is_cacheable_query("select random() from t"));
    assert!(!is_cacheable_query("UPDATE t SET a = 1"));
    assert!(!is_cacheable_query(" SELECT 1"));
    assert_eq!(generate_cache_key("SELECT ?", &["a", "b"]), "SELECT ?:a,b");
    assert_eq!(generate_cache_key("SELECT 1", &[]), "SELECT 1:");
}

#[test]
fn simulated_times_by_kind() {
    assert_eq!(simulated_execution_time("SELECT 1"), 10);
    assert_eq!(simulated_execution_time("insert into t"), 20);
    assert_eq!(simulated_execution_time("UPDATE t"), 30);
    assert_eq!(simulated_execution_time("DELETE FROM t"), 25);
    assert_eq!(simulated_execution_time("VACUUM"), 15);
}

#[test]
fn data_access_error_messages() {
    assert_eq!(DataAccessError::TransactionNotFound(7).to_string(), "Transaction 7 not found");
    assert_eq!(DataAccessError::TransactionTimeout(8).to_string(), "Transaction 8 timed out");
    assert_eq!(DataAccessError::DatabaseError("x".to_string()).to_string(), "Database error: x");
    assert_eq!(DataAccessError::CacheError("y".to_string()).to_string(), "Cache error: y");
    assert_eq!(DataAccessError::QueryTimeout.to_string(), "Query timeout");
}
