//! The data access layer: a pool of database connections, a query result
//! cache with time-to-live, and transaction bookkeeping. Query execution is
//! simulated: every query answers one row, after a delay that depends on
//! its kind.
//!
//! Durations are in milliseconds.
use vstd::prelude::*;

use crate::clock::Clock;
use crate::counter::{dec, elapsed, inc, spec_elapsed, wrap_dec, wrap_inc};
use crate::lru::{LruCache, LruKey};
use crate::text::{
    append_str, chars_of, contains, contains_seq, decimal, decimal_chars, append_chars, has_prefix,
    lowercase, starts_with, string_from_chars, to_lowercase,
};

verus! {

impl LruKey for u64 {
    type KeyView = u64;

    open spec fn key_view(&self) -> u64 {
        *self
    }

    fn key_eq(&self, other: &Self) -> (r: bool) {
        *self == *other
    }

    fn key_clone(&self) -> (r: Self) {
        *self
    }
}

/// Data access configuration. Durations are in milliseconds.
#[derive(Debug, Clone, Copy, PartialEq, Eq, Structural)]
pub struct DataAccessConfig {
    pub max_connections: usize,
    pub min_connections: usize,
    pub connection_timeout: u64,
    pub query_timeout: u64,
    pub enable_query_cache: bool,
    pub max_cached_queries: usize,
    pub query_cache_ttl: u64,
    pub enable_prepared_statements: bool,
    pub transaction_timeout: u64,
    pub enable_connection_validation: bool,
}

impl Default for DataAccessConfig {
    fn default() -> (r: DataAccessConfig)
        ensures
            r == (DataAccessConfig {
                max_connections: 100,
                min_connections: 10,
                connection_timeout: 30_000,
                query_timeout: 60_000,
                enable_query_cache: true,
                max_cached_queries: 1000,
                query_cache_ttl: 300_000,
                enable_prepared_statements: true,
                transaction_timeout: 300_000,
                enable_connection_validation: true,
            }),
    {
        DataAccessConfig {
            max_connections: 100,
            min_connections: 10,
            connection_timeout: 30_000,
            query_timeout: 60_000,
            enable_query_cache: true,
            max_cached_queries: 1000,
            query_cache_ttl: 300_000,
            enable_prepared_statements: true,
            transaction_timeout: 300_000,
            enable_connection_validation: true,
        }
    }
}

/// The result of a query.
#[derive(Debug, Clone)]
pub struct QueryResult {
    /// The rows, each a list of column name and value.
    pub rows: Vec<Vec<(String, String)>>,
    pub rows_affected: u64,
    /// In milliseconds.
    pub execution_time: u64,
    pub from_cache: bool,
}

/// The cells of a row as text.
pub open spec fn cells_view(row: Seq<(String, String)>) -> Seq<(Seq<char>, Seq<char>)> {
    row.map_values(|c: (String, String)| (c.0@, c.1@))
}

/// The rows of a result as text.
pub open spec fn rows_view(rows: Seq<Vec<(String, String)>>) -> Seq<Seq<(Seq<char>, Seq<char>)>> {
    rows.map_values(|row: Vec<(String, String)>| cells_view(row@))
}

/// The one row every simulated query answers.
pub open spec fn simulated_rows() -> Seq<Seq<(Seq<char>, Seq<char>)>> {
    seq![seq![("id"@, "1"@), ("name"@, "test"@)]]
}

/// The simulated execution time of a query, from its lower-cased text.
pub open spec fn simulated_time(lower_sql: Seq<char>) -> u64 {
    if contains_seq(lower_sql, "select"@) {
        10
    } else if contains_seq(lower_sql, "insert"@) {
        20
    } else if contains_seq(lower_sql, "update"@) {
        30
    } else if contains_seq(lower_sql, "delete"@) {
        25
    } else {
        15
    }
}

/// A query whose result may be cached: a read that does not depend on the
/// clock or on chance.
pub open spec fn cacheable_sql(sql: Seq<char>) -> bool {
    let l = lowercase(sql);
    starts_with(l, "select"@) && !contains_seq(l, "now()"@) && !contains_seq(l, "random()"@)
}

/// Parameters joined by commas.
pub open spec fn joined(params: Seq<Seq<char>>) -> Seq<char>
    decreases params.len(),
{
    if params.len() == 0 {
        Seq::empty()
    } else if params.len() == 1 {
        params[0]
    } else {
        joined(params.drop_last()) + ","@ + params.last()
    }
}

/// The cache key of a query: its text, a colon and the joined parameters.
pub open spec fn query_key(sql: Seq<char>, params: Seq<Seq<char>>) -> Seq<char> {
    sql + ":"@ + joined(params)
}

/// The views of a parameter list.
pub open spec fn param_views(params: Seq<&str>) -> Seq<Seq<char>> {
    params.map_values(|p: &str| p@)
}

/// Errors of the data access layer.
#[derive(Debug, Clone, PartialEq, Eq)]
pub enum DataAccessError {
    ConnectionPoolExhausted,
    ConnectionTimeout,
    QueryTimeout,
    TransactionNotFound(u64),
    TransactionTimeout(u64),
    DatabaseError(String),
    CacheError(String),
}

impl DataAccessError {
    /// The error's message.
    pub open spec fn message(&self) -> Seq<char> {
        match self {
            DataAccessError::ConnectionPoolExhausted => "Connection pool exhausted"@,
            DataAccessError::ConnectionTimeout => "Connection timeout"@,
            DataAccessError::QueryTimeout => "Query timeout"@,
            DataAccessError::TransactionNotFound(id) => "Transaction "@ + decimal(*id as nat) + " not found"@,
            DataAccessError::TransactionTimeout(id) => "Transaction "@ + decimal(*id as nat) + " timed out"@,
            DataAccessError::DatabaseError(m) => "Database error: "@ + m@,
            DataAccessError::CacheError(m) => "Cache error: "@ + m@,
        }
    }

    /// The error's message.
    pub fn to_string(&self) -> (r: String)
        ensures
            r@ == self.message(),
    {
        let mut t: Vec<char> = Vec::new();
        match self {
            DataAccessError::ConnectionPoolExhausted => append_str(&mut t, "Connection pool exhausted"),
            DataAccessError::ConnectionTimeout => append_str(&mut t, "Connection timeout"),
            DataAccessError::QueryTimeout => append_str(&mut t, "Query timeout"),
            DataAccessError::TransactionNotFound(id) => {
                append_str(&mut t, "Transaction ");
                let d = decimal_chars(*id);
                append_chars(&mut t, d.as_slice());
                append_str(&mut t, " not found");
            },
            DataAccessError::TransactionTimeout(id) => {
                append_str(&mut t, "Transaction ");
                let d = decimal_chars(*id);
                append_chars(&mut t, d.as_slice());
                append_str(&mut t, " timed out");
            },
            DataAccessError::DatabaseError(m) => {
                append_str(&mut t, "Database error: ");
                append_str(&mut t, m.as_str());
            },
            DataAccessError::CacheError(m) => {
                append_str(&mut t, "Cache error: ");
                append_str(&mut t, m.as_str());
            },
        }
        string_from_chars(t.as_slice())
    }
}

/// A database connection of the pool.
#[derive(Debug, Clone)]
pub struct DatabaseConnection {
    pub id: u64,
    pub created_at: u64,
    pub last_used: u64,
    pub query_count: u64,
    pub is_healthy: bool,
    pub connection_string: String,
}

/// An open transaction.
#[derive(Debug, Clone, Copy, PartialEq, Eq, Structural)]
pub struct Transaction {
    pub id: u64,
    pub connection_id: u64,
    pub started_at: u64,
    pub is_committed: bool,
    pub is_rolled_back: bool,
}

/// A cached query result.
#[derive(Debug, Clone)]
pub struct CachedQuery {
    pub sql: String,
    pub result: QueryResult,
    pub cached_at: u64,
    pub access_count: u64,
    pub last_accessed: u64,
}

/// Counters of the data access layer; they wrap around as atomic counters
/// do.
#[derive(Debug, Clone, Copy, PartialEq, Eq, Structural)]
pub struct DataAccessMetrics {
    pub total_queries: u64,
    pub successful_queries: u64,
    pub failed_queries: u64,
    pub cached_queries: u64,
    pub query_cache_hits: u64,
    pub query_cache_misses: u64,
    pub active_connections: u64,
    pub total_connections_created: u64,
    pub total_connections_destroyed: u64,
    pub active_transactions: u64,
    pub committed_transactions: u64,
    pub rolled_back_transactions: u64,
    /// Running average, in nanoseconds.
    pub average_query_time: u64,
    /// Running average, in nanoseconds.
    pub average_connection_time: u64,
}

/// Statistics of the data access layer.
#[derive(Debug, Clone, Copy, PartialEq, Eq, Structural)]
pub struct DataAccessStats {
    pub total_queries: u64,
    pub successful_queries: u64,
    pub failed_queries: u64,
    pub cached_queries: usize,
    pub query_cache_hits: u64,
    pub query_cache_misses: u64,
    pub active_connections: u64,
    pub total_connections_created: u64,
    pub total_connections_destroyed: u64,
    pub active_transactions: usize,
    pub committed_transactions: u64,
    pub rolled_back_transactions: u64,
    /// In nanoseconds.
    pub average_query_time: u64,
    /// In nanoseconds.
    pub average_connection_time: u64,
}

/// The cached queries' entries.
pub open spec fn least_recent_query(s: Seq<(String, CachedQuery)>, i: int) -> bool {
    0 <= i < s.len() && forall|j: int| 0 <= j < s.len() ==> s[i].1.last_accessed <= #[trigger] s[j].1.last_accessed
}

/// The data access layer.
pub struct DataAccessLayer {
    /// Idle connections; the last one is handed out first.
    pub available: Vec<DatabaseConnection>,
    /// Connections handed out, by id.
    pub in_use: LruCache<u64, DatabaseConnection>,
    /// The next connection or transaction id.
    pub connection_counter: u64,
    pub query_cache: LruCache<String, CachedQuery>,
    /// Open transactions, by id.
    pub transactions: LruCache<u64, Transaction>,
    pub metrics: DataAccessMetrics,
    pub config: DataAccessConfig,
    pub clock: Clock,
}

impl DataAccessLayer {
    /// The layer's invariant: no id or key occurs twice in a table.
    pub open spec fn wf(&self) -> bool {
        self.in_use.wf() && self.query_cache.wf() && self.transactions.wf()
    }

    /// The cached result of `key`, if it is fresh at `now`.
    pub open spec fn fresh_query(&self, key: Seq<char>, now: u64) -> Option<CachedQuery> {
        let m = self.query_cache.map();
        if m.contains_key(key) && spec_elapsed(m[key].cached_at, now) < self.config.query_cache_ttl {
            Some(m[key])
        } else {
            None
        }
    }

    /// A connection can be handed out: an idle one, or room for a new one.
    pub open spec fn can_connect(&self) -> bool {
        self.available@.len() > 0 || self.in_use.entries@.len() < self.config.max_connections
    }

    /// A layer whose pool holds the configured minimum of idle connections.
    pub fn new(config: DataAccessConfig) -> (r: DataAccessLayer)
        ensures
            r.wf(),
            r.config == config,
            r.available@.len() == config.min_connections,
            r.in_use.entries@.len() == 0,
            r.transactions.entries@.len() == 0,
            r.query_cache.entries@.len() == 0,
            r.metrics == (DataAccessMetrics {
                total_queries: 0,
                successful_queries: 0,
                failed_queries: 0,
                cached_queries: 0,
                query_cache_hits: 0,
                query_cache_misses: 0,
                active_connections: config.min_connections as u64,
                total_connections_created: config.min_connections as u64,
                total_connections_destroyed: 0,
                active_transactions: 0,
                committed_transactions: 0,
                rolled_back_transactions: 0,
                average_query_time: 0,
                average_connection_time: 0,
            }),
            r.connection_counter == config.min_connections as u64,
    {
        let clock = Clock::start();
        let mut dal = DataAccessLayer {
            available: Vec::new(),
            in_use: LruCache::new(usize::MAX),
            connection_counter: 0,
            query_cache: LruCache::new(usize::MAX),
            transactions: LruCache::new(usize::MAX),
            metrics: DataAccessMetrics {
                total_queries: 0,
                successful_queries: 0,
                failed_queries: 0,
                cached_queries: 0,
                query_cache_hits: 0,
                query_cache_misses: 0,
                active_connections: 0,
                total_connections_created: 0,
                total_connections_destroyed: 0,
                active_transactions: 0,
                committed_transactions: 0,
                rolled_back_transactions: 0,
                average_query_time: 0,
                average_connection_time: 0,
            },
            config,
            clock,
        };
        let now = dal.clock.now_ms();
        let mut i: usize = 0;
        while i < config.min_connections
            invariant
                dal.wf(),
                dal.config == config,
                i <= config.min_connections,
                dal.available@.len() == i,
                dal.in_use.entries@.len() == 0,
                dal.transactions.entries@.len() == 0,
                dal.query_cache.entries@.len() == 0,
                dal.metrics == (DataAccessMetrics {
                    total_queries: 0,
                    successful_queries: 0,
                    failed_queries: 0,
                    cached_queries: 0,
                    query_cache_hits: 0,
                    query_cache_misses: 0,
                    active_connections: i as u64,
                    total_connections_created: i as u64,
                    total_connections_destroyed: 0,
                    active_transactions: 0,
                    committed_transactions: 0,
                    rolled_back_transactions: 0,
                    average_query_time: 0,
                    average_connection_time: 0,
                }),
                dal.connection_counter == i as u64,
            decreases config.min_connections - i,
        {
            let c = dal.create_connection(now);
            dal.available.push(c);
            i = i + 1;
        }
        dal
    }

    /// Opens a new connection at `now` with the next id.
    fn create_connection(&mut self, now: u64) -> (r: DatabaseConnection)
        ensures
            r.id == old(self).connection_counter,
            r.query_count == 0,
            r.created_at == now,
            final(self).connection_counter == wrap_inc(old(self).connection_counter),
            final(self).metrics == (DataAccessMetrics {
                total_connections_created: wrap_inc(old(self).metrics.total_connections_created),
                active_connections: wrap_inc(old(self).metrics.active_connections),
                ..old(self).metrics
            }),
            final(self).available == old(self).available,
            final(self).in_use == old(self).in_use,
            final(self).query_cache == old(self).query_cache,
            final(self).transactions == old(self).transactions,
            final(self).config == old(self).config,
    {
        let id = self.connection_counter;
        self.connection_counter = inc(self.connection_counter);
        self.metrics.total_connections_created = inc(self.metrics.total_connections_created);
        self.metrics.active_connections = inc(self.metrics.active_connections);
        DatabaseConnection {
            id,
            created_at: now,
            last_used: now,
            query_count: 0,
            is_healthy: true,
            connection_string: String::from_str("postgresql://localhost:5432/stalwart"),
        }
    }

    /// Hands out a connection at `now`: the last idle one, with its use
    /// counted, or a new one while fewer than the maximum are in use.
    pub fn get_connection_at(&mut self, now: u64) -> (r: Result<DatabaseConnection, DataAccessError>)
        requires
            old(self).wf(),
        ensures
            final(self).wf(),
            final(self).config == old(self).config,
            final(self).query_cache == old(self).query_cache,
            final(self).transactions == old(self).transactions,
            old(self).can_connect() <==> r is Ok,
            final(self).metrics == (if old(self).available@.len() == 0 && r is Ok {
                DataAccessMetrics {
                    total_connections_created: wrap_inc(old(self).metrics.total_connections_created),
                    active_connections: wrap_inc(old(self).metrics.active_connections),
                    ..old(self).metrics
                }
            } else {
                old(self).metrics
            }),
            !old(self).can_connect() ==> r == Err::<DatabaseConnection, DataAccessError>(
                DataAccessError::ConnectionPoolExhausted,
            ) && *final(self) == *old(self),
            r matches Ok(c) ==> final(self).in_use.map() == old(self).in_use.map().insert(c.id, c),
            r matches Ok(c) ==> old(self).available@.len() > 0 ==> {
                let last = old(self).available@.last();
                &&& final(self).connection_counter == old(self).connection_counter
                &&& final(self).available@ == old(self).available@.drop_last()
                &&& c.id == last.id
                &&& c.last_used == now
                &&& c.query_count == wrap_inc(last.query_count)
            },
            r matches Ok(c) ==> old(self).available@.len() == 0 ==> {
                &&& final(self).available@ == old(self).available@
                &&& c.id == old(self).connection_counter
                &&& final(self).connection_counter == wrap_inc(old(self).connection_counter)
            },
    {
        if self.available.len() > 0 {
            let mut c = self.available.pop().unwrap();
            c.last_used = now;
            c.query_count = inc(c.query_count);
            let copy = DatabaseConnection {
                id: c.id,
                created_at: c.created_at,
                last_used: c.last_used,
                query_count: c.query_count,
                is_healthy: c.is_healthy,
                connection_string: c.connection_string.clone(),
            };
            self.in_use.insert(c.id, copy);
            return Ok(c);
        }
        if self.in_use.len() < self.config.max_connections {
            let c = self.create_connection(now);
            let copy = DatabaseConnection {
                id: c.id,
                created_at: c.created_at,
                last_used: c.last_used,
                query_count: c.query_count,
                is_healthy: c.is_healthy,
                connection_string: c.connection_string.clone(),
            };
            self.in_use.insert(c.id, copy);
            Ok(c)
        } else {
            Err(DataAccessError::ConnectionPoolExhausted)
        }
    }

    /// Takes a connection back: it leaves the in-use table and becomes the
    /// last idle connection.
    pub fn return_connection(&mut self, connection: DatabaseConnection)
        requires
            old(self).wf(),
        ensures
            final(self).wf(),
            final(self).in_use.map() == old(self).in_use.map().remove(connection.id),
            final(self).available@ == old(self).available@.push(connection),
            final(self).config == old(self).config,
            final(self).query_cache == old(self).query_cache,
            final(self).transactions == old(self).transactions,
            final(self).metrics == old(self).metrics,
            final(self).connection_counter == old(self).connection_counter,
    {
        self.in_use.remove(&connection.id);
        self.available.push(connection);
    }

    /// Runs a query now and folds the time it took into the average query
    /// time when it succeeds from the database.
    pub fn execute_query(&mut self, sql: &str, parameters: &[&str]) -> (r: Result<QueryResult, DataAccessError>)
        requires
            old(self).wf(),
        ensures
            final(self).wf(),
            exists|now: u64, mid: DataAccessLayer|
                #[trigger] old(self).executed(mid, sql, parameters, now, r) && *final(self) == (DataAccessLayer {
                    metrics: DataAccessMetrics { average_query_time: final(self).metrics.average_query_time, ..mid.metrics },
                    ..mid
                }),
    {
        let start = self.clock.now_ns();
        let now = self.clock.now_ms();
        let before = self.metrics.successful_queries;
        let r = self.execute_query_at(sql, parameters, now);
        let ghost mid = *self;
        assert(old(self).executed(mid, sql, parameters, now, r));
        if self.metrics.successful_queries != before {
            let end = self.clock.now_ns();
            let spent = elapsed(start, end) as u128;
            self.metrics.average_query_time = ((self.metrics.average_query_time as u128 + spent) / 2) as u64;
        }
        r
    }

    /// What executing `sql` with `parameters` at `now` does, from this state to `after`, returning `r`: the query is counted; a cacheable query with a fresh cached result is answered from the cache; any other query takes a connection, runs, and, when cacheable, has its result cached; without a connection to hand out it fails.
    pub open spec fn executed(self, after: Self, sql: &str, parameters: &[&str], now: u64, r: Result<QueryResult, DataAccessError>) -> bool {
        &&& (after.config == self.config)
        &&& (after.metrics.total_queries == wrap_inc(self.metrics.total_queries))
        &&& (({
            let use_cache = self.config.enable_query_cache && cacheable_sql(sql@);
            let key = query_key(sql@, param_views(parameters@));
            let hit = if use_cache {
                self.fresh_query(key, now)
            } else {
                None
            };
            match hit {
                Some(c) => {
                    &&& r matches Ok(q) && rows_view(q.rows@) == rows_view(c.result.rows@)
                        && q.rows_affected == c.result.rows_affected && q.execution_time
                        == c.result.execution_time && q.from_cache
                    &&& after.metrics.query_cache_hits == wrap_inc(self.metrics.query_cache_hits)
                },
                None => {
                    &&& use_cache ==> after.metrics.query_cache_misses == wrap_inc(
                        self.metrics.query_cache_misses,
                    )
                    &&& self.can_connect() ==> (r matches Ok(q) && rows_view(q.rows@)
                        == simulated_rows() && q.rows_affected == 1 && q.execution_time
                        == simulated_time(lowercase(sql@)) && !q.from_cache)
                    &&& self.can_connect() ==> after.metrics.successful_queries
                        == wrap_inc(self.metrics.successful_queries)
                    &&& !self.can_connect() ==> r == Err::<QueryResult, DataAccessError>(
                        DataAccessError::ConnectionPoolExhausted,
                    )
                    &&& use_cache && self.can_connect() ==> {
                        let c = after.query_cache.map()[key];
                        &&& after.query_cache.map().contains_key(key)
                        &&& c.cached_at == now
                        &&& rows_view(c.result.rows@) == simulated_rows()
                        &&& c.result.rows_affected == 1
                        &&& c.result.execution_time == simulated_time(lowercase(sql@))
                    }
                },
            }
        }))
    }

    /// Runs a query at `now`. A cacheable query with a fresh cached result is
    /// answered from the cache; any other query takes a connection, runs,
    /// gives the connection back and, when cacheable, has its result cached.
    pub fn execute_query_at(&mut self, sql: &str, parameters: &[&str], now: u64) -> (r: Result<QueryResult, DataAccessError>)
        requires
            old(self).wf(),
        ensures
            final(self).wf(),
            old(self).executed(*final(self), sql, parameters, now, r),
    {
        self.metrics.total_queries = inc(self.metrics.total_queries);
        let use_cache = self.config.enable_query_cache && is_cacheable_query(sql);
        let key = generate_cache_key(sql, parameters);
        if use_cache {
            match self.get_cached_query_at(&key, now) {
                Some(c) => {
                    self.metrics.query_cache_hits = inc(self.metrics.query_cache_hits);
                    return Ok(
                        QueryResult {
                            rows: copy_rows(&c.result.rows),
                            rows_affected: c.result.rows_affected,
                            execution_time: c.result.execution_time,
                            from_cache: true,
                        },
                    );
                },
                None => {
                    self.metrics.query_cache_misses = inc(self.metrics.query_cache_misses);
                },
            }
        }
        let ghost mid = *self;
        let connection = match self.get_connection_at(now) {
            Ok(c) => c,
            Err(e) => {
                return Err(e);
            },
        };
        let result = simulate_query(sql);
        self.return_connection(connection);
        if use_cache {
            let stored = QueryResult {
                rows: copy_rows(&result.rows),
                rows_affected: result.rows_affected,
                execution_time: result.execution_time,
                from_cache: false,
            };
            self.cache_query_result_at(key, sql, stored, now);
        }
        self.metrics.successful_queries = inc(self.metrics.successful_queries);
        Ok(result)
    }

    /// Looks up a cached result at `now`: a fresh one has its access
    /// counted and is returned; a stale one is dropped.
    pub fn get_cached_query_at(&mut self, key: &String, now: u64) -> (r: Option<CachedQuery>)
        requires
            old(self).wf(),
        ensures
            final(self).wf(),
            final(self).config == old(self).config,
            final(self).metrics == old(self).metrics,
            final(self).available == old(self).available,
            final(self).in_use == old(self).in_use,
            final(self).transactions == old(self).transactions,
            final(self).connection_counter == old(self).connection_counter,
            match old(self).fresh_query(key@, now) {
                Some(c) => r == Some(c) && final(self).query_cache.map().dom() == old(
                    self,
                ).query_cache.map().dom() && final(self).query_cache.map()[key@].last_accessed == now,
                None => r is None && final(self).query_cache.map() == old(self).query_cache.map().remove(
                    key@,
                ),
            },
    {
        match self.query_cache.remove(key) {
            Some(c) => {
                if elapsed(c.cached_at, now) < self.config.query_cache_ttl {
                    let copy = CachedQuery {
                        sql: c.sql.clone(),
                        result: QueryResult {
                            rows: copy_rows(&c.result.rows),
                            rows_affected: c.result.rows_affected,
                            execution_time: c.result.execution_time,
                            from_cache: c.result.from_cache,
                        },
                        cached_at: c.cached_at,
                        access_count: inc(c.access_count),
                        last_accessed: now,
                    };
                    self.query_cache.insert(key.clone(), copy);
                    Some(c)
                } else {
                    None
                }
            },
            None => None,
        }
    }

    /// Caches a query result at `now`; when the cache is full the least
    /// recently used result is dropped first.
    pub fn cache_query_result_at(&mut self, key: String, sql: &str, result: QueryResult, now: u64)
        requires
            old(self).wf(),
        ensures
            final(self).wf(),
            final(self).config == old(self).config,
            final(self).available == old(self).available,
            final(self).in_use == old(self).in_use,
            final(self).transactions == old(self).transactions,
            final(self).connection_counter == old(self).connection_counter,
            final(self).metrics == (DataAccessMetrics {
                cached_queries: wrap_inc(old(self).metrics.cached_queries),
                ..old(self).metrics
            }),
            final(self).query_cache.map().contains_key(key@),
            final(self).query_cache.map()[key@].cached_at == now,
            final(self).query_cache.map()[key@].sql@ == sql@,
            final(self).query_cache.map()[key@].result == result,
            final(self).query_cache.map()[key@].last_accessed == now,
            ({
                let s = old(self).query_cache.entries@;
                if s.len() >= old(self).config.max_cached_queries && s.len() > 0 {
                    exists|i: int|
                        least_recent_query(s, i) && final(self).query_cache.map().dom()
                            == old(self).query_cache.map().dom().remove(#[trigger] s[i].0@).insert(key@)
                } else {
                    final(self).query_cache.map().dom() == old(self).query_cache.map().dom().insert(key@)
                }
            }),
    {
        let n = self.query_cache.len();
        if n >= self.config.max_cached_queries && n > 0 {
            let entries = self.query_cache.iter();
            let mut best: usize = 0;
            let mut i: usize = 1;
            while i < n
                invariant
                    entries@ == old(self).query_cache.entries@,
                    n == entries@.len(),
                    0 < n,
                    best < n,
                    1 <= i <= n,
                    forall|j: int|
                        0 <= j < i ==> entries@[best as int].1.last_accessed <= #[trigger] entries@[j].1.last_accessed,
                decreases n - i,
            {
                if entries[i].1.last_accessed < entries[best].1.last_accessed {
                    best = i;
                }
                i = i + 1;
            }
            let ghost s = old(self).query_cache.entries@;
            assert(least_recent_query(s, best as int));
            self.query_cache.remove_at(best);
        }
        let cached = CachedQuery {
            sql: String::from_str(sql),
            result,
            cached_at: now,
            access_count: 0,
            last_accessed: now,
        };
        self.query_cache.insert(key, cached);
        self.metrics.cached_queries = inc(self.metrics.cached_queries);
    }

    /// Opens a transaction now.
    pub fn begin_transaction(&mut self) -> (r: Result<u64, DataAccessError>)
        requires
            old(self).wf(),
        ensures
            final(self).wf(),
            exists|now: u64| #[trigger] old(self).transaction_begun(*final(self), now, r),
    {
        let now = self.clock.now_ms();
        let r = self.begin_transaction_at(now);
        assert(old(self).transaction_begun(*self, now, r));
        r
    }

    /// What beginning a transaction at `now` does, from this state to `after`, returning `r`: without a connection to hand out it fails and changes nothing; otherwise a new open transaction started at `now` is recorded under the returned id, which is the connection counter once a connection is taken (a new one takes the counter's value first), and the counter moves past it.
    pub open spec fn transaction_begun(self, after: Self, now: u64, r: Result<u64, DataAccessError>) -> bool {
        &&& (after.config == self.config)
        &&& (self.can_connect() <==> r is Ok)
        &&& (!self.can_connect() ==> r == Err::<u64, DataAccessError>(
            DataAccessError::ConnectionPoolExhausted,
        ) && after == self)
        &&& (r matches Ok(id) ==> after.transactions.map().contains_key(id)
            && after.transactions.map()[id].started_at == now
            && !after.transactions.map()[id].is_committed
            && !after.transactions.map()[id].is_rolled_back
            && after.transactions.map().remove(id) =~= self.transactions.map().remove(id)
            && after.metrics.active_transactions == wrap_inc(
            self.metrics.active_transactions,
        ) && id == (if self.available@.len() > 0 {
            self.connection_counter
        } else {
            wrap_inc(self.connection_counter)
        }) && after.connection_counter == wrap_inc(id)
            && after.metrics.committed_transactions == self.metrics.committed_transactions
            && after.metrics.rolled_back_transactions == self.metrics.rolled_back_transactions)
    }

    /// Opens a transaction at `now` on a connection of the pool; its id is
    /// taken from the connection counter.
    pub fn begin_transaction_at(&mut self, now: u64) -> (r: Result<u64, DataAccessError>)
        requires
            old(self).wf(),
        ensures
            final(self).wf(),
            old(self).transaction_begun(*final(self), now, r),
    {
        let connection = match self.get_connection_at(now) {
            Ok(c) => c,
            Err(e) => {
                return Err(e);
            },
        };
        let id = self.connection_counter;
        self.connection_counter = inc(self.connection_counter);
        let tx = Transaction {
            id,
            connection_id: connection.id,
            started_at: now,
            is_committed: false,
            is_rolled_back: false,
        };
        self.transactions.insert(id, tx);
        self.metrics.active_transactions = inc(self.metrics.active_transactions);
        Ok(id)
    }

    /// Commits an open transaction; an unknown id is an error.
    pub fn commit_transaction(&mut self, transaction_id: u64) -> (r: Result<(), DataAccessError>)
        requires
            old(self).wf(),
        ensures
            final(self).wf(),
            final(self).config == old(self).config,
            old(self).transactions.map().contains_key(transaction_id) ==> {
                &&& r is Ok
                &&& final(self).transactions.map() == old(self).transactions.map().remove(transaction_id)
                &&& final(self).metrics == (DataAccessMetrics {
                    active_transactions: wrap_dec(old(self).metrics.active_transactions),
                    committed_transactions: wrap_inc(old(self).metrics.committed_transactions),
                    ..old(self).metrics
                })
            },
            !old(self).transactions.map().contains_key(transaction_id) ==> r == Err::<(), DataAccessError>(
                DataAccessError::TransactionNotFound(transaction_id),
            ) && final(self).transactions.map() == old(self).transactions.map() && final(self).metrics
                == old(self).metrics,
    {
        match self.transactions.remove(&transaction_id) {
            Some(_) => {
                self.metrics.active_transactions = dec(self.metrics.active_transactions);
                self.metrics.committed_transactions = inc(self.metrics.committed_transactions);
                Ok(())
            },
            None => Err(DataAccessError::TransactionNotFound(transaction_id)),
        }
    }

    /// Rolls back an open transaction; an unknown id is an error.
    pub fn rollback_transaction(&mut self, transaction_id: u64) -> (r: Result<(), DataAccessError>)
        requires
            old(self).wf(),
        ensures
            final(self).wf(),
            final(self).config == old(self).config,
            old(self).transactions.map().contains_key(transaction_id) ==> {
                &&& r is Ok
                &&& final(self).transactions.map() == old(self).transactions.map().remove(transaction_id)
                &&& final(self).metrics == (DataAccessMetrics {
                    active_transactions: wrap_dec(old(self).metrics.active_transactions),
                    rolled_back_transactions: wrap_inc(old(self).metrics.rolled_back_transactions),
                    ..old(self).metrics
                })
            },
            !old(self).transactions.map().contains_key(transaction_id) ==> r == Err::<(), DataAccessError>(
                DataAccessError::TransactionNotFound(transaction_id),
            ) && final(self).transactions.map() == old(self).transactions.map() && final(self).metrics
                == old(self).metrics,
    {
        match self.transactions.remove(&transaction_id) {
            Some(_) => {
                self.metrics.active_transactions = dec(self.metrics.active_transactions);
                self.metrics.rolled_back_transactions = inc(self.metrics.rolled_back_transactions);
                Ok(())
            },
            None => Err(DataAccessError::TransactionNotFound(transaction_id)),
        }
    }

    /// The layer's statistics.
    pub fn get_performance_stats(&self) -> (r: DataAccessStats)
        ensures
            r == (DataAccessStats {
                total_queries: self.metrics.total_queries,
                successful_queries: self.metrics.successful_queries,
                failed_queries: self.metrics.failed_queries,
                cached_queries: self.query_cache.entries@.len() as usize,
                query_cache_hits: self.metrics.query_cache_hits,
                query_cache_misses: self.metrics.query_cache_misses,
                active_connections: self.metrics.active_connections,
                total_connections_created: self.metrics.total_connections_created,
                total_connections_destroyed: self.metrics.total_connections_destroyed,
                active_transactions: self.transactions.entries@.len() as usize,
                committed_transactions: self.metrics.committed_transactions,
                rolled_back_transactions: self.metrics.rolled_back_transactions,
                average_query_time: self.metrics.average_query_time,
                average_connection_time: self.metrics.average_connection_time,
            }),
    {
        DataAccessStats {
            total_queries: self.metrics.total_queries,
            successful_queries: self.metrics.successful_queries,
            failed_queries: self.metrics.failed_queries,
            cached_queries: self.query_cache.len(),
            query_cache_hits: self.metrics.query_cache_hits,
            query_cache_misses: self.metrics.query_cache_misses,
            active_connections: self.metrics.active_connections,
            total_connections_created: self.metrics.total_connections_created,
            total_connections_destroyed: self.metrics.total_connections_destroyed,
            active_transactions: self.transactions.len(),
            committed_transactions: self.metrics.committed_transactions,
            rolled_back_transactions: self.metrics.rolled_back_transactions,
            average_query_time: self.metrics.average_query_time,
            average_connection_time: self.metrics.average_connection_time,
        }
    }
}

/// A copy of a result's rows.
fn copy_rows(rows: &Vec<Vec<(String, String)>>) -> (r: Vec<Vec<(String, String)>>)
    ensures
        rows_view(r@) == rows_view(rows@),
{
    let mut out: Vec<Vec<(String, String)>> = Vec::new();
    let mut i: usize = 0;
    while i < rows.len()
        invariant
            i <= rows@.len(),
            rows_view(out@) == rows_view(rows@.take(i as int)),
        decreases rows.len() - i,
    {
        let row = &rows[i];
        let mut copy: Vec<(String, String)> = Vec::new();
        let mut j: usize = 0;
        while j < row.len()
            invariant
                j <= row@.len(),
                cells_view(copy@) == cells_view(row@.take(j as int)),
            decreases row.len() - j,
        {
            let ghost before = copy@;
            let a = row[j].0.clone();
            let b = row[j].1.clone();
            copy.push((a, b));
            assert(cells_view(copy@) =~= cells_view(before).push((row@[j as int].0@, row@[j as int].1@)));
            assert(cells_view(row@.take(j + 1)) =~= cells_view(row@.take(j as int)).push(
                (row@[j as int].0@, row@[j as int].1@),
            ));
            j = j + 1;
        }
        assert(row@.take(j as int) =~= row@);
        let ghost before = out@;
        out.push(copy);
        assert(rows_view(out@) =~= rows_view(before).push(cells_view(rows@[i as int]@)));
        assert(rows_view(rows@.take(i + 1)) =~= rows_view(rows@.take(i as int)).push(cells_view(rows@[i as int]@)));
        assert(rows_view(out@) =~= rows_view(rows@.take(i + 1)));
        i = i + 1;
    }
    assert(rows@.take(i as int) =~= rows@);
    out
}

/// The simulated result of running `sql`: one row (`id` 1, `name` test),
/// one row affected, and the simulated execution time.
pub fn simulate_query(sql: &str) -> (r: QueryResult)
    ensures
        rows_view(r.rows@) == simulated_rows(),
        r.rows_affected == 1,
        r.execution_time == simulated_time(lowercase(sql@)),
        !r.from_cache,
{
    let mut row: Vec<(String, String)> = Vec::new();
    row.push((String::from_str("id"), String::from_str("1")));
    row.push((String::from_str("name"), String::from_str("test")));
    let mut rows: Vec<Vec<(String, String)>> = Vec::new();
    assert(cells_view(row@) =~= seq![("id"@, "1"@), ("name"@, "test"@)]);
    rows.push(row);
    assert(rows_view(rows@) =~= simulated_rows());
    QueryResult { rows, rows_affected: 1, execution_time: simulated_execution_time(sql), from_cache: false }
}

/// The simulated execution time of a query, in milliseconds.
pub fn simulated_execution_time(sql: &str) -> (r: u64)
    ensures
        r == simulated_time(lowercase(sql@)),
{
    let lower = to_lowercase(sql);
    let l = chars_of(lower.as_str());
    let s = l.as_slice();
    if contains(s, chars_of("select").as_slice()) {
        10
    } else if contains(s, chars_of("insert").as_slice()) {
        20
    } else if contains(s, chars_of("update").as_slice()) {
        30
    } else if contains(s, chars_of("delete").as_slice()) {
        25
    } else {
        15
    }
}

/// Whether the result of `sql` may be cached.
pub fn is_cacheable_query(sql: &str) -> (r: bool)
    ensures
        r == cacheable_sql(sql@),
{
    let lower = to_lowercase(sql);
    let l = chars_of(lower.as_str());
    let s = l.as_slice();
    has_prefix(s, chars_of("select").as_slice()) && !contains(s, chars_of("now()").as_slice())
        && !contains(s, chars_of("random()").as_slice())
}

/// The cache key of a query: its text, a colon and the parameters joined
/// by commas.
pub fn generate_cache_key(sql: &str, parameters: &[&str]) -> (r: String)
    ensures
        r@ == query_key(sql@, param_views(parameters@)),
{
    let mut t: Vec<char> = Vec::new();
    append_str(&mut t, sql);
    append_str(&mut t, ":");
    let ghost base = t@;
    let mut i: usize = 0;
    while i < parameters.len()
        invariant
            i <= parameters@.len(),
            t@ == base + joined(param_views(parameters@.take(i as int))),
        decreases parameters.len() - i,
    {
        proof {
            assert(param_views(parameters@.take(i + 1)).drop_last() =~= param_views(parameters@.take(i as int)));
            assert(param_views(parameters@.take(i + 1)).last() == parameters@[i as int]@);
            if i == 0 {
                assert(param_views(parameters@.take(0)) =~= Seq::<Seq<char>>::empty());
            }
        }
        if i > 0 {
            append_str(&mut t, ",");
        }
        append_str(&mut t, parameters[i]);
        proof {
            if i == 0 {
                assert(param_views(parameters@.take(1)) =~= seq![parameters@[0]@]);
                assert(t@ =~= base + joined(param_views(parameters@.take(1))));
            } else {
                assert(t@ =~= base + joined(param_views(parameters@.take(i + 1))));
            }
        }
        i = i + 1;
    }
    assert(parameters@.take(i as int) =~= parameters@);
    string_from_chars(t.as_slice())
}


/// The same cacheable query, run again while the first run's result is
/// fresh, is answered from the cache with the first run's rows. The first
/// run must have queried the store itself: a result that it found in the
/// cache keeps its older caching time.
pub proof fn lemma_query_cached(
    d0: DataAccessLayer,
    d1: DataAccessLayer,
    d2: DataAccessLayer,
    sql: &str,
    parameters: &[&str],
    now: u64,
    later: u64,
    r1: Result<QueryResult, DataAccessError>,
    r2: Result<QueryResult, DataAccessError>,
)
    requires
        d0.executed(d1, sql, parameters, now, r1),
        d1.executed(d2, sql, parameters, later, r2),
        d0.config.enable_query_cache,
        cacheable_sql(sql@),
        r1 matches Ok(q) && !q.from_cache,
        now <= later,
        later - now < d0.config.query_cache_ttl,
    ensures
        r2 matches Ok(q2) && q2.from_cache && rows_view(q2.rows@) == rows_view(r1->Ok_0.rows@)
            && q2.rows_affected == r1->Ok_0.rows_affected && q2.execution_time == r1->Ok_0.execution_time,
{
}

} // verus!
