//! Named pools of reusable connections: connections are handed out from the
//! front of a pool's idle list after expired ones are dropped, validated
//! when configured, and created through a factory when none is idle.
//!
//! Durations are in milliseconds.
use vstd::prelude::*;

use crate::clock::Clock;
use crate::counter::{inc, sat_add, spec_elapsed, wrap_inc};
use crate::data_access::cells_view;
use crate::lru::LruCache;
use crate::text::{append_str, string_from_chars};

verus! {

/// Connection pool configuration. Durations are in milliseconds.
#[derive(Debug, Clone, Copy, PartialEq, Eq, Structural)]
pub struct ConnectionPoolConfig {
    pub min_connections: usize,
    pub max_connections: usize,
    pub connection_timeout: u64,
    /// How long a connection may stay idle.
    pub idle_timeout: u64,
    pub health_check_interval: u64,
    /// How long a connection may live.
    pub max_lifetime: u64,
    pub enable_validation: bool,
    pub retry_attempts: usize,
    pub enable_adaptive_scaling: bool,
}

impl Default for ConnectionPoolConfig {
    fn default() -> (r: ConnectionPoolConfig)
        ensures
            r == (ConnectionPoolConfig {
                min_connections: 5,
                max_connections: 100,
                connection_timeout: 30_000,
                idle_timeout: 300_000,
                health_check_interval: 60_000,
                max_lifetime: 3_600_000,
                enable_validation: true,
                retry_attempts: 3,
                enable_adaptive_scaling: true,
            }),
    {
        ConnectionPoolConfig {
            min_connections: 5,
            max_connections: 100,
            connection_timeout: 30_000,
            idle_timeout: 300_000,
            health_check_interval: 60_000,
            max_lifetime: 3_600_000,
            enable_validation: true,
            retry_attempts: 3,
            enable_adaptive_scaling: true,
        }
    }
}

/// The kind of service a connection reaches.
#[derive(Debug, Clone, Copy, PartialEq, Eq, Structural)]
pub enum ConnectionType {
    Database,
    Http,
    Cache,
    MessageQueue,
}

/// What a connection says about itself.
#[derive(Debug, Clone)]
pub struct ConnectionInfo {
    pub id: String,
    pub host: String,
    pub port: u16,
    pub database: Option<String>,
    pub connection_type: ConnectionType,
}

/// The result of a query on a pooled connection.
#[derive(Debug, Clone)]
pub struct QueryResult {
    pub rows_affected: u64,
    /// The rows, each a list of column name and value.
    pub data: Vec<Vec<(String, String)>>,
    /// In milliseconds.
    pub execution_time: u64,
}

/// Errors of the connection pool.
#[derive(Debug, Clone)]
pub enum ConnectionError {
    Timeout,
    PoolExhausted,
    ConnectionFailed(String),
    ValidationFailed,
    ConnectionClosed,
    QueryFailed(String),
}

impl ConnectionError {
    /// The error's message.
    pub open spec fn message(&self) -> Seq<char> {
        match self {
            ConnectionError::Timeout => "Connection timeout"@,
            ConnectionError::PoolExhausted => "Connection pool exhausted"@,
            ConnectionError::ConnectionFailed(m) => "Connection failed: "@ + m@,
            ConnectionError::ValidationFailed => "Connection validation failed"@,
            ConnectionError::ConnectionClosed => "Connection is closed"@,
            ConnectionError::QueryFailed(m) => "Query failed: "@ + m@,
        }
    }

    /// The error's message.
    pub fn to_string(&self) -> (r: String)
        ensures
            r@ == self.message(),
    {
        let mut t: Vec<char> = Vec::new();
        match self {
            ConnectionError::Timeout => append_str(&mut t, "Connection timeout"),
            ConnectionError::PoolExhausted => append_str(&mut t, "Connection pool exhausted"),
            ConnectionError::ConnectionFailed(m) => {
                append_str(&mut t, "Connection failed: ");
                append_str(&mut t, m.as_str());
            },
            ConnectionError::ValidationFailed => append_str(&mut t, "Connection validation failed"),
            ConnectionError::ConnectionClosed => append_str(&mut t, "Connection is closed"),
            ConnectionError::QueryFailed(m) => {
                append_str(&mut t, "Query failed: ");
                append_str(&mut t, m.as_str());
            },
        }
        string_from_chars(t.as_slice())
    }
}

/// A connection to a database or service. Implemented by the users of the
/// pool.
pub trait Connection {
    fn is_alive(&self) -> bool;

    fn reset(&self) -> Result<(), ConnectionError>;

    fn execute_query(&self, query: &str) -> Result<QueryResult, ConnectionError>;

    fn get_connection_info(&self) -> ConnectionInfo;
}

/// A connection held by a pool, with its bookkeeping.
#[derive(Debug)]
pub struct PooledConnection<C> {
    pub id: u64,
    pub connection: C,
    pub created_at: u64,
    pub last_used: u64,
    pub use_count: u64,
    pub is_healthy: bool,
}

/// Opens and checks connections for named pools. Implemented by the users
/// of the pool.
pub trait ConnectionFactory {
    type Conn: Connection;

    fn create_connection(&self, pool_name: &str) -> Result<Self::Conn, ConnectionError>;

    fn validate_connection(&self, connection: &PooledConnection<Self::Conn>) -> bool;
}

/// A named pool.
#[derive(Debug)]
pub struct Pool<C> {
    pub name: String,
    /// Idle connections; the front one is handed out first.
    pub available: Vec<PooledConnection<C>>,
    pub created_at: u64,
    pub last_scaled: u64,
    /// Connections handed out and not yet returned.
    pub in_use: usize,
}

/// Statistics of one pool.
#[derive(Debug, Clone, Copy, PartialEq, Eq, Structural)]
pub struct PoolStats {
    pub available_connections: usize,
    pub in_use_connections: usize,
    pub total_connections: usize,
    pub max_connections: usize,
    pub created_at: u64,
    pub last_scaled: u64,
}

/// Counters of the pool manager; they wrap around as atomic counters do.
#[derive(Debug, Clone, Copy, PartialEq, Eq, Structural)]
pub struct ConnectionPoolMetrics {
    pub total_connections_created: u64,
    pub total_connections_destroyed: u64,
    pub total_requests: u64,
    pub successful_requests: u64,
    pub failed_requests: u64,
    pub connection_timeouts: u64,
    pub health_check_failures: u64,
    pub pool_exhaustions: u64,
    /// Running average, in nanoseconds.
    pub average_wait_time: u64,
    pub peak_connections: usize,
}

/// Statistics of the pool manager.
pub type ConnectionPoolStats = ConnectionPoolMetrics;

/// A connection idle too long or alive too long at `now`.
pub open spec fn expired<C>(c: PooledConnection<C>, now: u64, cfg: ConnectionPoolConfig) -> bool {
    spec_elapsed(c.last_used, now) > cfg.idle_timeout || spec_elapsed(c.created_at, now) > cfg.max_lifetime
}

/// The number of expired connections at the front of an idle list.
pub open spec fn leading_expired<C>(s: Seq<PooledConnection<C>>, now: u64, cfg: ConnectionPoolConfig) -> nat
    decreases s.len(),
{
    if s.len() == 0 || !expired(s[0], now, cfg) {
        0
    } else {
        1 + leading_expired(s.drop_first(), now, cfg)
    }
}

/// A connection handed out by a pool.
pub struct ConnectionHandle<C> {
    pub connection: Option<PooledConnection<C>>,
    pub pool_name: String,
}

impl<C: Connection> ConnectionHandle<C> {
    /// Runs a query on the handle's connection; a handle without one is
    /// closed.
    pub fn execute_query(&self, query: &str) -> (r: Result<QueryResult, ConnectionError>)
        ensures
            self.connection is None ==> r matches Err(ConnectionError::ConnectionClosed),
    {
        match &self.connection {
            Some(c) => c.connection.execute_query(query),
            None => Err(ConnectionError::ConnectionClosed),
        }
    }

    /// What the handle's connection says about itself, if it has one.
    pub fn get_info(&self) -> (r: Option<ConnectionInfo>)
        ensures
            r is Some <==> self.connection is Some,
    {
        match &self.connection {
            Some(c) => Some(c.connection.get_connection_info()),
            None => None,
        }
    }
}

/// The pool manager.
pub struct DavConnectionPool<F: ConnectionFactory> {
    pub pools: LruCache<String, Pool<F::Conn>>,
    pub factory: F,
    pub metrics: ConnectionPoolMetrics,
    pub config: ConnectionPoolConfig,
    pub clock: Clock,
}

impl<F: ConnectionFactory> DavConnectionPool<F> {
    /// The manager's invariant: no pool name occurs twice, and no pool has
    /// more connections handed out than the configured maximum.
    pub open spec fn wf(&self) -> bool {
        &&& self.pools.wf()
        &&& forall|n: Seq<char>| #[trigger] self.pools.map().contains_key(n) ==> self.pools.map()[n].in_use
            <= self.config.max_connections
    }

    /// The pool named `name` as it stands, or a new empty one.
    pub open spec fn pool_or_new(&self, name: Seq<char>) -> (Seq<PooledConnection<F::Conn>>, usize) {
        if self.pools.map().contains_key(name) {
            (self.pools.map()[name].available@, self.pools.map()[name].in_use)
        } else {
            (Seq::empty(), 0)
        }
    }

    /// A manager with no pools and zero counters.
    pub fn new(factory: F, config: ConnectionPoolConfig) -> (r: DavConnectionPool<F>)
        ensures
            r.wf(),
            r.config == config,
            r.pools.entries@.len() == 0,
            r.metrics == (ConnectionPoolMetrics {
                total_connections_created: 0,
                total_connections_destroyed: 0,
                total_requests: 0,
                successful_requests: 0,
                failed_requests: 0,
                connection_timeouts: 0,
                health_check_failures: 0,
                pool_exhaustions: 0,
                average_wait_time: 0,
                peak_connections: 0,
            }),
    {
        DavConnectionPool {
            pools: LruCache::new(usize::MAX),
            factory,
            metrics: ConnectionPoolMetrics {
                total_connections_created: 0,
                total_connections_destroyed: 0,
                total_requests: 0,
                successful_requests: 0,
                failed_requests: 0,
                connection_timeouts: 0,
                health_check_failures: 0,
                pool_exhaustions: 0,
                average_wait_time: 0,
                peak_connections: 0,
            },
            config,
            clock: Clock::start(),
        }
    }

    /// Whether pool `pool_name` can hand out a connection without waiting:
    /// it has fewer connections handed out than the maximum (a pool not yet
    /// created has none).
    pub fn has_free_slot(&self, pool_name: &str) -> (r: bool)
        requires
            self.wf(),
        ensures
            r == (self.pool_or_new(pool_name@).1 < self.config.max_connections),
    {
        let key = String::from_str(pool_name);
        match self.pools.get(&key) {
            Some(p) => p.in_use < self.config.max_connections,
            None => 0 < self.config.max_connections,
        }
    }

    /// Hands out a connection of pool `pool_name` now.
    pub fn get_connection(&mut self, pool_name: &str) -> (r: Result<ConnectionHandle<F::Conn>, ConnectionError>)
        requires
            old(self).wf(),
        ensures
            final(self).wf(),
            exists|now: u64| #[trigger] old(self).connection_taken(*final(self), pool_name, now, r),
    {
        let now = self.clock.now_ms();
        let r = self.get_connection_at(pool_name, now);
        assert(old(self).connection_taken(*self, pool_name, now, r));
        r
    }

    /// What asking for a connection of pool `pool_name` at `now` does, from
    /// this state to `after`, returning `r`: the request is counted and the
    /// pool created if new. When the pool already has the maximum number of
    /// connections handed out, the wait for one times out: a timeout and a
    /// failed request are counted and nothing else changes. Otherwise the
    /// expired idle connections at the front are dropped and counted, and
    /// the next idle one is handed out (after validation when enabled) or
    /// else a new one is opened; a handed-out connection counts as in use,
    /// and a failure of the factory counts as a failed request.
    pub open spec fn connection_taken(self, after: Self, pool_name: &str, now: u64, r: Result<ConnectionHandle<F::Conn>, ConnectionError>) -> bool {
        let idle = self.pool_or_new(pool_name@).0;
        let in_use = self.pool_or_new(pool_name@).1;
        &&& (after.config == self.config)
        &&& (after.metrics.total_requests == wrap_inc(self.metrics.total_requests))
        &&& (after.pools.map().contains_key(pool_name@))
        &&& (in_use >= self.config.max_connections ==> {
            &&& r matches Err(ConnectionError::Timeout)
            &&& after.metrics == (ConnectionPoolMetrics {
                total_requests: wrap_inc(self.metrics.total_requests),
                connection_timeouts: wrap_inc(self.metrics.connection_timeouts),
                failed_requests: wrap_inc(self.metrics.failed_requests),
                ..self.metrics
            })
            &&& after.pools.map()[pool_name@].available@ == idle
            &&& after.pools.map()[pool_name@].in_use == in_use
        })
        &&& (r matches Ok(h) ==> h.pool_name@ == pool_name@ && h.connection is Some
            && after.metrics.successful_requests == wrap_inc(self.metrics.successful_requests)
            && after.metrics.failed_requests == self.metrics.failed_requests
            && after.pools.map()[pool_name@].in_use == in_use + 1)
        &&& (in_use < self.config.max_connections ==> {
            let k = leading_expired(idle, now, self.config);
            let fresh_id = self.metrics.total_connections_created;
            &&& after.metrics.connection_timeouts == self.metrics.connection_timeouts
            &&& k <= idle.len()
            &&& after.metrics.total_connections_destroyed == (
            self.metrics.total_connections_destroyed + k) % 0x1_0000_0000_0000_0000
            &&& k < idle.len() ==> after.pools.map()[pool_name@].available@ =~= idle.subrange(
                k + 1int,
                idle.len() as int,
            )
            &&& k == idle.len() ==> after.pools.map()[pool_name@].available@.len() == 0
            &&& (k < idle.len() && !self.config.enable_validation) ==> (r matches Ok(h)
                && h.connection->0.id == idle[k as int].id && h.connection->0.last_used == now
                && h.connection->0.use_count == wrap_inc(idle[k as int].use_count))
            &&& r matches Ok(h) ==> {
                let c = h.connection->0;
                ||| (k < idle.len() && c.id == idle[k as int].id && c.created_at == idle[k as int].created_at
                    && c.last_used == now && c.use_count == wrap_inc(idle[k as int].use_count))
                ||| (c.id == fresh_id && c.created_at == now && c.last_used == now && c.use_count == 1)
            }
            &&& r is Err ==> after.metrics.failed_requests == wrap_inc(self.metrics.failed_requests)
                && after.pools.map()[pool_name@].in_use == in_use
        })
    }

    /// Hands out a connection of pool `pool_name` at `now`, creating the pool
    /// when it is new; see `connection_taken`. A pool never has more than
    /// the configured maximum of connections handed out: at the maximum the
    /// wait for one times out.
    pub fn get_connection_at(&mut self, pool_name: &str, now: u64) -> (r: Result<ConnectionHandle<F::Conn>, ConnectionError>)
        requires
            old(self).wf(),
        ensures
            final(self).wf(),
            old(self).connection_taken(*final(self), pool_name, now, r),
    {
        self.metrics.total_requests = inc(self.metrics.total_requests);
        let key = String::from_str(pool_name);
        let mut pool = match self.pools.remove(&key) {
            Some(p) => p,
            None => Pool {
                name: String::from_str(pool_name),
                available: Vec::new(),
                created_at: now,
                last_scaled: now,
                in_use: 0,
            },
        };
        if pool.in_use >= self.config.max_connections {
            self.pools.insert(key, pool);
            self.metrics.connection_timeouts = inc(self.metrics.connection_timeouts);
            self.metrics.failed_requests = inc(self.metrics.failed_requests);
            return Err(ConnectionError::Timeout);
        }
        let dropped = drop_expired(&mut pool.available, now, self.config);
        self.metrics.total_connections_destroyed = add_wrapping(self.metrics.total_connections_destroyed, dropped);
        let next = if pool.available.len() > 0 {
            Some(pool.available.remove(0))
        } else {
            None
        };
        let opened = match next {
            Some(mut c) => {
                if self.config.enable_validation && !self.factory.validate_connection(&c) {
                    self.create_new_connection(pool_name, now)
                } else {
                    c.last_used = now;
                    c.use_count = inc(c.use_count);
                    Ok(c)
                }
            },
            None => self.create_new_connection(pool_name, now),
        };
        match opened {
            Ok(conn) => {
                pool.in_use = pool.in_use + 1;
                self.pools.insert(key, pool);
                self.metrics.successful_requests = inc(self.metrics.successful_requests);
                Ok(ConnectionHandle { connection: Some(conn), pool_name: String::from_str(pool_name) })
            },
            Err(e) => {
                self.pools.insert(key, pool);
                self.metrics.failed_requests = inc(self.metrics.failed_requests);
                Err(e)
            },
        }
    }

    /// Opens a connection through the factory: what the factory gives for
    /// the pool's name is taken in as `adopt_connection` says.
    fn create_new_connection(&mut self, pool_name: &str, now: u64) -> (r: Result<PooledConnection<F::Conn>, ConnectionError>)
        ensures
            final(self).pools == old(self).pools,
            final(self).config == old(self).config,
            final(self).metrics.total_requests == old(self).metrics.total_requests,
            final(self).metrics.successful_requests == old(self).metrics.successful_requests,
            final(self).metrics.total_connections_destroyed == old(self).metrics.total_connections_destroyed,
            r matches Ok(c) ==> c.id == old(self).metrics.total_connections_created && c.created_at == now
                && c.last_used == now && c.use_count == 1 && c.is_healthy
                && final(self).metrics == (ConnectionPoolMetrics {
                total_connections_created: wrap_inc(old(self).metrics.total_connections_created),
                ..old(self).metrics
            }),
            r is Err ==> final(self).metrics == old(self).metrics,
    {
        let opened = self.factory.create_connection(pool_name);
        self.adopt_connection(opened, now)
    }

    /// Takes in what the factory gave when asked for a connection at `now`:
    /// a refusal is passed on and nothing changes; a new connection gets the
    /// next id, counts as created, and is fresh (created and last used now,
    /// used once, healthy).
    pub fn adopt_connection(&mut self, opened: Result<F::Conn, ConnectionError>, now: u64) -> (r: Result<
        PooledConnection<F::Conn>,
        ConnectionError,
    >)
        ensures
            final(self).pools == old(self).pools,
            final(self).config == old(self).config,
            match opened {
                Err(e) => r == Err::<PooledConnection<F::Conn>, ConnectionError>(e) && final(self).metrics
                    == old(self).metrics,
                Ok(c) => r == Ok::<PooledConnection<F::Conn>, ConnectionError>(
                    PooledConnection {
                        id: old(self).metrics.total_connections_created,
                        connection: c,
                        created_at: now,
                        last_used: now,
                        use_count: 1,
                        is_healthy: true,
                    },
                ) && final(self).metrics == (ConnectionPoolMetrics {
                    total_connections_created: wrap_inc(old(self).metrics.total_connections_created),
                    ..old(self).metrics
                }),
            },
    {
        let connection = match opened {
            Ok(c) => c,
            Err(e) => {
                return Err(e);
            },
        };
        let id = self.metrics.total_connections_created;
        self.metrics.total_connections_created = inc(self.metrics.total_connections_created);
        Ok(PooledConnection { id, connection, created_at: now, last_used: now, use_count: 1, is_healthy: true })
    }

    /// Takes a handed-out connection back: it goes to the end of its pool's
    /// idle list and no longer counts as in use, when the pool exists.
    pub fn return_connection(&mut self, handle: ConnectionHandle<F::Conn>)
        requires
            old(self).wf(),
        ensures
            final(self).wf(),
            final(self).config == old(self).config,
            final(self).metrics == old(self).metrics,
            final(self).pools.map().dom() == old(self).pools.map().dom(),
            handle.connection is None ==> final(self).pools.map() == old(self).pools.map(),
            handle.connection is Some && old(self).pools.map().contains_key(handle.pool_name@) ==> {
                let before = old(self).pools.map()[handle.pool_name@];
                let now = final(self).pools.map()[handle.pool_name@];
                &&& now.available@ == before.available@.push(handle.connection->0)
                &&& now.in_use == if before.in_use > 0 { (before.in_use - 1) as usize } else { 0 }
                &&& final(self).pools.map() == old(self).pools.map().insert(handle.pool_name@, now)
            },
    {
        match handle.connection {
            Some(c) => {
                let ghost m = old(self).pools.map();
                match self.pools.remove(&handle.pool_name) {
                    Some(mut pool) => {
                        pool.available.push(c);
                        if pool.in_use > 0 {
                            pool.in_use = pool.in_use - 1;
                        }
                        self.pools.insert(handle.pool_name, pool);
                        assert(self.pools.map().dom() =~= m.dom());
                    },
                    None => {},
                }
            },
            None => {},
        }
    }

    /// Statistics of each pool, in the order pools were created.
    pub fn get_pool_stats(&self) -> (r: Vec<(String, PoolStats)>)
        ensures
            r@.len() == self.pools.entries@.len(),
            forall|i: int|
                0 <= i < r@.len() ==> #[trigger] r@[i].0@ == self.pools.entries@[i].0@ && r@[i].1 == stats_of(
                    self.pools.entries@[i].1,
                    self.config.max_connections,
                ),
    {
        let entries = self.pools.iter();
        let mut out: Vec<(String, PoolStats)> = Vec::new();
        let mut i: usize = 0;
        while i < entries.len()
            invariant
                entries@ == self.pools.entries@,
                i <= entries@.len(),
                out@.len() == i,
                forall|j: int| 0 <= j < i ==> #[trigger] out@[j].0@ == entries@[j].0@,
                forall|j: int| 0 <= j < i ==> #[trigger] out@[j].1 == stats_of(entries@[j].1, self.config.max_connections),
            decreases entries.len() - i,
        {
            let name = &entries[i].0;
            let pool = &entries[i].1;
            let n = pool.available.len();
            let st = PoolStats {
                available_connections: n,
                in_use_connections: pool.in_use,
                total_connections: if n <= usize::MAX - pool.in_use {
                    n + pool.in_use
                } else {
                    usize::MAX
                },
                max_connections: self.config.max_connections,
                created_at: pool.created_at,
                last_scaled: pool.last_scaled,
            };
            assert(st == stats_of(entries@[i as int].1, self.config.max_connections));
            let ghost before = out@;
            out.push((name.clone(), st));
            assert forall|j: int| 0 <= j < i + 1 implies #[trigger] out@[j].0@ == entries@[j].0@ by {
                if j < i {
                    assert(out@[j] == before[j]);
                    assert(before[j].0@ == entries@[j].0@);
                }
            }
            assert forall|j: int| 0 <= j < i + 1 implies #[trigger] out@[j].1 == stats_of(entries@[j].1, self.config.max_connections) by {
                if j < i {
                    assert(out@[j] == before[j]);
                    assert(before[j].1 == stats_of(entries@[j].1, self.config.max_connections));
                }
            }
            i = i + 1;
        }
        out
    }

    /// One round of health checks: each idle connection of each pool is
    /// asked whether it is alive, and those that are not are counted as
    /// health check failures. Only that counter changes; the number of
    /// failures found is returned.
    pub fn check_health(&mut self) -> (failed: u64)
        ensures
            failed <= idle_total(old(self).pools.entries@),
            *final(self) == (DavConnectionPool {
                metrics: ConnectionPoolMetrics {
                    health_check_failures: ((old(self).metrics.health_check_failures + failed)
                        % 0x1_0000_0000_0000_0000) as u64,
                    ..old(self).metrics
                },
                ..*old(self)
            }),
    {
        let mut failed: u64 = 0;
        let mut i: usize = 0;
        let ghost es = self.pools.entries@;
        while i < self.pools.entries.len()
            invariant
                i <= es.len(),
                es == self.pools.entries@,
                failed <= idle_total(es.take(i as int)),
            decreases es.len() - i,
        {
            let mut j: usize = 0;
            while j < self.pools.entries[i].1.available.len()
                invariant
                    i < es.len(),
                    es == self.pools.entries@,
                    j <= es[i as int].1.available@.len(),
                    failed <= idle_total(es.take(i as int)) + j,
                decreases es[i as int].1.available@.len() - j,
            {
                if !self.pools.entries[i].1.available[j].connection.is_alive() {
                    failed = sat_add(failed, 1);
                }
                j = j + 1;
            }
            assert(es.take(i + 1).drop_last() =~= es.take(i as int));
            i = i + 1;
        }
        assert(es.take(es.len() as int) =~= es);
        self.metrics.health_check_failures = wrapping_sum(self.metrics.health_check_failures, failed);
        failed
    }

    /// The manager's counters.
    pub fn get_metrics(&self) -> (r: ConnectionPoolStats)
        ensures
            r == self.metrics,
    {
        self.metrics
    }
}

/// The statistics of a pool under the configured maximum.
pub open spec fn stats_of<C>(p: Pool<C>, max: usize) -> PoolStats {
    PoolStats {
        available_connections: p.available@.len() as usize,
        in_use_connections: p.in_use,
        total_connections: pool_total(p.available@.len(), p.in_use),
        max_connections: max,
        created_at: p.created_at,
        last_scaled: p.last_scaled,
    }
}

/// The connections of a pool, idle and in use (held at `usize::MAX`).
pub open spec fn pool_total(available: nat, in_use: usize) -> usize {
    if available + in_use <= usize::MAX {
        (available + in_use) as usize
    } else {
        usize::MAX
    }
}

/// The number of idle connections over all pools.
pub open spec fn idle_total<C>(s: Seq<(String, Pool<C>)>) -> int
    decreases s.len(),
{
    if s.len() == 0 {
        0
    } else {
        idle_total(s.drop_last()) + s.last().1.available@.len()
    }
}

fn wrapping_sum(x: u64, n: u64) -> (r: u64)
    ensures
        r == (x + n) % 0x1_0000_0000_0000_0000,
{
    ((x as u128 + n as u128) % 0x1_0000_0000_0000_0000u128) as u64
}

fn add_wrapping(x: u64, n: usize) -> (r: u64)
    ensures
        r == (x + n) % 0x1_0000_0000_0000_0000,
{
    ((x as u128 + n as u128) % 0x1_0000_0000_0000_0000u128) as u64
}

/// Drops the expired connections at the front of an idle list and
/// returns how many were dropped.
pub fn drop_expired<C>(available: &mut Vec<PooledConnection<C>>, now: u64, cfg: ConnectionPoolConfig) -> (n: usize)
    ensures
        n == leading_expired(old(available)@, now, cfg),
        n <= old(available)@.len(),
        final(available)@ == old(available)@.skip(n as int),
{
    let ghost s = available@;
    let total = available.len();
    let mut n: usize = 0;
    assert(s.skip(0) =~= s);
    while available.len() > 0
        invariant_except_break
            n <= s.len(),
            total == s.len(),
            available@ == s.skip(n as int),
            leading_expired(s, now, cfg) == n + leading_expired(s.skip(n as int), now, cfg),
        ensures
            n <= s.len(),
            available@ == s.skip(n as int),
            leading_expired(s, now, cfg) == n,
        decreases available.len(),
    {
        let c = &available[0];
        if !(crate::counter::elapsed(c.last_used, now) > cfg.idle_timeout || crate::counter::elapsed(c.created_at, now)
            > cfg.max_lifetime) {
            break;
        }
        assert(s.skip(n as int).drop_first() =~= s.skip(n + 1));
        available.remove(0);
        assert(available@ =~= s.skip(n + 1));
        n = n + 1;
    }
    n
}

} // verus!
