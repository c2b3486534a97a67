//! The server: its components built from one configuration, its connection
//! counters, the handling of one routed request and the decisions of a
//! graceful shutdown. Listening, accepting and the signal handling run
//! outside the library and report to these functions.
use vstd::prelude::*;

use crate::async_pool::AsyncRequestPool;
use crate::cache::DavCache;
use crate::clock::Clock;
use crate::config::DavServerConfig;
use crate::counter::{elapsed, sat_add, spec_elapsed, spec_sat_add};
use crate::data_access::DataAccessLayer;
use crate::method::DavMethod;
use crate::monitoring::DavMetrics;
use crate::performance::DavPerformance;
use crate::router::DavRouter;
use crate::security::{DavSecurity, IpAddress};
use crate::text::{append_chars, append_str, decimal, decimal_chars, string_from_chars};

verus! {

/// Counters of a server. Times are milliseconds of the server's clock.
#[derive(Debug, Clone, Copy, PartialEq, Eq)]
pub struct ServerStats {
    pub started_at: Option<u64>,
    pub total_requests: u64,
    pub active_connections: u64,
    pub peak_connections: u64,
    pub total_bytes_sent: u64,
    pub total_bytes_received: u64,
    pub uptime: u64,
}

/// The counters of a server that has not started.
pub open spec fn fresh_stats() -> ServerStats {
    ServerStats {
        started_at: None,
        total_requests: 0,
        active_connections: 0,
        peak_connections: 0,
        total_bytes_sent: 0,
        total_bytes_received: 0,
        uptime: 0,
    }
}

impl Default for ServerStats {
    fn default() -> (r: ServerStats)
        ensures
            r == fresh_stats(),
    {
        ServerStats {
            started_at: None,
            total_requests: 0,
            active_connections: 0,
            peak_connections: 0,
            total_bytes_sent: 0,
            total_bytes_received: 0,
            uptime: 0,
        }
    }
}

/// Errors of the server.
#[derive(Debug, Clone, PartialEq, Eq)]
pub enum ServerError {
    /// The listening address, and why it is not one.
    InvalidAddress(String, String),
    /// The address that could not be bound, and why.
    BindError(String, String),
    RoutingError(String),
    PreprocessingError(String),
    ProcessingError(String),
    ShutdownError(String),
}

impl ServerError {
    /// The error's message.
    pub open spec fn message(&self) -> Seq<char> {
        match self {
            ServerError::InvalidAddress(a, e) => "Invalid address "@ + a@ + ": "@ + e@,
            ServerError::BindError(a, e) => "Failed to bind to "@ + a@ + ": "@ + e@,
            ServerError::RoutingError(e) => "Routing error: "@ + e@,
            ServerError::PreprocessingError(e) => "Preprocessing error: "@ + e@,
            ServerError::ProcessingError(e) => "Processing error: "@ + e@,
            ServerError::ShutdownError(e) => "Shutdown error: "@ + e@,
        }
    }

    /// The error's message.
    pub fn to_string(&self) -> (r: String)
        ensures
            r@ == self.message(),
    {
        let mut t: Vec<char> = Vec::new();
        match self {
            ServerError::InvalidAddress(a, e) => {
                append_str(&mut t, "Invalid address ");
                append_str(&mut t, a.as_str());
                append_str(&mut t, ": ");
                append_str(&mut t, e.as_str());
            },
            ServerError::BindError(a, e) => {
                append_str(&mut t, "Failed to bind to ");
                append_str(&mut t, a.as_str());
                append_str(&mut t, ": ");
                append_str(&mut t, e.as_str());
            },
            ServerError::RoutingError(e) => {
                append_str(&mut t, "Routing error: ");
                append_str(&mut t, e.as_str());
            },
            ServerError::PreprocessingError(e) => {
                append_str(&mut t, "Preprocessing error: ");
                append_str(&mut t, e.as_str());
            },
            ServerError::ProcessingError(e) => {
                append_str(&mut t, "Processing error: ");
                append_str(&mut t, e.as_str());
            },
            ServerError::ShutdownError(e) => {
                append_str(&mut t, "Shutdown error: ");
                append_str(&mut t, e.as_str());
            },
        }
        string_from_chars(t.as_slice())
    }
}

/// A server. The router holds the request pool, the security manager, the
/// performance optimizer and the metrics, which the server shares with it.
pub struct DavServer {
    pub config: DavServerConfig,
    pub router: DavRouter,
    pub data_access: DataAccessLayer,
    pub cache: DavCache,
    pub server_stats: ServerStats,
    /// Set once a shutdown has been asked for.
    pub shutdown_signal: bool,
    pub clock: Clock,
}

impl DavServer {
    /// The server's invariant: its components are well formed, and the peak
    /// of active connections is at least their current number.
    pub open spec fn wf(&self) -> bool {
        &&& self.router.wf()
        &&& self.data_access.wf()
        &&& self.cache.wf()
        &&& self.server_stats.active_connections <= self.server_stats.peak_connections
    }

    /// A server whose components are built from the sections of `config`,
    /// with fresh counters and no shutdown asked for. It cannot fail.
    pub fn new(config: DavServerConfig) -> (r: Result<DavServer, ServerError>)
        ensures
            r matches Ok(s) && {
                &&& s.wf()
                &&& s.config == config
                &&& s.router.config == config.router
                &&& s.router.request_pool.config == config.async_pool
                &&& s.router.request_pool.queue@.len() == 0
                &&& s.router.performance.config == config.performance
                &&& s.router.security.config.rate_limit_per_minute == config.security.rate_limit_per_minute
                &&& s.router.security.config.max_auth_failures == config.security.max_auth_failures
                &&& s.router.security.config.block_duration == config.security.block_duration
                &&& s.router.security.config.max_body_size == config.security.max_body_size
                &&& s.router.security.config.max_path_depth == config.security.max_path_depth
                &&& s.router.security.config.allowed_extensions@ == config.security.allowed_extensions@
                &&& s.router.security.config.enable_security_headers
                    == config.security.enable_security_headers
                &&& s.data_access.config == config.data_access
                &&& s.cache.config == config.cache
                &&& s.server_stats == fresh_stats()
                &&& !s.shutdown_signal
            },
    {
        let request_pool = AsyncRequestPool::new(config.async_pool);
        let security = DavSecurity::new(config.security.duplicate());
        let performance = DavPerformance::new(config.performance);
        let metrics = DavMetrics::new();
        let cache = DavCache::new(config.cache);
        let data_access = DataAccessLayer::new(config.data_access);
        let router = DavRouter::new(request_pool, security, performance, metrics, config.router);
        Ok(
            DavServer {
                config,
                router,
                data_access,
                cache,
                server_stats: ServerStats::default(),
                shutdown_signal: false,
                clock: Clock::start(),
            },
        )
    }

    /// The address to listen on: the configured address, a colon and the
    /// port.
    pub fn bind_address(&self) -> (r: String)
        ensures
            r@ == self.config.server.bind_address@ + ":"@ + decimal(self.config.server.port as nat),
    {
        let mut t: Vec<char> = Vec::new();
        append_str(&mut t, self.config.server.bind_address.as_str());
        append_str(&mut t, ":");
        let digits = decimal_chars(self.config.server.port as u64);
        append_chars(&mut t, digits.as_slice());
        string_from_chars(t.as_slice())
    }

    /// Records that the server started listening at `now`.
    pub fn mark_started(&mut self, now: u64)
        ensures
            *final(self) == (DavServer {
                server_stats: ServerStats { started_at: Some(now), ..old(self).server_stats },
                ..*old(self)
            }),
    {
        self.server_stats.started_at = Some(now);
    }

    /// Records an accepted connection: one more is active, and the peak
    /// follows the active count.
    pub fn connection_accepted(&mut self)
        requires
            old(self).wf(),
        ensures
            final(self).wf(),
            ({
                let active = spec_sat_add(old(self).server_stats.active_connections, 1);
                *final(self) == (DavServer {
                    server_stats: ServerStats {
                        active_connections: active,
                        peak_connections: if active > old(self).server_stats.peak_connections {
                            active
                        } else {
                            old(self).server_stats.peak_connections
                        },
                        ..old(self).server_stats
                    },
                    ..*old(self)
                })
            }),
    {
        let active = sat_add(self.server_stats.active_connections, 1);
        self.server_stats.active_connections = active;
        if active > self.server_stats.peak_connections {
            self.server_stats.peak_connections = active;
        }
    }

    /// Handles a request on an accepted connection now.
    pub fn handle_request(
        &mut self,
        peer: Option<IpAddress>,
        peer_text: &str,
        method: DavMethod,
        path: &str,
        headers: Vec<(String, String)>,
        body: Vec<u8>,
    ) -> (r: Result<u64, ServerError>)
        requires
            old(self).wf(),
            old(self).server_stats.active_connections > 0,
        ensures
            final(self).wf(),
            exists|now: u64| #[trigger] old(self).handled(*final(self), peer, peer_text, path, body, now, r),
    {
        let now = self.clock.now_ms();
        let ghost b = body;
        let r = self.handle_request_at(peer, peer_text, method, path, headers, body, now);
        assert(old(self).handled(*self, peer, peer_text, path, b, now, r));
        r
    }

    /// What handling a request on an accepted connection at `now` does, from this state to `after`, returning `r`: the router refuses it (a routing error) unless it admits it, the pool refuses it (a processing error) unless it admits it, and a queued request is counted, its connection is no longer active and its id is returned; a refused request leaves the counters as they are.
    pub open spec fn handled(self, after: Self, peer: Option<IpAddress>, peer_text: &str, path: &str, body: Vec<u8>, now: u64, r: Result<u64, ServerError>) -> bool {
        &&& (after.config == self.config)
        &&& (after.shutdown_signal == self.shutdown_signal)
        &&& (after.router.config == self.router.config)
        &&& (after.router.request_pool.config == self.router.request_pool.config)
        &&& ((r matches Err(ServerError::RoutingError(_))) <==> !self.router.admits(
            peer,
            path@,
            body@.len(),
            now,
        ))
        &&& (r is Err ==> (r matches Err(ServerError::RoutingError(_))) || (r matches Err(
            ServerError::ProcessingError(_),
        )))
        &&& (r is Err ==> after.server_stats == self.server_stats)
        &&& (r matches Ok(id) ==> {
            &&& id == self.router.request_pool.total_requests
            &&& after.router.request_pool.queue@.len() == self.router.request_pool.queue@.len() + 1
            &&& after.server_stats == (ServerStats {
                total_requests: spec_sat_add(self.server_stats.total_requests, 1),
                active_connections: (self.server_stats.active_connections - 1) as u64,
                ..self.server_stats
            })
        })
        &&& (r is Ok <==> self.router.admits(peer, path@, body@.len(), now)
            && self.router.request_pool.admits(peer_text@))
    }

    /// Handles a request from `peer` (its address as text in `peer_text`) on
    /// an accepted connection at `now`: the router routes it, refusing it as
    /// a routing error, and preprocesses it; the request pool then queues it
    /// under the routed priority, refusing it as a processing error. A queued
    /// request is counted and its connection is no longer active; its id is
    /// returned. A refused request leaves the server's counters as they are.
    pub fn handle_request_at(
        &mut self,
        peer: Option<IpAddress>,
        peer_text: &str,
        method: DavMethod,
        path: &str,
        headers: Vec<(String, String)>,
        body: Vec<u8>,
        now: u64,
    ) -> (r: Result<u64, ServerError>)
        requires
            old(self).wf(),
            old(self).server_stats.active_connections > 0,
        ensures
            final(self).wf(),
            old(self).handled(*final(self), peer, peer_text, path, body, now, r),
    {
        let info = match self.router.route_request_at(path, method, &headers, body.as_slice(), peer, now) {
            Ok(info) => info,
            Err(e) => {
                return Err(ServerError::RoutingError(e.to_string()));
            },
        };
        let priority = info.priority;
        let routed_path = String::from_str(info.path.as_str());
        match self.router.preprocess_request(&info, &headers, body.as_slice()) {
            Ok(_) => {},
            Err(e) => {
                return Err(ServerError::PreprocessingError(e.to_string()));
            },
        }
        let submitted = self.router.request_pool.submit(
            String::from_str(peer_text),
            method.to_string(),
            routed_path,
            headers,
            body,
            priority,
            now,
        );
        match submitted {
            Ok(id) => {
                self.server_stats.total_requests = sat_add(self.server_stats.total_requests, 1);
                self.server_stats.active_connections = self.server_stats.active_connections - 1;
                Ok(id)
            },
            Err(e) => Err(ServerError::ProcessingError(e.to_string())),
        }
    }

    /// The server's counters now.
    pub fn get_server_stats(&self) -> (r: ServerStats)
        ensures
            exists|now: u64| r == #[trigger] self.stats_at(now),
    {
        let now = self.clock.now_ms();
        self.get_server_stats_at(now)
    }

    /// The server's counters at `now`: the uptime is the time since the
    /// start, when the server has started.
    pub open spec fn stats_at(&self, now: u64) -> ServerStats {
        ServerStats {
            uptime: match self.server_stats.started_at {
                Some(s) => spec_elapsed(s, now),
                None => self.server_stats.uptime,
            },
            ..self.server_stats
        }
    }

    /// The server's counters at `now`: the uptime is the time since the
    /// start, when the server has started.
    pub fn get_server_stats_at(&self, now: u64) -> (r: ServerStats)
        ensures
            r == self.stats_at(now),
    {
        let mut stats = self.server_stats;
        match stats.started_at {
            Some(s) => {
                stats.uptime = elapsed(s, now);
            },
            None => {},
        }
        stats
    }

    /// Asks for a graceful shutdown.
    pub fn trigger_shutdown(&mut self)
        ensures
            *final(self) == (DavServer { shutdown_signal: true, ..*old(self) }),
    {
        self.shutdown_signal = true;
    }

    /// Whether a shutdown has been asked for.
    pub fn is_shutdown_triggered(&self) -> (r: bool)
        ensures
            r == self.shutdown_signal,
    {
        self.shutdown_signal
    }

    /// One step of a graceful shutdown begun at `started`, at `now`: the
    /// shutdown is marked as asked for, and it is over when no connection
    /// is active or the configured timeout has passed; otherwise the caller
    /// waits and asks again.
    pub fn shutdown_step(&mut self, started: u64, now: u64) -> (done: bool)
        ensures
            *final(self) == (DavServer { shutdown_signal: true, ..*old(self) }),
            done == (spec_elapsed(started, now) >= old(self).config.server.graceful_shutdown_timeout
                || old(self).server_stats.active_connections == 0),
    {
        self.shutdown_signal = true;
        elapsed(started, now) >= self.config.server.graceful_shutdown_timeout
            || self.server_stats.active_connections == 0
    }
}

} // verus!
