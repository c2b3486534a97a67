//! The request pool: admission control (a global limit on requests in
//! flight, a limit per client address, a bounded queue), a queue ordered by
//! priority, and the pool's statistics.
//!
//! The pool is a state machine; the component that runs workers takes
//! requests from it, processes them and reports back.
use vstd::prelude::*;

use crate::clock::cpu_count;
use crate::counter::{inc, wrap_inc};
use crate::table::{find_key, key_pos};
use crate::text::{append_chars, append_str, decimal, decimal_chars, str_is, string_from_chars};

verus! {

/// Configuration of the request pool. Durations are in milliseconds.
#[derive(Debug, Clone, Copy, PartialEq, Eq, Structural)]
pub struct AsyncPoolConfig {
    /// Maximum requests in flight, over all clients.
    pub max_concurrent_requests: usize,
    /// Maximum requests in flight per client address.
    pub max_requests_per_ip: usize,
    /// Number of worker tasks.
    pub worker_count: usize,
    /// How long a submitter waits for its response.
    pub request_timeout: u64,
    /// Maximum queued requests.
    pub max_queue_size: usize,
    /// Whether requests may be batched.
    pub enable_batching: bool,
    /// Batch size.
    pub batch_size: usize,
}

impl AsyncPoolConfig {
    /// The default configuration for a machine with `cpus` processors:
    /// four workers per processor.
    pub fn for_cpus(cpus: usize) -> (r: AsyncPoolConfig)
        ensures
            r.max_concurrent_requests == 10000,
            r.max_requests_per_ip == 100,
            r.worker_count == (if cpus * 4 <= usize::MAX { cpus * 4 } else { usize::MAX as int }),
            r.request_timeout == 30_000,
            r.max_queue_size == 50000,
            r.enable_batching,
            r.batch_size == 10,
    {
        let workers: usize = if cpus <= usize::MAX / 4 {
            cpus * 4
        } else {
            usize::MAX
        };
        AsyncPoolConfig {
            max_concurrent_requests: 10000,
            max_requests_per_ip: 100,
            worker_count: workers,
            request_timeout: 30_000,
            max_queue_size: 50000,
            enable_batching: true,
            batch_size: 10,
        }
    }
}

impl Default for AsyncPoolConfig {
    /// The default configuration for this machine.
    fn default() -> (r: AsyncPoolConfig)
        ensures
            r.max_concurrent_requests == 10000,
            r.max_requests_per_ip == 100,
            r.request_timeout == 30_000,
            r.max_queue_size == 50000,
            r.enable_batching,
            r.batch_size == 10,
            r.worker_count >= 4,
    {
        AsyncPoolConfig::for_cpus(cpu_count())
    }
}

/// Priority of a queued request; higher priorities are served first.
#[derive(Debug, Clone, Copy, PartialEq, Eq, PartialOrd, Ord, Hash, Structural)]
pub enum RequestPriority {
    Low,
    Normal,
    High,
    Critical,
}

impl RequestPriority {
    /// The priority's rank: 0 for `Low` up to 3 for `Critical`.
    pub open spec fn rank(self) -> nat {
        match self {
            RequestPriority::Low => 0,
            RequestPriority::Normal => 1,
            RequestPriority::High => 2,
            RequestPriority::Critical => 3,
        }
    }

    /// The priority's rank.
    pub fn level(self) -> (r: u8)
        ensures
            r == self.rank(),
    {
        match self {
            RequestPriority::Low => 0,
            RequestPriority::Normal => 1,
            RequestPriority::High => 2,
            RequestPriority::Critical => 3,
        }
    }
}

/// The response produced for a pooled request. `processing_time` is in
/// milliseconds.
#[derive(Debug, Clone)]
pub struct RequestResult {
    pub status: u16,
    pub headers: Vec<(String, String)>,
    pub body: Vec<u8>,
    pub processing_time: u64,
}

/// Why a request was not accepted or not answered.
#[derive(Debug, Clone, Copy, PartialEq, Eq, Structural)]
pub enum AsyncPoolError {
    GlobalRateLimitExceeded,
    IpRateLimitExceeded,
    QueueFull,
    Timeout,
    ProcessingFailed,
}

impl AsyncPoolError {
    /// The error's message.
    pub open spec fn message(self) -> Seq<char> {
        match self {
            AsyncPoolError::GlobalRateLimitExceeded => "Global rate limit exceeded"@,
            AsyncPoolError::IpRateLimitExceeded => "IP rate limit exceeded"@,
            AsyncPoolError::QueueFull => "Request queue is full"@,
            AsyncPoolError::Timeout => "Request timed out"@,
            AsyncPoolError::ProcessingFailed => "Request processing failed"@,
        }
    }

    /// The error's message, as its `Display` form writes it.
    pub fn to_string(&self) -> (r: String)
        ensures
            r@ == self.message(),
    {
        match self {
            AsyncPoolError::GlobalRateLimitExceeded => String::from_str("Global rate limit exceeded"),
            AsyncPoolError::IpRateLimitExceeded => String::from_str("IP rate limit exceeded"),
            AsyncPoolError::QueueFull => String::from_str("Request queue is full"),
            AsyncPoolError::Timeout => String::from_str("Request timed out"),
            AsyncPoolError::ProcessingFailed => String::from_str("Request processing failed"),
        }
    }
}

/// Statistics of the request pool. Averages are in nanoseconds.
#[derive(Debug, Clone, Copy, PartialEq, Eq, Structural)]
pub struct AsyncPoolStats {
    pub total_requests: u64,
    pub completed_requests: u64,
    pub failed_requests: u64,
    pub timeout_requests: u64,
    pub queue_full_rejections: u64,
    pub current_queue_size: usize,
    pub peak_queue_size: usize,
    pub average_processing_time: u64,
    pub average_queue_time: u64,
}

/// A request waiting in the pool's queue. `created_at` is the clock reading
/// at submission, in milliseconds.
#[derive(Debug, Clone)]
pub struct QueuedRequest {
    pub id: u64,
    pub client_ip: String,
    pub method: String,
    pub path: String,
    pub headers: Vec<(String, String)>,
    pub body: Vec<u8>,
    pub priority: RequestPriority,
    pub created_at: u64,
}

/// How a submitted request ended, as its submitter saw it.
#[derive(Debug, Clone, Copy, PartialEq, Eq, Structural)]
pub enum RequestOutcome {
    /// The response arrived.
    Completed,
    /// The worker dropped the request without answering.
    Failed,
    /// No response arrived within the timeout.
    TimedOut,
}

/// Requests are ordered by priority, highest first.
pub open spec fn priority_sorted(q: Seq<QueuedRequest>) -> bool {
    forall|i: int, j: int| 0 <= i < j < q.len() ==> #[trigger] q[i].priority.rank() >= #[trigger] q[j].priority.rank()
}

/// Where a request of priority `p` is inserted: before the first queued
/// request of lower priority, or at the end.
pub open spec fn insert_position(q: Seq<QueuedRequest>, p: RequestPriority) -> int
    decreases q.len(),
{
    if q.len() == 0 {
        0
    } else if q[0].priority.rank() < p.rank() {
        0
    } else {
        1 + insert_position(q.drop_first(), p)
    }
}

/// Inserts `req` before the first queued request of lower priority.
pub fn insert_by_priority(queue: &mut Vec<QueuedRequest>, req: QueuedRequest) -> (pos: usize)
    ensures
        pos <= old(queue)@.len(),
        forall|j: int| 0 <= j < pos ==> #[trigger] old(queue)@[j].priority.rank() >= req.priority.rank(),
        pos < old(queue)@.len() ==> old(queue)@[pos as int].priority.rank() < req.priority.rank(),
        pos as int == insert_position(old(queue)@, req.priority),
        final(queue)@ == old(queue)@.insert(pos as int, req),
{
    let p = req.priority.level();
    let mut i: usize = 0;
    while i < queue.len() && queue[i].priority.level() >= p
        invariant
            i <= queue@.len(),
            queue@ == old(queue)@,
            p == req.priority.rank(),
            forall|j: int| 0 <= j < i ==> #[trigger] queue@[j].priority.rank() >= req.priority.rank(),
        decreases queue.len() - i,
    {
        i = i + 1;
    }
    proof {
        lemma_insert_position_unique(old(queue)@, req.priority, i as int);
    }
    queue.insert(i, req);
    i
}

/// The priority ranks of a queue.
pub open spec fn ranks(q: Seq<QueuedRequest>) -> Seq<nat> {
    q.map_values(|r: QueuedRequest| r.priority.rank())
}

/// Inserting a rank at a position after all higher-or-equal ranks and
/// before all lower ones keeps a non-increasing sequence non-increasing.
proof fn lemma_insert_sorted(s: Seq<nat>, pos: int, x: nat)
    requires
        0 <= pos <= s.len(),
        forall|i: int, j: int| 0 <= i < j < s.len() ==> s[i] >= s[j],
        forall|j: int| 0 <= j < pos ==> s[j] >= x,
        pos < s.len() ==> s[pos] < x,
    ensures
        forall|i: int, j: int| 0 <= i < j < s.len() + 1 ==> s.insert(pos, x)[i] >= s.insert(pos, x)[j],
{
    let r = s.insert(pos, x);
    assert forall|i: int, j: int| 0 <= i < j < s.len() + 1 implies r[i] >= r[j] by {
        if j < pos {
        } else if j == pos {
        } else if i < pos {
            assert(r[j] == s[j - 1]);
            if pos < s.len() {
                assert(s[pos] >= s[j - 1] || pos == j - 1);
            }
        } else if i == pos {
            assert(r[j] == s[j - 1]);
            assert(s[pos] >= s[j - 1] || pos == j - 1);
        } else {
            assert(r[i] == s[i - 1] && r[j] == s[j - 1]);
        }
    }
}

/// Where `insert_position` lies: after every queued request of higher or
/// equal priority that precedes it, at a request of lower priority or at
/// the end.
pub proof fn lemma_insert_position(q: Seq<QueuedRequest>, p: RequestPriority)
    ensures
        0 <= insert_position(q, p) <= q.len(),
        forall|j: int| 0 <= j < insert_position(q, p) ==> #[trigger] q[j].priority.rank() >= p.rank(),
        insert_position(q, p) < q.len() ==> q[insert_position(q, p)].priority.rank() < p.rank(),
    decreases q.len(),
{
    if q.len() > 0 && q[0].priority.rank() >= p.rank() {
        let t = q.drop_first();
        lemma_insert_position(t, p);
        assert forall|j: int| 0 <= j < insert_position(q, p) implies #[trigger] q[j].priority.rank() >= p.rank() by {
            if j > 0 {
                assert(q[j] == t[j - 1]);
            }
        }
        if insert_position(q, p) < q.len() {
            assert(q[insert_position(q, p)] == t[insert_position(t, p)]);
        }
    }
}

/// The position of the first queued request of lower priority than `p` is
/// the insertion position.
proof fn lemma_insert_position_unique(q: Seq<QueuedRequest>, p: RequestPriority, i: int)
    requires
        0 <= i <= q.len(),
        forall|j: int| 0 <= j < i ==> #[trigger] q[j].priority.rank() >= p.rank(),
        i < q.len() ==> q[i].priority.rank() < p.rank(),
    ensures
        insert_position(q, p) == i,
    decreases q.len(),
{
    if q.len() > 0 && i > 0 {
        let t = q.drop_first();
        assert forall|j: int| 0 <= j < i - 1 implies #[trigger] t[j].priority.rank() >= p.rank() by {
            assert(t[j] == q[j + 1]);
        }
        if i - 1 < t.len() {
            assert(t[i - 1] == q[i]);
        }
        assert(q[0].priority.rank() >= p.rank());
        lemma_insert_position_unique(t, p, i - 1);
    }
}

/// Inserting by priority keeps a queue ordered by priority.
pub proof fn lemma_insert_keeps_order(q: Seq<QueuedRequest>, req: QueuedRequest)
    requires
        priority_sorted(q),
    ensures
        priority_sorted(q.insert(insert_position(q, req.priority), req)),
{
    let pos = insert_position(q, req.priority);
    let x = req.priority.rank();
    let s = ranks(q);
    lemma_insert_position(q, req.priority);
    assert forall|j: int| 0 <= j < pos implies s[j] >= x by {
        assert(q[j].priority.rank() >= x);
    }
    assert forall|i: int, j: int| 0 <= i < j < s.len() implies s[i] >= s[j] by {
        assert(q[i].priority.rank() >= q[j].priority.rank());
    }
    lemma_insert_sorted(s, pos, x);
    let r = q.insert(pos, req);
    assert(ranks(r) =~= s.insert(pos, x));
    assert forall|i: int, j: int| 0 <= i < j < r.len() implies #[trigger] r[i].priority.rank() >= #[trigger] r[j].priority.rank() by {
        assert(ranks(r)[i] == r[i].priority.rank());
        assert(ranks(r)[j] == r[j].priority.rank());
    }
}

/// First come, first served within a priority: a request inserted by
/// priority lands behind every queued request of its priority, which keep
/// their places, so it is taken only after them.
pub proof fn lemma_equal_priority_first_come(q: Seq<QueuedRequest>, req: QueuedRequest)
    requires
        priority_sorted(q),
    ensures
        forall|j: int|
            0 <= j < q.len() && #[trigger] q[j].priority.rank() == req.priority.rank() ==> j < insert_position(
                q,
                req.priority,
            ) && q.insert(insert_position(q, req.priority), req)[j] == q[j],
{
    let pos = insert_position(q, req.priority);
    lemma_insert_position(q, req.priority);
    assert forall|j: int|
        0 <= j < q.len() && #[trigger] q[j].priority.rank() == req.priority.rank() implies j < pos && q.insert(
            pos,
            req,
        )[j] == q[j] by {
        if j >= pos {
            assert(pos < q.len());
            if j > pos {
                assert(q[pos].priority.rank() >= q[j].priority.rank());
            }
        }
    }
}

/// The pool's state: its queue, the requests in flight and its counters.
pub struct AsyncRequestPool {
    pub config: AsyncPoolConfig,
    /// Queued requests, highest priority first, first come first within a
    /// priority.
    pub queue: Vec<QueuedRequest>,
    /// Requests admitted and not yet released, over all clients.
    pub in_flight: usize,
    /// Requests admitted and not yet released, per client address.
    pub in_flight_per_ip: Vec<(String, usize)>,
    pub total_requests: u64,
    pub completed_requests: u64,
    pub failed_requests: u64,
    pub timeout_requests: u64,
    pub queue_full_rejections: u64,
    pub peak_queue_size: usize,
    pub average_processing_time: u64,
    pub average_queue_time: u64,
}

impl AsyncRequestPool {
    /// The pool's invariant: the queue is ordered by priority and each
    /// client address is counted once.
    pub open spec fn wf(&self) -> bool {
        &&& priority_sorted(self.queue@)
        &&& crate::table::keys_distinct(self.in_flight_per_ip@)
    }

    /// Requests in flight from the client address `ip`.
    pub open spec fn ip_in_flight(&self, ip: Seq<char>) -> usize {
        match key_pos(self.in_flight_per_ip@, ip) {
            Some(i) => self.in_flight_per_ip@[i].1,
            None => 0,
        }
    }

    /// Whether a request from `ip` is admitted: the global limit, the
    /// client's limit and the queue's size are not reached.
    pub open spec fn admits(&self, ip: Seq<char>) -> bool {
        &&& self.in_flight < self.config.max_concurrent_requests
        &&& self.ip_in_flight(ip) < self.config.max_requests_per_ip
        &&& self.queue@.len() < self.config.max_queue_size
    }

    /// An empty pool.
    pub fn new(config: AsyncPoolConfig) -> (r: AsyncRequestPool)
        ensures
            r.wf(),
            r.config == config,
            r.queue@.len() == 0,
            r.in_flight == 0,
            r.in_flight_per_ip@.len() == 0,
            r.total_requests == 0,
            r.completed_requests == 0,
            r.failed_requests == 0,
            r.timeout_requests == 0,
            r.queue_full_rejections == 0,
            r.peak_queue_size == 0,
            r.average_processing_time == 0,
            r.average_queue_time == 0,
    {
        AsyncRequestPool {
            config,
            queue: Vec::new(),
            in_flight: 0,
            in_flight_per_ip: Vec::new(),
            total_requests: 0,
            completed_requests: 0,
            failed_requests: 0,
            timeout_requests: 0,
            queue_full_rejections: 0,
            peak_queue_size: 0,
            average_processing_time: 0,
            average_queue_time: 0,
        }
    }

    /// Admits a request and queues it by priority: refused when the global
    /// limit on requests in flight is reached, then when the client's limit
    /// is reached, then when the queue is full. An admitted request is in
    /// flight until `release`; its id is the number of requests admitted
    /// before it.
    pub fn submit(
        &mut self,
        client_ip: String,
        method: String,
        path: String,
        headers: Vec<(String, String)>,
        body: Vec<u8>,
        priority: RequestPriority,
        now: u64,
    ) -> (r: Result<u64, AsyncPoolError>)
        requires
            old(self).wf(),
        ensures
            final(self).wf(),
            final(self).config == old(self).config,
            old(self).in_flight >= old(self).config.max_concurrent_requests ==> r == Err::<
                u64,
                AsyncPoolError,
            >(AsyncPoolError::GlobalRateLimitExceeded) && *final(self) == *old(self),
            r == Err::<u64, AsyncPoolError>(AsyncPoolError::GlobalRateLimitExceeded) <==> old(self).in_flight
                >= old(self).config.max_concurrent_requests,
            old(self).in_flight < old(self).config.max_concurrent_requests ==> (r == Err::<
                u64,
                AsyncPoolError,
            >(AsyncPoolError::IpRateLimitExceeded) <==> old(self).ip_in_flight(client_ip@)
                >= old(self).config.max_requests_per_ip),
            r is Ok <==> old(self).admits(client_ip@),
            old(self).in_flight < old(self).config.max_concurrent_requests ==> key_pos(
                final(self).in_flight_per_ip@,
                client_ip@,
            ) is Some,
            r == Err::<u64, AsyncPoolError>(AsyncPoolError::IpRateLimitExceeded) ==> (
            final(self).queue@ == old(self).queue@ && final(self).in_flight == old(self).in_flight
                && final(self).total_requests == old(self).total_requests),
            r == Err::<u64, AsyncPoolError>(AsyncPoolError::QueueFull) ==> (old(self).queue@.len()
                >= old(self).config.max_queue_size && final(self).queue@ == old(self).queue@
                && final(self).queue_full_rejections == wrap_inc(old(self).queue_full_rejections)
                && final(self).in_flight == old(self).in_flight),
            r matches Ok(id) ==> {
                &&& id == old(self).total_requests
                &&& final(self).total_requests == wrap_inc(old(self).total_requests)
                &&& final(self).in_flight == old(self).in_flight + 1
                &&& old(self).in_flight < old(self).config.max_concurrent_requests
                &&& old(self).queue@.len() < old(self).config.max_queue_size
                &&& final(self).queue@.len() == old(self).queue@.len() + 1
                &&& final(self).queue@ == old(self).queue@.insert(
                    insert_position(old(self).queue@, priority),
                    final(self).queue@[insert_position(old(self).queue@, priority)],
                )
                &&& final(self).queue@[insert_position(old(self).queue@, priority)].id == id
                &&& final(self).queue@[insert_position(old(self).queue@, priority)].priority
                    == priority
                &&& final(self).queue@[insert_position(old(self).queue@, priority)].created_at
                    == now
                &&& final(self).peak_queue_size == (if final(self).queue@.len()
                    > old(self).peak_queue_size {
                    final(self).queue@.len() as usize
                } else {
                    old(self).peak_queue_size
                })
            },
            r is Err ==> r != Err::<u64, AsyncPoolError>(AsyncPoolError::Timeout) && r != Err::<
                u64,
                AsyncPoolError,
            >(AsyncPoolError::ProcessingFailed),
    {
        if self.in_flight >= self.config.max_concurrent_requests {
            return Err(AsyncPoolError::GlobalRateLimitExceeded);
        }
        let idx = match find_key(&self.in_flight_per_ip, client_ip.as_str()) {
            Some(i) => i,
            None => {
                let ghost t = self.in_flight_per_ip@;
                proof {
                    assert forall|j: int| 0 <= j < t.len() implies #[trigger] t[j].0@ != client_ip@ by {
                        if t[j].0@ == client_ip@ {
                            assert(exists|i: int| 0 <= i < t.len() && #[trigger] t[i].0@ == client_ip@);
                        }
                    }
                }
                self.in_flight_per_ip.push((client_ip.clone(), 0));
                proof {
                    let t2 = self.in_flight_per_ip@;
                    assert forall|i: int, j: int| 0 <= i < j < t2.len() implies #[trigger] t2[i].0@ != #[trigger] t2[j].0@ by {
                        if j == t2.len() - 1 {
                            assert(t2[i] == t[i]);
                        } else {
                            assert(t2[i] == t[i] && t2[j] == t[j]);
                        }
                    }
                }
                self.in_flight_per_ip.len() - 1
            },
        };
        assert(self.in_flight_per_ip@[idx as int].0@ == client_ip@);
        let ip_count = self.in_flight_per_ip[idx].1;
        if ip_count >= self.config.max_requests_per_ip {
            return Err(AsyncPoolError::IpRateLimitExceeded);
        }
        if self.queue.len() >= self.config.max_queue_size {
            self.queue_full_rejections = inc(self.queue_full_rejections);
            return Err(AsyncPoolError::QueueFull);
        }
        let id = self.total_requests;
        self.total_requests = inc(self.total_requests);
        let ghost t = self.in_flight_per_ip@;
        let key = self.in_flight_per_ip[idx].0.clone();
        self.in_flight_per_ip.set(idx, (key, ip_count + 1));
        proof {
            let t2 = self.in_flight_per_ip@;
            assert forall|i: int, j: int| 0 <= i < j < t2.len() implies #[trigger] t2[i].0@ != #[trigger] t2[j].0@ by {
                assert(t2[i].0@ == t[i].0@);
                assert(t2[j].0@ == t[j].0@);
            }
            assert(t2[idx as int].0@ == client_ip@);
        }
        self.in_flight = self.in_flight + 1;
        let req = QueuedRequest { id, client_ip, method, path, headers, body, priority, created_at: now };
        let ghost q0 = self.queue@;
        proof {
            lemma_insert_keeps_order(q0, req);
        }
        let pos = insert_by_priority(&mut self.queue, req);
        if self.queue.len() > self.peak_queue_size {
            self.peak_queue_size = self.queue.len();
        }
        Ok(id)
    }

    /// Takes the first queued request: the oldest among those of the highest
    /// queued priority.
    pub fn take_next(&mut self) -> (r: Option<QueuedRequest>)
        requires
            old(self).wf(),
        ensures
            final(self).wf(),
            old(self).queue@.len() == 0 ==> r is None && *final(self) == *old(self),
            old(self).queue@.len() > 0 ==> r == Some(old(self).queue@[0]) && final(self).queue@
                == old(self).queue@.drop_first(),
            forall|j: int| 0 <= j < final(self).queue@.len() ==> (r matches Some(x) ==> x.priority.rank()
                >= #[trigger] final(self).queue@[j].priority.rank()),
            final(self).config == old(self).config,
            final(self).in_flight == old(self).in_flight,
            final(self).total_requests == old(self).total_requests,
    {
        if self.queue.len() == 0 {
            return None;
        }
        let ghost q = self.queue@;
        let r = self.queue.remove(0);
        assert(self.queue@ =~= q.drop_first());
        proof {
            assert forall|i: int, j: int| 0 <= i < j < self.queue@.len() implies #[trigger] self.queue@[i].priority.rank() >= #[trigger] self.queue@[j].priority.rank() by {
                assert(self.queue@[i] == q[i + 1] && self.queue@[j] == q[j + 1]);
            }
            assert forall|j: int| 0 <= j < self.queue@.len() implies r.priority.rank() >= #[trigger] self.queue@[j].priority.rank() by {
                assert(self.queue@[j] == q[j + 1]);
                assert(q[0].priority.rank() >= q[j + 1].priority.rank());
            }
        }
        Some(r)
    }

    /// Records the times measured for a processed request: each average
    /// becomes the mean of its old value and the new measurement.
    pub fn record_processed(&mut self, processing_ns: u64, queue_ns: u64)
        ensures
            final(self).average_processing_time == (old(self).average_processing_time as int
                + processing_ns as int) / 2,
            final(self).average_queue_time == (old(self).average_queue_time as int + queue_ns as int)
                / 2,
            final(self).queue == old(self).queue,
            final(self).in_flight == old(self).in_flight,
            final(self).in_flight_per_ip == old(self).in_flight_per_ip,
            final(self).config == old(self).config,
    {
        self.average_processing_time = ((self.average_processing_time as u128
            + processing_ns as u128) / 2) as u64;
        self.average_queue_time = ((self.average_queue_time as u128 + queue_ns as u128) / 2) as u64;
    }

    /// Releases an admitted request of `client_ip` and counts how it ended.
    pub fn release(&mut self, client_ip: &str, outcome: RequestOutcome)
        requires
            old(self).wf(),
        ensures
            final(self).wf(),
            final(self).queue == old(self).queue,
            final(self).config == old(self).config,
            final(self).in_flight == (if old(self).in_flight > 0 {
                old(self).in_flight - 1
            } else {
                0
            }),
            final(self).completed_requests == (if outcome == RequestOutcome::Completed {
                wrap_inc(old(self).completed_requests)
            } else {
                old(self).completed_requests
            }),
            final(self).failed_requests == (if outcome == RequestOutcome::Failed {
                wrap_inc(old(self).failed_requests)
            } else {
                old(self).failed_requests
            }),
            final(self).timeout_requests == (if outcome == RequestOutcome::TimedOut {
                wrap_inc(old(self).timeout_requests)
            } else {
                old(self).timeout_requests
            }),
            final(self).in_flight_per_ip@.len() == old(self).in_flight_per_ip@.len(),
            forall|i: int|
                #![trigger final(self).in_flight_per_ip@[i]]
                0 <= i < final(self).in_flight_per_ip@.len() ==> {
                    let o = old(self).in_flight_per_ip@[i];
                    let n = final(self).in_flight_per_ip@[i];
                    &&& n.0 == o.0
                    &&& n.1 == (if o.0@ == client_ip@ && o.1 > 0 {
                        (o.1 - 1) as usize
                    } else {
                        o.1
                    })
                },
    {
        if self.in_flight > 0 {
            self.in_flight = self.in_flight - 1;
        }
        match outcome {
            RequestOutcome::Completed => {
                self.completed_requests = inc(self.completed_requests);
            },
            RequestOutcome::Failed => {
                self.failed_requests = inc(self.failed_requests);
            },
            RequestOutcome::TimedOut => {
                self.timeout_requests = inc(self.timeout_requests);
            },
        }
        let ghost t = self.in_flight_per_ip@;
        match find_key(&self.in_flight_per_ip, client_ip) {
            Some(i) => {
                let c = self.in_flight_per_ip[i].1;
                if c > 0 {
                    let key = self.in_flight_per_ip[i].0.clone();
                    self.in_flight_per_ip.set(i, (key, c - 1));
                }
                proof {
                    let t2 = self.in_flight_per_ip@;
                    assert forall|a: int, b: int| 0 <= a < b < t2.len() implies #[trigger] t2[a].0@ != #[trigger] t2[b].0@ by {
                        assert(t2[a].0@ == t[a].0@);
                        assert(t2[b].0@ == t[b].0@);
                    }
                    assert forall|j: int| 0 <= j < t2.len() && j != i implies t[j].0@ != client_ip@ by {
                        assert(t[j].0@ != t[i as int].0@);
                    }
                }
            },
            None => {
                proof {
                    assert forall|j: int| 0 <= j < t.len() implies t[j].0@ != client_ip@ by {
                        if t[j].0@ == client_ip@ {
                            assert(exists|i: int| 0 <= i < t.len() && #[trigger] t[i].0@ == client_ip@);
                        }
                    }
                }
            },
        }
    }

    /// The pool's statistics.
    pub fn get_stats(&self) -> (r: AsyncPoolStats)
        ensures
            r == (AsyncPoolStats {
                total_requests: self.total_requests,
                completed_requests: self.completed_requests,
                failed_requests: self.failed_requests,
                timeout_requests: self.timeout_requests,
                queue_full_rejections: self.queue_full_rejections,
                current_queue_size: self.queue@.len() as usize,
                peak_queue_size: self.peak_queue_size,
                average_processing_time: self.average_processing_time,
                average_queue_time: self.average_queue_time,
            }),
    {
        AsyncPoolStats {
            total_requests: self.total_requests,
            completed_requests: self.completed_requests,
            failed_requests: self.failed_requests,
            timeout_requests: self.timeout_requests,
            queue_full_rejections: self.queue_full_rejections,
            current_queue_size: self.queue.len(),
            peak_queue_size: self.peak_queue_size,
            average_processing_time: self.average_processing_time,
            average_queue_time: self.average_queue_time,
        }
    }
}

/// The simulated processing time of a method, in milliseconds.
pub open spec fn spec_processing_time(method: Seq<char>) -> u64 {
    if method == "GET"@ {
        10
    } else if method == "PROPFIND"@ {
        50
    } else if method == "PUT"@ {
        100
    } else if method == "DELETE"@ {
        30
    } else if method == "MKCOL"@ {
        40
    } else if method == "COPY"@ || method == "MOVE"@ {
        80
    } else {
        20
    }
}

/// The simulated processing time of a method, in milliseconds.
pub fn processing_time(method: &str) -> (r: u64)
    ensures
        r == spec_processing_time(method@),
{
    if str_is(method, "GET") {
        10
    } else if str_is(method, "PROPFIND") {
        50
    } else if str_is(method, "PUT") {
        100
    } else if str_is(method, "DELETE") {
        30
    } else if str_is(method, "MKCOL") {
        40
    } else if str_is(method, "COPY") || str_is(method, "MOVE") {
        80
    } else {
        20
    }
}

/// The body a worker answers a request with.
pub open spec fn response_text(method: Seq<char>, path: Seq<char>, id: u64) -> Seq<char> {
    "Processed "@ + method + " "@ + path + " (ID: "@ + decimal(id as nat) + ")"@
}

/// The bytes of a text made of ASCII characters.
pub open spec fn ascii_bytes(s: Seq<char>) -> Seq<u8> {
    s.map_values(|c: char| c as u8)
}

/// Trusted: calls `String::into_bytes`; claims the bytes are the UTF-8
/// encoding of the string.
#[verifier::external_body]
pub(crate) fn string_bytes(s: String) -> (b: Vec<u8>)
    ensures
        b@ == vstd::utf8::encode_utf8(s@),
{
    s.into_bytes()
}

/// The response a worker produces for a request: status 200, a plain-text
/// body naming the method, path and id, and the method's processing time.
pub fn process_request(request: &QueuedRequest) -> (r: RequestResult)
    ensures
        r.status == 200,
        r.processing_time == spec_processing_time(request.method@),
        r.body@ == vstd::utf8::encode_utf8(
            response_text(request.method@, request.path@, request.id),
        ),
        r.headers@.len() == 2,
        r.headers@[0].0@ == "Content-Type"@,
        r.headers@[0].1@ == "text/plain"@,
        r.headers@[1].0@ == "Content-Length"@,
        r.headers@[1].1@ == decimal(r.body@.len()),
{
    let t = processing_time(request.method.as_str());
    let mut text: Vec<char> = Vec::new();
    append_str(&mut text, "Processed ");
    append_str(&mut text, request.method.as_str());
    append_str(&mut text, " ");
    append_str(&mut text, request.path.as_str());
    append_str(&mut text, " (ID: ");
    let idc = decimal_chars(request.id);
    append_chars(&mut text, idc.as_slice());
    append_str(&mut text, ")");
    assert(text@ =~= response_text(request.method@, request.path@, request.id));
    let body = string_bytes(string_from_chars(text.as_slice()));
    let len_chars = decimal_chars(body.len() as u64);
    let headers = vec![
        (String::from_str("Content-Type"), String::from_str("text/plain")),
        (String::from_str("Content-Length"), string_from_chars(len_chars.as_slice())),
    ];
    RequestResult { status: 200, headers, body, processing_time: t }
}

} // verus!
