//! The concurrent request processor: one work queue per kind of request,
//! ordered by priority, admission limits, and the bookkeeping of workers
//! taking and finishing requests.
//!
//! Durations are in milliseconds, measured times in nanoseconds.
use vstd::prelude::*;

use crate::clock::{cpu_count, Clock};
use crate::counter::{sat_add, spec_sat_add};
use crate::lru::LruCache;
use crate::text::{append_str, string_from_chars};

verus! {

/// Configuration of the concurrent processor.
#[derive(Debug, Clone, Copy, PartialEq, Eq, Structural)]
pub struct ConcurrencyConfig {
    pub max_concurrent_requests: usize,
    pub max_requests_per_ip: usize,
    pub worker_threads: usize,
    pub enable_work_stealing: bool,
    pub enable_adaptive_balancing: bool,
    pub request_timeout: u64,
    /// Most requests waiting in one work queue.
    pub queue_size_per_worker: usize,
    pub enable_cpu_affinity: bool,
}

impl ConcurrencyConfig {
    /// The default configuration for a machine with `cpus` processors: two
    /// workers per processor (held at `usize::MAX`).
    pub fn for_cpus(cpus: usize) -> (r: ConcurrencyConfig)
        ensures
            r == (ConcurrencyConfig {
                max_concurrent_requests: 10000,
                max_requests_per_ip: 100,
                worker_threads: if cpus * 2 <= usize::MAX {
                    (cpus * 2) as usize
                } else {
                    usize::MAX
                },
                enable_work_stealing: true,
                enable_adaptive_balancing: true,
                request_timeout: 30_000,
                queue_size_per_worker: 1000,
                enable_cpu_affinity: false,
            }),
    {
        let workers = if cpus <= usize::MAX / 2 {
            cpus * 2
        } else {
            usize::MAX
        };
        ConcurrencyConfig {
            max_concurrent_requests: 10000,
            max_requests_per_ip: 100,
            worker_threads: workers,
            enable_work_stealing: true,
            enable_adaptive_balancing: true,
            request_timeout: 30_000,
            queue_size_per_worker: 1000,
            enable_cpu_affinity: false,
        }
    }
}

impl Default for ConcurrencyConfig {
    /// The default configuration for this machine.
    fn default() -> (r: ConcurrencyConfig)
        ensures
            r.max_concurrent_requests == 10000,
            r.max_requests_per_ip == 100,
            r.request_timeout == 30_000,
            r.queue_size_per_worker == 1000,
    {
        ConcurrencyConfig::for_cpus(cpu_count())
    }
}

/// The kind of a request, which selects its work queue.
#[derive(Debug, Clone, Copy, PartialEq, Eq, Hash, Structural)]
pub enum RequestType {
    /// GET, PROPFIND, REPORT
    Read,
    /// PUT, PROPPATCH, DELETE
    Write,
    /// MKCOL, MKCALENDAR
    Create,
    /// COPY, MOVE
    Move,
    /// LOCK, UNLOCK
    Lock,
    /// ACL
    Acl,
}

impl RequestType {
    /// The position of the kind's work queue.
    pub open spec fn index(self) -> int {
        match self {
            RequestType::Read => 0,
            RequestType::Write => 1,
            RequestType::Create => 2,
            RequestType::Move => 3,
            RequestType::Lock => 4,
            RequestType::Acl => 5,
        }
    }

    /// The position of the kind's work queue.
    pub fn queue_index(self) -> (r: usize)
        ensures
            r == self.index(),
    {
        match self {
            RequestType::Read => 0,
            RequestType::Write => 1,
            RequestType::Create => 2,
            RequestType::Move => 3,
            RequestType::Lock => 4,
            RequestType::Acl => 5,
        }
    }
}

/// Priority of a request; higher priorities are taken first.
#[derive(Debug, Clone, Copy, PartialEq, Eq, PartialOrd, Ord, Hash, Structural)]
pub enum RequestPriority {
    Low,
    Normal,
    High,
    Critical,
}

impl RequestPriority {
    /// The priority's rank: 0 for `Low` up to 3 for `Critical`.
    pub open spec fn rank(self) -> nat {
        match self {
            RequestPriority::Low => 0,
            RequestPriority::Normal => 1,
            RequestPriority::High => 2,
            RequestPriority::Critical => 3,
        }
    }

    /// The priority's rank.
    pub fn level(self) -> (r: u8)
        ensures
            r == self.rank(),
    {
        match self {
            RequestPriority::Low => 0,
            RequestPriority::Normal => 1,
            RequestPriority::High => 2,
            RequestPriority::Critical => 3,
        }
    }
}

/// Work that the processor runs: what kind of request it is, how urgent,
/// and how long it should take. Implemented by the users of the processor.
pub trait RequestProcessor {
    fn request_type(&self) -> RequestType;

    fn priority(&self) -> RequestPriority;

    /// Estimated duration, in milliseconds.
    fn estimated_duration(&self) -> u64;
}

/// A submitted request, known by its id.
pub struct RequestHandle {
    pub id: u64,
}

impl RequestHandle {
    /// The request's id.
    pub fn id(&self) -> (r: u64)
        ensures
            r == self.id,
    {
        self.id
    }

    /// Whether the request is still active in `processor`.
    pub fn is_active(&self, processor: &ConcurrentProcessor) -> (r: bool)
        requires
            processor.wf(),
        ensures
            r == processor.active_requests.map().contains_key(self.id),
    {
        processor.is_active(self.id)
    }

    /// Cancelling a submitted request is not supported: the request is left
    /// as it is and `false` comes back.
    pub fn cancel(&self) -> (r: bool)
        ensures
            !r,
    {
        false
    }
}

/// Errors of the concurrent processor.
#[derive(Debug, Clone, Copy, PartialEq, Eq, Structural)]
pub enum ConcurrencyError {
    GlobalRateLimitExceeded,
    IpRateLimitExceeded,
    QueueFull,
    InvalidRequestType,
    RequestTimeout,
    WorkerPoolShutdown,
}

impl ConcurrencyError {
    /// The error's message.
    pub open spec fn message(self) -> Seq<char> {
        match self {
            ConcurrencyError::GlobalRateLimitExceeded => "Global rate limit exceeded"@,
            ConcurrencyError::IpRateLimitExceeded => "IP rate limit exceeded"@,
            ConcurrencyError::QueueFull => "Request queue is full"@,
            ConcurrencyError::InvalidRequestType => "Invalid request type"@,
            ConcurrencyError::RequestTimeout => "Request timed out"@,
            ConcurrencyError::WorkerPoolShutdown => "Worker pool is shutting down"@,
        }
    }

    /// The error's message.
    pub fn to_string(&self) -> (r: String)
        ensures
            r@ == self.message(),
    {
        let mut t: Vec<char> = Vec::new();
        match self {
            ConcurrencyError::GlobalRateLimitExceeded => append_str(&mut t, "Global rate limit exceeded"),
            ConcurrencyError::IpRateLimitExceeded => append_str(&mut t, "IP rate limit exceeded"),
            ConcurrencyError::QueueFull => append_str(&mut t, "Request queue is full"),
            ConcurrencyError::InvalidRequestType => append_str(&mut t, "Invalid request type"),
            ConcurrencyError::RequestTimeout => append_str(&mut t, "Request timed out"),
            ConcurrencyError::WorkerPoolShutdown => append_str(&mut t, "Worker pool is shutting down"),
        }
        string_from_chars(t.as_slice())
    }
}

/// A request waiting in a work queue.
#[derive(Debug, Clone)]
pub struct PendingRequest {
    pub id: u64,
    pub request_type: RequestType,
    pub client_ip: String,
    pub created_at: u64,
    pub priority: RequestPriority,
}

/// A request submitted and not yet finished.
#[derive(Debug, Clone, Copy, PartialEq, Eq, Structural)]
pub struct ActiveRequest {
    pub id: u64,
    pub request_type: RequestType,
    pub started_at: u64,
}

/// A work queue and its counters.
#[derive(Debug, Clone)]
pub struct WorkQueue {
    /// Waiting requests, highest priority first, first come first within a
    /// priority.
    pub queue: Vec<PendingRequest>,
    pub processing: usize,
    pub total_processed: u64,
    /// In nanoseconds.
    pub average_processing_time: u64,
}

/// Statistics of one work queue.
#[derive(Debug, Clone, Copy, PartialEq, Eq, Structural)]
pub struct QueueStats {
    pub queue_size: usize,
    pub processing: usize,
    pub total_processed: u64,
    /// In nanoseconds.
    pub average_processing_time: u64,
}

/// Statistics of the processor.
#[derive(Debug, Clone)]
pub struct ConcurrencyStats {
    pub total_requests: u64,
    pub completed_requests: u64,
    pub failed_requests: u64,
    pub timeout_requests: u64,
    pub queue_full_rejections: u64,
    pub work_steals: u64,
    pub active_requests: usize,
    pub total_queue_size: usize,
    pub peak_concurrent_requests: usize,
    /// In nanoseconds.
    pub average_queue_time: u64,
    /// In nanoseconds.
    pub average_processing_time: u64,
    /// By kind, in the order of the work queues.
    pub queue_stats: Vec<(RequestType, QueueStats)>,
}

/// How a worker's run of a request ended.
#[derive(Debug, Clone, Copy, PartialEq, Eq, Structural)]
pub enum RequestOutcome {
    Completed,
    Failed,
    TimedOut,
}

/// Counters of the processor.
#[derive(Debug, Clone, Copy, PartialEq, Eq, Structural)]
pub struct ConcurrencyMetrics {
    pub total_requests: u64,
    pub completed_requests: u64,
    pub failed_requests: u64,
    pub timeout_requests: u64,
    pub queue_full_rejections: u64,
    pub work_steals: u64,
    /// In nanoseconds.
    pub average_queue_time: u64,
    /// In nanoseconds.
    pub average_processing_time: u64,
    pub peak_concurrent_requests: usize,
    pub current_queue_size: usize,
}

/// A queue is ordered by priority, highest first.
pub open spec fn by_priority(q: Seq<PendingRequest>) -> bool {
    forall|i: int, j: int| 0 <= i < j < q.len() ==> #[trigger] q[i].priority.rank() >= #[trigger] q[j].priority.rank()
}

/// Where a request of priority `p` goes: before the first waiting request
/// of lower priority, or at the end.
pub open spec fn slot_for(q: Seq<PendingRequest>, p: RequestPriority) -> int
    decreases q.len(),
{
    if q.len() == 0 {
        0
    } else if q[0].priority.rank() < p.rank() {
        0
    } else {
        1 + slot_for(q.drop_first(), p)
    }
}

/// The kinds of requests, in the order of the work queues.
pub open spec fn kind_at(i: int) -> RequestType {
    if i == 0 {
        RequestType::Read
    } else if i == 1 {
        RequestType::Write
    } else if i == 2 {
        RequestType::Create
    } else if i == 3 {
        RequestType::Move
    } else if i == 4 {
        RequestType::Lock
    } else {
        RequestType::Acl
    }
}

/// The sum of the lengths of the work queues.
pub open spec fn queued_total(qs: Seq<WorkQueue>, n: int) -> nat
    decreases n,
{
    if n <= 0 {
        0
    } else {
        queued_total(qs, n - 1) + qs[n - 1].queue@.len()
    }
}

/// The concurrent processor.
pub struct ConcurrentProcessor {
    pub config: ConcurrencyConfig,
    /// One queue per kind, in the order of `RequestType::index`.
    pub work_queues: Vec<WorkQueue>,
    pub active_requests: LruCache<u64, ActiveRequest>,
    pub metrics: ConcurrencyMetrics,
    pub clock: Clock,
}

impl ConcurrentProcessor {
    /// Whether a request of kind `request_type` is admitted: some request
    /// may run, globally and per client, and its queue has room.
    pub open spec fn admits(&self, request_type: RequestType) -> bool {
        &&& self.config.max_concurrent_requests > 0
        &&& self.config.max_requests_per_ip > 0
        &&& self.work_queues@[request_type.index()].queue@.len() < self.config.queue_size_per_worker
    }

    /// The processor's invariant: six work queues, each ordered by
    /// priority, and no request active twice.
    pub open spec fn wf(&self) -> bool {
        &&& self.work_queues@.len() == 6
        &&& forall|i: int| 0 <= i < 6 ==> #[trigger] by_priority(self.work_queues@[i].queue@)
        &&& self.active_requests.wf()
    }

    /// A processor with empty queues and zero counters.
    pub fn new(config: ConcurrencyConfig) -> (r: ConcurrentProcessor)
        ensures
            r.wf(),
            r.config == config,
            r.work_queues@.len() == 6,
            forall|i: int|
                0 <= i < 6 ==> (#[trigger] r.work_queues@[i]).queue@.len() == 0 && r.work_queues@[i].processing == 0
                    && r.work_queues@[i].total_processed == 0 && r.work_queues@[i].average_processing_time == 0,
            r.active_requests.entries@.len() == 0,
            r.metrics == (ConcurrencyMetrics {
                total_requests: 0,
                completed_requests: 0,
                failed_requests: 0,
                timeout_requests: 0,
                queue_full_rejections: 0,
                work_steals: 0,
                average_queue_time: 0,
                average_processing_time: 0,
                peak_concurrent_requests: 0,
                current_queue_size: 0,
            }),
    {
        let mut queues: Vec<WorkQueue> = Vec::new();
        let mut i: usize = 0;
        while i < 6
            invariant
                i <= 6,
                queues@.len() == i,
                forall|j: int|
                    0 <= j < i ==> (#[trigger] queues@[j]).queue@.len() == 0 && queues@[j].processing == 0
                        && queues@[j].total_processed == 0 && queues@[j].average_processing_time == 0,
            decreases 6 - i,
        {
            queues.push(WorkQueue { queue: Vec::new(), processing: 0, total_processed: 0, average_processing_time: 0 });
            i = i + 1;
        }
        ConcurrentProcessor {
            config,
            work_queues: queues,
            active_requests: LruCache::new(usize::MAX),
            metrics: ConcurrencyMetrics {
                total_requests: 0,
                completed_requests: 0,
                failed_requests: 0,
                timeout_requests: 0,
                queue_full_rejections: 0,
                work_steals: 0,
                average_queue_time: 0,
                average_processing_time: 0,
                peak_concurrent_requests: 0,
                current_queue_size: 0,
            },
            clock: Clock::start(),
        }
    }

    /// Submits work from `client_ip` now, of the kind and priority that the
    /// work reports; an admitted request is active under its handle's id.
    pub fn submit_request<P: RequestProcessor>(&mut self, client_ip: &str, processor: &P) -> (r: Result<RequestHandle, ConcurrencyError>)
        requires
            old(self).wf(),
        ensures
            final(self).wf(),
            final(self).config == old(self).config,
            r matches Ok(h) ==> h.id == old(self).metrics.total_requests
                && final(self).active_requests.map().contains_key(h.id),
            old(self).config.max_concurrent_requests == 0 ==> r == Err::<RequestHandle, ConcurrencyError>(
                ConcurrencyError::GlobalRateLimitExceeded,
            ),
            old(self).config.max_concurrent_requests > 0 && old(self).config.max_requests_per_ip == 0
                ==> r == Err::<RequestHandle, ConcurrencyError>(ConcurrencyError::IpRateLimitExceeded),
    {
        let request_type = processor.request_type();
        let priority = processor.priority();
        let now = self.clock.now_ms();
        match self.submit_at(client_ip, request_type, priority, now) {
            Ok(id) => Ok(RequestHandle { id }),
            Err(e) => Err(e),
        }
    }

    /// Submits a request of a kind and priority at `now`. It is refused
    /// when no request may run at all, globally or per client, or when its
    /// queue is full (counted); otherwise it gets the next id, waits in its
    /// queue by priority and is active.
    pub fn submit_at(&mut self, client_ip: &str, request_type: RequestType, priority: RequestPriority, now: u64) -> (r: Result<u64, ConcurrencyError>)
        requires
            old(self).wf(),
        ensures
            final(self).wf(),
            final(self).config == old(self).config,
            r is Ok <==> old(self).admits(request_type),
            old(self).config.max_concurrent_requests == 0 ==> r == Err::<u64, ConcurrencyError>(
                ConcurrencyError::GlobalRateLimitExceeded,
            ),
            old(self).config.max_concurrent_requests > 0 && old(self).config.max_requests_per_ip == 0
                ==> r == Err::<u64, ConcurrencyError>(ConcurrencyError::IpRateLimitExceeded),
            ({
                let q = old(self).work_queues@[request_type.index()].queue@;
                old(self).config.max_concurrent_requests > 0 && old(self).config.max_requests_per_ip > 0 ==> {
                    if q.len() >= old(self).config.queue_size_per_worker {
                        &&& r == Err::<u64, ConcurrencyError>(ConcurrencyError::QueueFull)
                        &&& final(self).metrics.queue_full_rejections == spec_sat_add(
                            old(self).metrics.queue_full_rejections,
                            1,
                        )
                        &&& final(self).work_queues@ == old(self).work_queues@
                    } else {
                        &&& r == Ok::<u64, ConcurrencyError>(old(self).metrics.total_requests)
                        &&& final(self).metrics.total_requests == spec_sat_add(old(self).metrics.total_requests, 1)
                        &&& final(self).work_queues@[request_type.index()].queue@.len() == q.len() + 1
                        &&& final(self).work_queues@[request_type.index()].queue@[slot_for(q, priority)].id
                            == old(self).metrics.total_requests
                        &&& final(self).active_requests.map() == old(self).active_requests.map().insert(
                            old(self).metrics.total_requests,
                            ActiveRequest {
                                id: old(self).metrics.total_requests,
                                request_type,
                                started_at: now,
                            },
                        )
                        &&& forall|k: int|
                            0 <= k < 6 && k != request_type.index() ==> #[trigger] final(self).work_queues@[k]
                                == old(self).work_queues@[k]
                    }
                }
            }),
    {
        if self.config.max_concurrent_requests == 0 {
            return Err(ConcurrencyError::GlobalRateLimitExceeded);
        }
        if self.config.max_requests_per_ip == 0 {
            return Err(ConcurrencyError::IpRateLimitExceeded);
        }
        let k = request_type.queue_index();
        if self.work_queues[k].queue.len() >= self.config.queue_size_per_worker {
            self.metrics.queue_full_rejections = sat_add(self.metrics.queue_full_rejections, 1);
            return Err(ConcurrencyError::QueueFull);
        }
        let id = self.metrics.total_requests;
        self.metrics.total_requests = sat_add(self.metrics.total_requests, 1);
        let req = PendingRequest { id, request_type, client_ip: String::from_str(client_ip), created_at: now, priority };
        let ghost before = self.work_queues@;
        let ghost new_req = req;
        let mut wq = self.work_queues.remove(k);
        let ghost q0 = wq.queue@;
        assert(q0 == before[k as int].queue@);
        let pos = enqueue(&mut wq.queue, req);
        let ghost q1 = wq.queue@;
        self.work_queues.insert(k, wq);
        assert(self.work_queues@ =~= before.update(k as int, self.work_queues@[k as int]));
        assert(self.work_queues@[k as int].queue@ == q1);
        assert(q1 == q0.insert(pos as int, new_req));
        assert(q1[pos as int] == new_req);
        assert forall|i: int| 0 <= i < 6 implies #[trigger] by_priority(self.work_queues@[i].queue@) by {
            if i != k {
                assert(self.work_queues@[i] == before[i]);
            }
        }
        self.active_requests.insert(id, ActiveRequest { id, request_type, started_at: now });
        let size = if self.metrics.current_queue_size < usize::MAX {
            self.metrics.current_queue_size + 1
        } else {
            usize::MAX
        };
        self.metrics.current_queue_size = size;
        if size > self.metrics.peak_concurrent_requests {
            self.metrics.peak_concurrent_requests = size;
        }
        Ok(id)
    }

    /// A worker takes the first request of a queue.
    pub fn take_next(&mut self, request_type: RequestType) -> (r: Option<PendingRequest>)
        requires
            old(self).wf(),
        ensures
            final(self).wf(),
            final(self).config == old(self).config,
            final(self).metrics == old(self).metrics,
            final(self).active_requests == old(self).active_requests,
            old(self).work_queues@[request_type.index()].queue@.len() == 0 ==> r is None
                && final(self).work_queues@ == old(self).work_queues@,
            old(self).work_queues@[request_type.index()].queue@.len() > 0 ==> {
                &&& r == Some(old(self).work_queues@[request_type.index()].queue@[0])
                &&& final(self).work_queues@[request_type.index()].queue@ == old(
                    self,
                ).work_queues@[request_type.index()].queue@.drop_first()
            },
    {
        let k = request_type.queue_index();
        if self.work_queues[k].queue.len() == 0 {
            return None;
        }
        let ghost before = self.work_queues@;
        let mut wq = self.work_queues.remove(k);
        let ghost q0 = wq.queue@;
        let first = wq.queue.remove(0);
        assert(wq.queue@ =~= q0.drop_first());
        proof {
            lemma_drop_first_ordered(q0);
        }
        self.work_queues.insert(k, wq);
        assert(self.work_queues@ =~= before.update(k as int, self.work_queues@[k as int]));
        assert forall|i: int| 0 <= i < 6 implies #[trigger] by_priority(self.work_queues@[i].queue@) by {
            if i != k {
                assert(self.work_queues@[i] == before[i]);
            }
        }
        Some(first)
    }

    /// Records how a worker's run of request `id` ended after `queue_time`
    /// and `processing_time` nanoseconds: the outcome is counted, the
    /// averages are updated (mean of old average and new time), and the
    /// request is no longer active.
    pub fn finish(&mut self, id: u64, outcome: RequestOutcome, queue_time: u64, processing_time: u64)
        requires
            old(self).wf(),
        ensures
            final(self).wf(),
            final(self).config == old(self).config,
            final(self).work_queues == old(self).work_queues,
            final(self).active_requests.map() == old(self).active_requests.map().remove(id),
            final(self).metrics.completed_requests == if outcome == RequestOutcome::Completed {
                spec_sat_add(old(self).metrics.completed_requests, 1)
            } else {
                old(self).metrics.completed_requests
            },
            final(self).metrics.failed_requests == if outcome == RequestOutcome::Failed {
                spec_sat_add(old(self).metrics.failed_requests, 1)
            } else {
                old(self).metrics.failed_requests
            },
            final(self).metrics.timeout_requests == if outcome == RequestOutcome::TimedOut {
                spec_sat_add(old(self).metrics.timeout_requests, 1)
            } else {
                old(self).metrics.timeout_requests
            },
            final(self).metrics.average_queue_time == (old(self).metrics.average_queue_time as int
                + queue_time as int) / 2,
            final(self).metrics.average_processing_time == (
            old(self).metrics.average_processing_time as int + processing_time as int) / 2,
            final(self).metrics.current_queue_size == if old(self).metrics.current_queue_size > 0 {
                old(self).metrics.current_queue_size - 1
            } else {
                0
            },
            final(self).metrics.total_requests == old(self).metrics.total_requests,
    {
        self.metrics.average_queue_time = ((self.metrics.average_queue_time as u128 + queue_time as u128)
            / 2) as u64;
        match outcome {
            RequestOutcome::Completed => {
                self.metrics.completed_requests = sat_add(self.metrics.completed_requests, 1);
            },
            RequestOutcome::Failed => {
                self.metrics.failed_requests = sat_add(self.metrics.failed_requests, 1);
            },
            RequestOutcome::TimedOut => {
                self.metrics.timeout_requests = sat_add(self.metrics.timeout_requests, 1);
            },
        }
        self.metrics.average_processing_time = ((self.metrics.average_processing_time as u128
            + processing_time as u128) / 2) as u64;
        self.active_requests.remove(&id);
        if self.metrics.current_queue_size > 0 {
            self.metrics.current_queue_size = self.metrics.current_queue_size - 1;
        }
    }

    /// Whether request `id` is still active.
    pub fn is_active(&self, id: u64) -> (r: bool)
        requires
            self.wf(),
        ensures
            r == self.active_requests.map().contains_key(id),
    {
        self.active_requests.get(&id).is_some()
    }

    /// Whether `r` reports this processor's counters, queue sizes and per-queue statistics.
    pub open spec fn reports_stats(&self, r: ConcurrencyStats) -> bool {
        &&& (r.total_requests == self.metrics.total_requests)
        &&& (r.completed_requests == self.metrics.completed_requests)
        &&& (r.failed_requests == self.metrics.failed_requests)
        &&& (r.timeout_requests == self.metrics.timeout_requests)
        &&& (r.queue_full_rejections == self.metrics.queue_full_rejections)
        &&& (r.work_steals == self.metrics.work_steals)
        &&& (r.active_requests == self.active_requests.entries@.len())
        &&& (r.total_queue_size == if queued_total(self.work_queues@, 6) <= usize::MAX {
            queued_total(self.work_queues@, 6)
        } else {
            usize::MAX as nat
        })
        &&& (r.peak_concurrent_requests == self.metrics.peak_concurrent_requests)
        &&& (r.average_queue_time == self.metrics.average_queue_time)
        &&& (r.average_processing_time == self.metrics.average_processing_time)
        &&& (r.queue_stats@.len() == 6)
        &&& (forall|i: int|
            0 <= i < 6 ==> #[trigger] r.queue_stats@[i] == (kind_at(i), QueueStats {
                queue_size: self.work_queues@[i].queue@.len() as usize,
                processing: self.work_queues@[i].processing,
                total_processed: self.work_queues@[i].total_processed,
                average_processing_time: self.work_queues@[i].average_processing_time,
            }))
    }

    /// The processor's statistics.
    pub fn get_performance_stats(&self) -> (r: ConcurrencyStats)
        requires
            self.wf(),
        ensures
            self.reports_stats(r),
    {
        let mut total: usize = 0;
        let mut stats: Vec<(RequestType, QueueStats)> = Vec::new();
        let mut i: usize = 0;
        while i < 6
            invariant
                self.wf(),
                i <= 6,
                total == if queued_total(self.work_queues@, i as int) <= usize::MAX {
                    queued_total(self.work_queues@, i as int)
                } else {
                    usize::MAX as nat
                },
                stats@.len() == i,
                forall|j: int|
                    0 <= j < i ==> #[trigger] stats@[j] == (kind_at(j), QueueStats {
                        queue_size: self.work_queues@[j].queue@.len() as usize,
                        processing: self.work_queues@[j].processing,
                        total_processed: self.work_queues@[j].total_processed,
                        average_processing_time: self.work_queues@[j].average_processing_time,
                    }),
            decreases 6 - i,
        {
            let q = &self.work_queues[i];
            let n = q.queue.len();
            total = if total <= usize::MAX - n {
                total + n
            } else {
                usize::MAX
            };
            let kind = if i == 0 {
                RequestType::Read
            } else if i == 1 {
                RequestType::Write
            } else if i == 2 {
                RequestType::Create
            } else if i == 3 {
                RequestType::Move
            } else if i == 4 {
                RequestType::Lock
            } else {
                RequestType::Acl
            };
            stats.push(
                (
                    kind,
                    QueueStats {
                        queue_size: n,
                        processing: q.processing,
                        total_processed: q.total_processed,
                        average_processing_time: q.average_processing_time,
                    },
                ),
            );
            i = i + 1;
        }
        ConcurrencyStats {
            total_requests: self.metrics.total_requests,
            completed_requests: self.metrics.completed_requests,
            failed_requests: self.metrics.failed_requests,
            timeout_requests: self.metrics.timeout_requests,
            queue_full_rejections: self.metrics.queue_full_rejections,
            work_steals: self.metrics.work_steals,
            active_requests: self.active_requests.len(),
            total_queue_size: total,
            peak_concurrent_requests: self.metrics.peak_concurrent_requests,
            average_queue_time: self.metrics.average_queue_time,
            average_processing_time: self.metrics.average_processing_time,
            queue_stats: stats,
        }
    }
}

/// The position of the first waiting request of lower priority than `p`.
fn slot(queue: &Vec<PendingRequest>, p: RequestPriority) -> (pos: usize)
    ensures
        pos as int == slot_for(queue@, p),
        pos <= queue@.len(),
        forall|j: int| 0 <= j < pos ==> #[trigger] queue@[j].priority.rank() >= p.rank(),
        pos < queue@.len() ==> queue@[pos as int].priority.rank() < p.rank(),
{
    let level = p.level();
    let mut i: usize = 0;
    assert(queue@.skip(0) =~= queue@);
    while i < queue.len() && queue[i].priority.level() >= level
        invariant
            i <= queue@.len(),
            level == p.rank(),
            forall|j: int| 0 <= j < i ==> #[trigger] queue@[j].priority.rank() >= p.rank(),
            slot_for(queue@, p) == i + slot_for(queue@.skip(i as int), p),
        decreases queue.len() - i,
    {
        assert(queue@.skip(i as int).drop_first() =~= queue@.skip(i + 1));
        i = i + 1;
    }
    if i < queue.len() {
        assert(queue@.skip(i as int)[0] == queue@[i as int]);
    } else {
        assert(queue@.skip(i as int).len() == 0);
    }
    i
}

/// Taking the first request keeps a queue ordered.
proof fn lemma_drop_first_ordered(q: Seq<PendingRequest>)
    requires
        by_priority(q),
        q.len() > 0,
    ensures
        by_priority(q.drop_first()),
{
    let t = q.drop_first();
    assert forall|a: int, b: int| 0 <= a < b < t.len() implies #[trigger] t[a].priority.rank()
        >= #[trigger] t[b].priority.rank() by {
        assert(t[a] == q[a + 1]);
        assert(t[b] == q[b + 1]);
    }
}

/// Puts a request in its place by priority: before the first waiting
/// request of lower priority; the queue stays ordered.
pub fn enqueue(queue: &mut Vec<PendingRequest>, req: PendingRequest) -> (pos: usize)
    requires
        by_priority(old(queue)@),
    ensures
        pos as int == slot_for(old(queue)@, req.priority),
        pos <= old(queue)@.len(),
        final(queue)@ == old(queue)@.insert(pos as int, req),
        by_priority(final(queue)@),
{
    let pos = slot(queue, req.priority);
    let ghost q = queue@;
    queue.insert(pos, req);
    assert forall|i: int, j: int| 0 <= i < j < queue@.len() implies #[trigger] queue@[i].priority.rank()
        >= #[trigger] queue@[j].priority.rank() by {
        let r = queue@;
        if j < pos {
            assert(r[i] == q[i] && r[j] == q[j]);
        } else if j == pos {
            assert(r[i] == q[i]);
        } else if i < pos {
            assert(r[i] == q[i] && r[j] == q[j - 1]);
            if pos < q.len() {
                assert(q[pos as int].priority.rank() >= q[j - 1].priority.rank());
            }
        } else if i == pos {
            assert(r[j] == q[j - 1]);
            assert(q[pos as int].priority.rank() >= q[j - 1].priority.rank());
        } else {
            assert(r[i] == q[i - 1] && r[j] == q[j - 1]);
        }
    }
    pos
}

} // verus!
