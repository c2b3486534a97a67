//! Request metrics: counts and response times by method, error counts by
//! status, active requests and bytes transferred, with snapshots and a
//! health verdict.
//!
//! Durations are in milliseconds.
use vstd::prelude::*;

use crate::clock::Clock;
use crate::counter::{elapsed, sat_add, spec_elapsed, spec_sat_add};
use crate::lru::{position_of, LruCache, LruKey};

verus! {

impl LruKey for u16 {
    type KeyView = u16;

    open spec fn key_view(&self) -> u16 {
        *self
    }

    fn key_eq(&self, other: &Self) -> (r: bool) {
        *self == *other
    }

    fn key_clone(&self) -> (r: Self) {
        *self
    }
}

/// A status code that reports a client error (4xx) or a server error (5xx).
pub open spec fn is_error_status(status: u16) -> bool {
    400 <= status <= 599
}

/// `x - y`, held at zero.
pub open spec fn spec_sat_sub(x: u64, y: u64) -> u64 {
    if x >= y {
        (x - y) as u64
    } else {
        0
    }
}

/// The sum of a sequence of counts.
pub open spec fn total_of(s: Seq<u64>) -> nat
    decreases s.len(),
{
    if s.len() == 0 {
        0
    } else {
        total_of(s.drop_last()) + s.last() as nat
    }
}

/// A sum held at `u64::MAX`.
pub open spec fn capped(n: nat) -> u64 {
    if n <= u64::MAX {
        n as u64
    } else {
        u64::MAX
    }
}

/// The counts of a table.
pub open spec fn counts_of<K>(s: Seq<(K, u64)>) -> Seq<u64> {
    s.map_values(|e: (K, u64)| e.1)
}

/// `m` is the least element of the non-empty `s`.
pub open spec fn is_min_of(m: u64, s: Seq<u64>) -> bool {
    (exists|i: int| 0 <= i < s.len() && s[i] == m) && forall|j: int| 0 <= j < s.len() ==> m <= s[j]
}

/// `m` is the greatest element of the non-empty `s`.
pub open spec fn is_max_of(m: u64, s: Seq<u64>) -> bool {
    (exists|i: int| 0 <= i < s.len() && s[i] == m) && forall|j: int| 0 <= j < s.len() ==> s[j] <= m
}

/// Statistics of one method.
#[derive(Debug, Clone, Copy, PartialEq, Eq, Structural)]
pub struct MethodStats {
    pub request_count: u64,
    pub avg_response_time: u64,
    pub min_response_time: u64,
    pub max_response_time: u64,
}

/// The statistics of a method from its count and recorded response times:
/// mean (rounded down), least and greatest time, all zero without times.
pub open spec fn method_stats_valid(st: MethodStats, count: u64, times: Seq<u64>) -> bool {
    &&& st.request_count == count
    &&& times.len() == 0 ==> st.avg_response_time == 0 && st.min_response_time == 0
        && st.max_response_time == 0
    &&& times.len() > 0 ==> {
        &&& st.avg_response_time == total_of(times) / times.len()
        &&& is_min_of(st.min_response_time, times)
        &&& is_max_of(st.max_response_time, times)
    }
}

/// A snapshot of the metrics.
#[derive(Debug, Clone)]
pub struct DavMetricsSnapshot {
    /// Statistics by method, in the order methods were first seen.
    pub method_stats: Vec<(String, MethodStats)>,
    /// Error counts by status code.
    pub error_counts: Vec<(u16, u64)>,
    pub active_requests: u64,
    pub bytes_transferred: u64,
    /// Milliseconds since the metrics were created or reset.
    pub uptime: u64,
    /// Requests started, over all methods.
    pub total_requests: u64,
    /// Requests completed with an error status.
    pub total_errors: u64,
}

/// How the server is doing.
#[derive(Debug, Clone, Copy, PartialEq, Eq, Structural)]
pub enum HealthStatus {
    /// Errors are at most one request in twenty.
    Healthy,
    /// Errors are more than one request in twenty, at most one in ten.
    Degraded,
    /// Errors are more than one request in ten.
    Unhealthy,
}

/// The health verdict for `errors` errors among `total` requests: the
/// error rate compared with one tenth and one twentieth.
pub open spec fn health_of(errors: nat, total: nat) -> HealthStatus {
    if total > 0 && errors * 10 > total {
        HealthStatus::Unhealthy
    } else if total > 0 && errors * 20 > total {
        HealthStatus::Degraded
    } else {
        HealthStatus::Healthy
    }
}

/// The health of the server.
#[derive(Debug, Clone, Copy)]
pub struct DavHealthStatus {
    pub status: HealthStatus,
    pub active_requests: u64,
    /// Requests completed with an error status.
    pub error_count: u64,
    pub uptime: u64,
    pub total_requests: u64,
}

/// The metrics collector.
pub struct DavMetrics {
    /// Requests started, by method.
    pub request_counts: LruCache<String, u64>,
    /// Response times, by method, in the order recorded.
    pub response_times: LruCache<String, Vec<u64>>,
    /// Completions with an error status, by status.
    pub error_counts: LruCache<u16, u64>,
    pub active_requests: u64,
    pub bytes_transferred: u64,
    /// Clock reading when collection started.
    pub start_time: u64,
    pub clock: Clock,
}

impl DavMetrics {
    /// The collector's invariant: no key occurs twice in a table.
    pub open spec fn wf(&self) -> bool {
        self.request_counts.wf() && self.response_times.wf() && self.error_counts.wf()
    }

    /// The response times recorded for `method`.
    pub open spec fn times_of(&self, method: Seq<char>) -> Seq<u64> {
        if self.response_times.map().contains_key(method) {
            self.response_times.map()[method]@
        } else {
            Seq::empty()
        }
    }

    /// A collector with nothing recorded.
    pub fn new() -> (r: DavMetrics)
        ensures
            r.wf(),
            r.request_counts.entries@.len() == 0,
            r.response_times.entries@.len() == 0,
            r.error_counts.entries@.len() == 0,
            r.active_requests == 0,
            r.bytes_transferred == 0,
    {
        let clock = Clock::start();
        let start_time = clock.now_ms();
        DavMetrics {
            request_counts: LruCache::new(usize::MAX),
            response_times: LruCache::new(usize::MAX),
            error_counts: LruCache::new(usize::MAX),
            active_requests: 0,
            bytes_transferred: 0,
            start_time,
            clock,
        }
    }

    /// Counts the start of a request: its method's count and the active
    /// count go up by one (held at `u64::MAX`).
    pub fn record_request_start(&mut self, method: &str)
        requires
            old(self).wf(),
        ensures
            final(self).wf(),
            final(self).request_counts.map() == old(self).request_counts.map().insert(
                method@,
                spec_sat_add(
                    if old(self).request_counts.map().contains_key(method@) {
                        old(self).request_counts.map()[method@]
                    } else {
                        0
                    },
                    1,
                ),
            ),
            final(self).response_times == old(self).response_times,
            final(self).error_counts == old(self).error_counts,
            final(self).active_requests == spec_sat_add(old(self).active_requests, 1),
            final(self).bytes_transferred == old(self).bytes_transferred,
            final(self).start_time == old(self).start_time,
            old(self).counts_after_start(*final(self), method@),
    {
        let key = String::from_str(method);
        let count = match self.request_counts.get(&key) {
            Some(c) => *c,
            None => 0,
        };
        let ghost before = self.request_counts.entries@;
        self.request_counts.insert(key, sat_add(count, 1));
        self.active_requests = sat_add(self.active_requests, 1);
        proof {
            let after = self.request_counts.entries@;
            match position_of(before, method@) {
                Some(i) => {
                    assert(counts_of(after) =~= counts_of(before).update(i, spec_sat_add(counts_of(before)[i], 1)));
                },
                None => {
                    assert(counts_of(after) =~= counts_of(before).push(1));
                },
            }
        }
    }

    /// How starting a request of `method` changes the table of counts: the
    /// method's count goes up by one (held at `u64::MAX`) where it is, or a
    /// count of one is added at the end for a new method.
    pub open spec fn counts_after_start(self, after: Self, method: Seq<char>) -> bool {
        let before = counts_of(self.request_counts.entries@);
        match position_of(self.request_counts.entries@, method) {
            Some(i) => counts_of(after.request_counts.entries@) == before.update(i, spec_sat_add(before[i], 1)),
            None => counts_of(after.request_counts.entries@) == before.push(1),
        }
    }

    /// The completion of a request of `method` with `status_code`, taking
    /// `duration` milliseconds and moving `bytes` bytes, from this state to
    /// `after`: the time is added to the method's times, an error status
    /// (4xx or 5xx) is counted under its code and no other status is, the
    /// active count goes down by one (held at zero), the bytes are added
    /// (held at `u64::MAX`), and the request counts stay.
    pub open spec fn completion(self, after: Self, method: Seq<char>, status_code: u16, duration: u64, bytes: u64) -> bool {
        &&& after.request_counts == self.request_counts
        &&& after.response_times.map().dom() == self.response_times.map().dom().insert(method)
        &&& after.response_times.map().remove(method) == self.response_times.map().remove(method)
        &&& after.times_of(method) == self.times_of(method).push(duration)
        &&& is_error_status(status_code) ==> after.error_counts.map() == self.error_counts.map().insert(
            status_code,
            spec_sat_add(
                if self.error_counts.map().contains_key(status_code) {
                    self.error_counts.map()[status_code]
                } else {
                    0
                },
                1,
            ),
        )
        &&& !is_error_status(status_code) ==> after.error_counts == self.error_counts
        &&& after.active_requests == spec_sat_sub(self.active_requests, 1)
        &&& after.bytes_transferred == spec_sat_add(self.bytes_transferred, bytes)
        &&& after.start_time == self.start_time
    }

    /// Records the completion of a request that took `duration`
    /// milliseconds: the time is added to its method's times, an error
    /// status (4xx or 5xx) is counted, the active count goes down by one
    /// (held at zero) and the bytes are added (held at `u64::MAX`).
    pub fn record_request_complete(&mut self, method: &str, status_code: u16, duration: u64, bytes_transferred: u64)
        requires
            old(self).wf(),
        ensures
            final(self).wf(),
            old(self).completion(*final(self), method@, status_code, duration, bytes_transferred),
    {
        let key = String::from_str(method);
        let mut times = match self.response_times.remove(&key) {
            Some(t) => t,
            None => Vec::new(),
        };
        times.push(duration);
        self.response_times.insert(key, times);
        if 400 <= status_code && status_code <= 599 {
            let count = match self.error_counts.get(&status_code) {
                Some(c) => *c,
                None => 0,
            };
            self.error_counts.insert(status_code, sat_add(count, 1));
        }
        self.active_requests = if self.active_requests >= 1 {
            self.active_requests - 1
        } else {
            0
        };
        self.bytes_transferred = sat_add(self.bytes_transferred, bytes_transferred);
        assert(self.response_times.map().dom() =~= old(self).response_times.map().dom().insert(method@));
        assert(self.response_times.map().remove(method@) =~= old(self).response_times.map().remove(method@));
        assert(self.times_of(method@) =~= old(self).times_of(method@).push(duration));
        if 400 <= status_code && status_code <= 599 {
            assert(self.error_counts.map() =~= old(self).error_counts.map().insert(
                status_code,
                spec_sat_add(
                    if old(self).error_counts.map().contains_key(status_code) {
                        old(self).error_counts.map()[status_code]
                    } else {
                        0
                    },
                    1,
                ),
            ));
        }
    }

    /// A snapshot of the metrics now.
    pub fn get_metrics(&self) -> (r: DavMetricsSnapshot)
        requires
            self.wf(),
        ensures
            self.snapshot_valid(r),
            exists|now: u64| r.uptime == #[trigger] spec_elapsed(self.start_time, now),
    {
        let now = self.clock.now_ms();
        self.get_metrics_at(now)
    }

    /// `r` is a snapshot of the collector: one statistics entry per counted
    /// method, in order, the error counts, the counters and the totals.
    pub open spec fn snapshot_valid(&self, r: DavMetricsSnapshot) -> bool {
        let counts = self.request_counts.entries@;
        &&& r.method_stats@.len() == counts.len()
        &&& forall|i: int|
            0 <= i < counts.len() ==> #[trigger] r.method_stats@[i].0@ == counts[i].0@
                && method_stats_valid(r.method_stats@[i].1, counts[i].1, self.times_of(counts[i].0@))
        &&& r.error_counts@ == self.error_counts.entries@
        &&& r.active_requests == self.active_requests
        &&& r.bytes_transferred == self.bytes_transferred
        &&& r.total_requests == capped(total_of(counts_of(counts)))
        &&& r.total_errors == capped(total_of(counts_of(self.error_counts.entries@)))
    }

    /// A snapshot of the metrics at clock reading `now`.
    pub fn get_metrics_at(&self, now: u64) -> (r: DavMetricsSnapshot)
        requires
            self.wf(),
        ensures
            self.snapshot_valid(r),
            r.uptime == spec_elapsed(self.start_time, now),
    {
        let counts = self.request_counts.iter();
        let mut stats: Vec<(String, MethodStats)> = Vec::new();
        let mut i: usize = 0;
        while i < counts.len()
            invariant
                self.wf(),
                counts@ == self.request_counts.entries@,
                i <= counts@.len(),
                stats@.len() == i,
                forall|j: int| 0 <= j < i ==> #[trigger] stats@[j].0@ == counts@[j].0@,
                forall|j: int|
                    0 <= j < i ==> method_stats_valid(
                        #[trigger] stats@[j].1,
                        counts@[j].1,
                        self.times_of(counts@[j].0@),
                    ),
            decreases counts.len() - i,
        {
            let method = &counts[i].0;
            let times: &[u64] = match self.response_times.get(method) {
                Some(t) => t.as_slice(),
                None => &[],
            };
            assert(times@ == self.times_of(method@));
            let st = stats_of(counts[i].1, times);
            let name = method.clone();
            assert(name@ == counts@[i as int].0@);
            let ghost before = stats@;
            stats.push((name, st));
            assert(stats@[i as int].0@ == counts@[i as int].0@);
            assert forall|j: int| 0 <= j < i + 1 implies #[trigger] stats@[j].0@ == counts@[j].0@ by {
                if j < i {
                    assert(stats@[j] == before[j]);
                }
            }
            assert forall|j: int| 0 <= j < i + 1 implies method_stats_valid(
                #[trigger] stats@[j].1,
                counts@[j].1,
                self.times_of(counts@[j].0@),
            ) by {
                if j < i {
                    assert(stats@[j] == before[j]);
                }
            }
            i = i + 1;
        }
        let errors = self.error_counts.iter();
        let mut error_counts: Vec<(u16, u64)> = Vec::new();
        let mut k: usize = 0;
        while k < errors.len()
            invariant
                k <= errors@.len(),
                error_counts@ == errors@.take(k as int),
            decreases errors.len() - k,
        {
            error_counts.push(errors[k]);
            assert(error_counts@ =~= errors@.take(k + 1));
            k = k + 1;
        }
        assert(error_counts@ =~= errors@);
        DavMetricsSnapshot {
            method_stats: stats,
            error_counts,
            active_requests: self.active_requests,
            bytes_transferred: self.bytes_transferred,
            uptime: elapsed(self.start_time, now),
            total_requests: sum_counts(counts),
            total_errors: sum_counts(errors),
        }
    }

    /// Forgets everything recorded and restarts the uptime now.
    pub fn reset(&mut self)
        ensures
            final(self).wf(),
            final(self).request_counts.entries@.len() == 0,
            final(self).response_times.entries@.len() == 0,
            final(self).error_counts.entries@.len() == 0,
            final(self).active_requests == 0,
            final(self).bytes_transferred == 0,
    {
        self.request_counts.clear();
        self.response_times.clear();
        self.error_counts.clear();
        self.active_requests = 0;
        self.bytes_transferred = 0;
        self.start_time = self.clock.now_ms();
    }

    /// The health of the server now.
    pub fn get_health_status(&self) -> (r: DavHealthStatus)
        requires
            self.wf(),
        ensures
            r.status == health_of(r.error_count as nat, r.total_requests as nat),
            r.active_requests == self.active_requests,
            r.total_requests == capped(total_of(counts_of(self.request_counts.entries@))),
            r.error_count == capped(total_of(counts_of(self.error_counts.entries@))),
    {
        let m = self.get_metrics();
        health_status_of(&m)
    }
}

/// The health verdict of a snapshot: unhealthy when more than one request
/// in ten failed, degraded when more than one in twenty, healthy otherwise.
pub fn health_status_of(m: &DavMetricsSnapshot) -> (r: DavHealthStatus)
    ensures
        r.status == health_of(m.total_errors as nat, m.total_requests as nat),
        r.active_requests == m.active_requests,
        r.error_count == m.total_errors,
        r.uptime == m.uptime,
        r.total_requests == m.total_requests,
{
    let errors = m.total_errors as u128;
    let total = m.total_requests as u128;
    let status = if total > 0 && errors * 10 > total {
        HealthStatus::Unhealthy
    } else if total > 0 && errors * 20 > total {
        HealthStatus::Degraded
    } else {
        HealthStatus::Healthy
    };
    DavHealthStatus {
        status,
        active_requests: m.active_requests,
        error_count: m.total_errors,
        uptime: m.uptime,
        total_requests: m.total_requests,
    }
}

/// The sum of a table's counts, held at `u64::MAX`.
fn sum_counts<K>(s: &Vec<(K, u64)>) -> (r: u64)
    ensures
        r == capped(total_of(counts_of(s@))),
{
    let mut total: u64 = 0;
    let mut i: usize = 0;
    while i < s.len()
        invariant
            i <= s@.len(),
            total == capped(total_of(counts_of(s@.take(i as int)))),
        decreases s.len() - i,
    {
        assert(counts_of(s@.take(i + 1)).drop_last() =~= counts_of(s@.take(i as int)));
        total = sat_add(total, s[i].1);
        i = i + 1;
    }
    assert(s@.take(i as int) =~= s@);
    total
}

/// The statistics of a method with `count` requests and response times
/// `times`.
fn stats_of(count: u64, times: &[u64]) -> (r: MethodStats)
    ensures
        method_stats_valid(r, count, times@),
{
    if times.len() == 0 {
        return MethodStats {
            request_count: count,
            avg_response_time: 0,
            min_response_time: 0,
            max_response_time: 0,
        };
    }
    let mut sum: u128 = 0;
    let mut lo: u64 = times[0];
    let mut hi: u64 = times[0];
    let mut i: usize = 0;
    while i < times.len()
        invariant
            0 < times@.len(),
            i <= times@.len(),
            sum == total_of(times@.take(i as int)),
            sum <= i * 18446744073709551615,
            exists|k: int| 0 <= k < times@.len() && times@[k] == lo,
            exists|k: int| 0 <= k < times@.len() && times@[k] == hi,
            forall|j: int| 0 <= j < i ==> lo <= times@[j],
            forall|j: int| 0 <= j < i ==> times@[j] <= hi,
            lo <= times@[0] <= hi,
        decreases times.len() - i,
    {
        assert(times@.take(i + 1).drop_last() =~= times@.take(i as int));
        let t = times[i];
        sum = sum + t as u128;
        if t < lo {
            lo = t;
        }
        if t > hi {
            hi = t;
        }
        i = i + 1;
    }
    assert(times@.take(i as int) =~= times@);
    let n = times.len() as u128;
    let avg = sum / n;
    assert(avg <= 18446744073709551615) by (nonlinear_arith)
        requires
            sum <= n * 18446744073709551615,
            n > 0,
            avg == sum / n,
    ;
    MethodStats {
        request_count: count,
        avg_response_time: avg as u64,
        min_response_time: lo,
        max_response_time: hi,
    }
}

/// Tracks one request from its start to its end.
pub struct RequestTracker {
    pub method: String,
    /// Clock reading at the start.
    pub start_time: u64,
}

impl RequestTracker {
    /// Starts tracking a request: counts its start.
    pub fn new(method: String, metrics: &mut DavMetrics) -> (r: RequestTracker)
        requires
            old(metrics).wf(),
        ensures
            final(metrics).wf(),
            r.method@ == method@,
            final(metrics).request_counts.map() == old(metrics).request_counts.map().insert(
                method@,
                spec_sat_add(
                    if old(metrics).request_counts.map().contains_key(method@) {
                        old(metrics).request_counts.map()[method@]
                    } else {
                        0
                    },
                    1,
                ),
            ),
            final(metrics).active_requests == spec_sat_add(old(metrics).active_requests, 1),
    {
        metrics.record_request_start(method.as_str());
        let start_time = metrics.clock.now_ms();
        RequestTracker { method, start_time }
    }

    /// Ends tracking: records the completion with the given status and
    /// bytes, and the time since the start.
    pub fn complete(self, metrics: &mut DavMetrics, status_code: u16, bytes_transferred: u64)
        requires
            old(metrics).wf(),
        ensures
            final(metrics).wf(),
            exists|now: u64|
                old(metrics).completion(
                    *final(metrics),
                    self.method@,
                    status_code,
                    #[trigger] spec_elapsed(self.start_time, now),
                    bytes_transferred,
                ),
            final(metrics).request_counts == old(metrics).request_counts,
            final(metrics).times_of(self.method@).len() == old(metrics).times_of(self.method@).len() + 1,
            final(metrics).active_requests == spec_sat_sub(old(metrics).active_requests, 1),
            final(metrics).bytes_transferred == spec_sat_add(old(metrics).bytes_transferred, bytes_transferred),
    {
        let now = metrics.clock.now_ms();
        metrics.record_request_complete(self.method.as_str(), status_code, elapsed(self.start_time, now), bytes_transferred);
        assert(old(metrics).completion(*metrics, self.method@, status_code, spec_elapsed(self.start_time, now), bytes_transferred));
    }

    /// Ends tracking of a request that was given up: records it as an
    /// internal error (500) with no bytes.
    pub fn abandon(self, metrics: &mut DavMetrics)
        requires
            old(metrics).wf(),
        ensures
            final(metrics).wf(),
            final(metrics).request_counts == old(metrics).request_counts,
            final(metrics).times_of(self.method@).len() == old(metrics).times_of(self.method@).len() + 1,
            final(metrics).active_requests == spec_sat_sub(old(metrics).active_requests, 1),
            final(metrics).bytes_transferred == old(metrics).bytes_transferred,
            final(metrics).error_counts.map().contains_key(500),
            exists|now: u64|
                old(metrics).completion(*final(metrics), self.method@, 500, #[trigger] spec_elapsed(self.start_time, now), 0),
    {
        let now = metrics.clock.now_ms();
        metrics.record_request_complete(self.method.as_str(), 500, elapsed(self.start_time, now), 0);
        assert(old(metrics).completion(*metrics, self.method@, 500, spec_elapsed(self.start_time, now), 0));
    }
}


/// The sum of times each between `lo` and `hi` lies between `lo` and `hi`
/// times their number.
proof fn lemma_total_between(times: Seq<u64>, lo: int, hi: int)
    requires
        forall|j: int| 0 <= j < times.len() ==> lo <= #[trigger] times[j] <= hi,
    ensures
        times.len() * lo <= total_of(times) <= times.len() * hi,
    decreases times.len(),
{
    if times.len() > 0 {
        let t = times.drop_last();
        assert forall|j: int| 0 <= j < t.len() implies lo <= #[trigger] t[j] <= hi by {
            assert(t[j] == times[j]);
        }
        lemma_total_between(t, lo, hi);
        assert(times.last() == times[times.len() - 1]);
        assert(times.len() * lo == t.len() * lo + lo) by (nonlinear_arith)
            requires
                times.len() == t.len() + 1,
        ;
        assert(times.len() * hi == t.len() * hi + hi) by (nonlinear_arith)
            requires
                times.len() == t.len() + 1,
        ;
    }
}

/// The mean of some times lies between their least and greatest.
pub proof fn lemma_mean_between(times: Seq<u64>, mn: u64, mx: u64)
    requires
        times.len() > 0,
        is_min_of(mn, times),
        is_max_of(mx, times),
    ensures
        mn <= total_of(times) / times.len() <= mx,
{
    lemma_total_between(times, mn as int, mx as int);
    let n = times.len() as int;
    let t = total_of(times) as int;
    assert(mn <= t / n <= mx) by (nonlinear_arith)
        requires
            n > 0,
            n * (mn as int) <= t <= n * (mx as int),
    ;
}

/// In every snapshot, the request total is the sum of the methods' request
/// counts (held at `u64::MAX`), and each method's least response time is at
/// most its mean, which is at most its greatest.
pub proof fn lemma_snapshot_consistent(m: DavMetrics, r: DavMetricsSnapshot)
    requires
        m.snapshot_valid(r),
    ensures
        r.total_requests == capped(total_of(r.method_stats@.map_values(|e: (String, MethodStats)| e.1.request_count))),
        forall|i: int|
            0 <= i < r.method_stats@.len() ==> #[trigger] r.method_stats@[i].1.min_response_time
                <= r.method_stats@[i].1.avg_response_time <= r.method_stats@[i].1.max_response_time,
{
    let counts = m.request_counts.entries@;
    assert(r.method_stats@.map_values(|e: (String, MethodStats)| e.1.request_count) =~= counts_of(counts)) by {
        assert forall|i: int| 0 <= i < counts.len() implies r.method_stats@.map_values(
            |e: (String, MethodStats)| e.1.request_count,
        )[i] == counts_of(counts)[i] by {
            assert(r.method_stats@[i].0@ == counts[i].0@);
        }
    }
    assert forall|i: int| 0 <= i < r.method_stats@.len() implies #[trigger] r.method_stats@[i].1.min_response_time
        <= r.method_stats@[i].1.avg_response_time <= r.method_stats@[i].1.max_response_time by {
        assert(r.method_stats@[i].0@ == counts[i].0@);
        let st = r.method_stats@[i].1;
        let times = m.times_of(counts[i].0@);
        if times.len() > 0 {
            lemma_mean_between(times, st.min_response_time, st.max_response_time);
        }
    }
}

/// Raising one count of a table by one raises the total by one.
proof fn lemma_total_update(s: Seq<u64>, i: int, v: u64)
    requires
        0 <= i < s.len(),
    ensures
        total_of(s.update(i, v)) == total_of(s) - s[i] + v,
    decreases s.len(),
{
    let u = s.update(i, v);
    if i == s.len() - 1 {
        assert(u.drop_last() =~= s.drop_last());
    } else {
        assert(u.drop_last() =~= s.drop_last().update(i, v));
        lemma_total_update(s.drop_last(), i, v);
    }
}

/// Starting a request whose method's count has not reached `u64::MAX`
/// raises the sum of the method counts, which a snapshot reports as its
/// request total, by one.
pub proof fn lemma_start_counts_one_more(before: DavMetrics, after: DavMetrics, method: Seq<char>)
    requires
        before.counts_after_start(after, method),
        before.request_counts.map().contains_key(method) ==> before.request_counts.map()[method] < u64::MAX,
    ensures
        total_of(counts_of(after.request_counts.entries@)) == total_of(counts_of(before.request_counts.entries@)) + 1,
{
    let c = counts_of(before.request_counts.entries@);
    match position_of(before.request_counts.entries@, method) {
        Some(i) => {
            assert(before.request_counts.map().contains_key(method));
            assert(before.request_counts.map()[method] == c[i]);
            lemma_total_update(c, i, spec_sat_add(c[i], 1));
        },
        None => {
            assert(c.push(1).drop_last() =~= c);
        },
    }
}
} // verus!
