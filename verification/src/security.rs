//! Request security: per-address rate limiting, blocking after repeated
//! authentication failures, validation of paths, body sizes and upload
//! extensions, response security headers, and the security event log.
//!
//! Times are milliseconds on the manager's clock.
use vstd::prelude::*;

use crate::clock::Clock;
use crate::counter::{elapsed, spec_elapsed};
use crate::error::DavError;
use crate::lru::{LruCache, LruKey};
use crate::text::{
    append_chars, append_str, chars_of, contains, contains_seq, decimal, decimal_chars, find_char,
    has_char, rfind_char, slice_chars, str_is, string_from_chars, to_lowercase, lowercase,
};

verus! {

/// An IP address: the 32 bits of an IPv4 address or the 128 bits of an IPv6
/// address.
#[derive(Debug, Clone, Copy, PartialEq, Eq, Hash, Structural)]
pub struct IpAddress {
    pub v6: bool,
    pub bits: u128,
}

impl IpAddress {
    /// The IPv4 address `a.b.c.d`.
    pub fn v4(a: u8, b: u8, c: u8, d: u8) -> (r: IpAddress)
        ensures
            !r.v6,
            r.bits == a * 16777216 + b * 65536 + c * 256 + d,
    {
        IpAddress { v6: false, bits: (a as u128) * 16777216 + (b as u128) * 65536 + (c as u128) * 256 + (d as u128) }
    }

    /// The IPv6 address with the given 128 bits.
    pub fn v6(bits: u128) -> (r: IpAddress)
        ensures
            r.v6,
            r.bits == bits,
    {
        IpAddress { v6: true, bits }
    }
}

impl LruKey for IpAddress {
    type KeyView = IpAddress;

    open spec fn key_view(&self) -> IpAddress {
        *self
    }

    fn key_eq(&self, other: &Self) -> (r: bool) {
        self.v6 == other.v6 && self.bits == other.bits
    }

    fn key_clone(&self) -> (r: Self) {
        *self
    }
}

/// A table of per-address state.
pub type IpTable<V> = LruCache<IpAddress, V>;

/// Security configuration. Durations are in milliseconds.
#[derive(Debug, Clone)]
pub struct SecurityConfig {
    /// Requests allowed per address per minute.
    pub rate_limit_per_minute: u32,
    /// Authentication failures after which an address is blocked.
    pub max_auth_failures: u32,
    /// How long a block lasts.
    pub block_duration: u64,
    /// Largest request body, in bytes.
    pub max_body_size: usize,
    /// Whether responses carry security headers.
    pub enable_security_headers: bool,
    /// Most non-empty segments a request path may have.
    pub max_path_depth: usize,
    /// Extensions accepted for uploads, in lower case.
    pub allowed_extensions: Vec<String>,
}

impl SecurityConfig {
    /// A copy of the configuration.
    pub fn duplicate(&self) -> (r: SecurityConfig)
        ensures
            r.rate_limit_per_minute == self.rate_limit_per_minute,
            r.max_auth_failures == self.max_auth_failures,
            r.block_duration == self.block_duration,
            r.max_body_size == self.max_body_size,
            r.enable_security_headers == self.enable_security_headers,
            r.max_path_depth == self.max_path_depth,
            r.allowed_extensions@ == self.allowed_extensions@,
    {
        let allowed_extensions = self.allowed_extensions.clone();
        assert(allowed_extensions@ =~= self.allowed_extensions@);
        SecurityConfig {
            rate_limit_per_minute: self.rate_limit_per_minute,
            max_auth_failures: self.max_auth_failures,
            block_duration: self.block_duration,
            max_body_size: self.max_body_size,
            enable_security_headers: self.enable_security_headers,
            max_path_depth: self.max_path_depth,
            allowed_extensions,
        }
    }
}

impl Default for SecurityConfig {
    fn default() -> (r: SecurityConfig)
        ensures
            r.rate_limit_per_minute == 60,
            r.max_auth_failures == 5,
            r.block_duration == 300_000,
            r.max_body_size == 10 * 1024 * 1024,
            r.enable_security_headers,
            r.max_path_depth == 10,
            r.allowed_extensions@.len() == 4,
            r.allowed_extensions@[0]@ == "ics"@,
            r.allowed_extensions@[1]@ == "vcf"@,
            r.allowed_extensions@[2]@ == "txt"@,
            r.allowed_extensions@[3]@ == "xml"@,
    {
        let mut allowed: Vec<String> = Vec::new();
        allowed.push(String::from_str("ics"));
        allowed.push(String::from_str("vcf"));
        allowed.push(String::from_str("txt"));
        allowed.push(String::from_str("xml"));
        SecurityConfig {
            rate_limit_per_minute: 60,
            max_auth_failures: 5,
            block_duration: 300_000,
            max_body_size: 10 * 1024 * 1024,
            enable_security_headers: true,
            max_path_depth: 10,
            allowed_extensions: allowed,
        }
    }
}

/// The requests an address made in the current window.
#[derive(Debug, Clone)]
pub struct RateLimitState {
    /// The times of the requests counted.
    pub requests: Vec<u64>,
    /// When the window was last trimmed.
    pub last_cleanup: u64,
}

/// The authentication failures of an address.
#[derive(Debug, Clone, Copy, PartialEq, Eq, Structural)]
pub struct AuthFailureState {
    pub failures: u32,
    pub last_failure: u64,
}

/// A block placed on an address.
#[derive(Debug, Clone)]
pub struct BlockState {
    pub blocked_at: u64,
    pub reason: String,
}

/// What a security event records.
#[derive(Debug, Clone, Copy, PartialEq, Eq, Structural)]
pub enum SecurityEventType {
    RateLimitExceeded,
    AuthenticationFailure,
    IpBlocked,
    SuspiciousRequest,
    InvalidInput,
    AccessDenied,
}

/// An entry of the security event log.
#[derive(Debug, Clone)]
pub struct SecurityEvent {
    /// When the event happened.
    pub timestamp: u64,
    pub event_type: SecurityEventType,
    pub ip_address: Option<IpAddress>,
    pub details: String,
}

impl SecurityEvent {
    /// The event holds exactly the given values.
    pub open spec fn is(self, timestamp: u64, event_type: SecurityEventType, ip: Option<IpAddress>, details: Seq<char>) -> bool {
        self.timestamp == timestamp && self.event_type == event_type && self.ip_address == ip
            && self.details@ == details
    }

    fn copy(&self) -> (r: SecurityEvent)
        ensures
            r == *self,
    {
        SecurityEvent {
            timestamp: self.timestamp,
            event_type: self.event_type,
            ip_address: self.ip_address,
            details: self.details.clone(),
        }
    }
}

/// A summary of the security state.
#[derive(Debug, Clone, Default)]
pub struct SecurityStats {
    /// Addresses currently blocked.
    pub blocked_ips: usize,
    /// Addresses with rate-limiting state.
    pub rate_limited_ips: usize,
    /// Authentication failures counted over all addresses.
    pub auth_failures: u64,
    /// Events in the log.
    pub security_events: usize,
    /// The latest events, newest first, at most ten.
    pub recent_events: Vec<SecurityEvent>,
}

/// Length of the rate-limiting window.
pub const MINUTE_MS: u64 = 60_000;

/// How long rate-limiting state of a quiet address is kept.
pub const RATE_STATE_TTL_MS: u64 = 300_000;

/// Most events kept in the log by a cleanup.
pub const MAX_EVENTS: usize = 1000;

/// Request times later than `cutoff`.
pub open spec fn later_than(cutoff: int) -> spec_fn(u64) -> bool {
    |t: u64| t > cutoff
}

/// The request window of an address at `now`: requests older than a minute
/// are dropped, and the window restarted, once the last trim is more than a
/// minute ago.
pub open spec fn trimmed_window(requests: Seq<u64>, last_cleanup: u64, now: u64) -> (Seq<u64>, u64) {
    if spec_elapsed(last_cleanup, now) > MINUTE_MS {
        (requests.filter(later_than(now - MINUTE_MS)), now)
    } else {
        (requests, last_cleanup)
    }
}

/// The number of non-empty `/`-separated segments among the first `n`
/// characters of `s`.
pub open spec fn segments_in(s: Seq<char>, n: int) -> nat
    decreases n,
{
    if n <= 0 {
        0
    } else {
        segments_in(s, n - 1) + if s[n - 1] != '/' && (n == 1 || s[n - 2] == '/') {
            1nat
        } else {
            0nat
        }
    }
}

/// The depth of a path: its number of non-empty segments.
pub open spec fn path_depth(s: Seq<char>) -> nat {
    segments_in(s, s.len() as int)
}

/// A Unicode control character (general category Cc).
pub open spec fn is_control(c: char) -> bool {
    (c as u32) <= 0x1f || (0x7f <= (c as u32) && (c as u32) <= 0x9f)
}

/// `s` holds a control character other than a tab.
pub open spec fn has_control(s: Seq<char>) -> bool {
    exists|i: int| 0 <= i < s.len() && is_control(s[i]) && s[i] != '\t'
}

/// The message a depth violation is reported with.
pub open spec fn depth_message(depth: nat, max: nat) -> Seq<char> {
    "Path depth "@ + decimal(depth) + " exceeds maximum "@ + decimal(max)
}

/// Why a path is refused, if it is: the first failed check, in the order
/// depth, traversal, null byte, control character.
pub open spec fn path_problem(path: Seq<char>, max_depth: nat) -> Option<Seq<char>> {
    if path_depth(path) > max_depth {
        Some(depth_message(path_depth(path), max_depth))
    } else if contains_seq(path, ".."@) || contains_seq(path, "./"@) || contains_seq(path, "\\"@) {
        Some("Path contains invalid characters or traversal attempts"@)
    } else if has_char(path, '\0') {
        Some("Path contains null bytes"@)
    } else if has_control(path) {
        Some("Path contains control characters"@)
    } else {
        None
    }
}

/// The text after the last `.` of `s`, or all of `s` when it has none.
pub open spec fn last_dot_segment(s: Seq<char>) -> Seq<char> {
    if has_char(s, '.') {
        let i = choose|i: int| 0 <= i < s.len() && s[i] == '.' && forall|j: int| i < j < s.len() ==> s[j] != '.';
        s.subrange(i + 1, s.len() as int)
    } else {
        s
    }
}

/// The extension of a file name, in lower case.
pub open spec fn file_extension(name: Seq<char>) -> Seq<char> {
    lowercase(last_dot_segment(name))
}

/// `ext` is one of the allowed extensions.
pub open spec fn extension_allowed(allowed: Seq<String>, ext: Seq<char>) -> bool {
    exists|i: int| 0 <= i < allowed.len() && #[trigger] allowed[i]@ == ext
}

/// The security headers, in the order they are produced.
pub open spec fn security_header(i: int) -> (Seq<char>, Seq<char>) {
    if i == 0 {
        ("Content-Security-Policy"@, "default-src 'self'; script-src 'none'; object-src 'none'"@)
    } else if i == 1 {
        ("X-Frame-Options"@, "DENY"@)
    } else if i == 2 {
        ("X-Content-Type-Options"@, "nosniff"@)
    } else if i == 3 {
        ("Referrer-Policy"@, "strict-origin-when-cross-origin"@)
    } else {
        ("Permissions-Policy"@, "geolocation=(), microphone=(), camera=()"@)
    }
}

/// Sum of the failure counts of a table's entries.
pub open spec fn failure_total(s: Seq<(IpAddress, AuthFailureState)>) -> nat
    decreases s.len(),
{
    if s.len() == 0 {
        0
    } else {
        failure_total(s.drop_last()) + s.last().1.failures as nat
    }
}

/// Blocks still running at `now`.
pub open spec fn block_live(now: u64, duration: u64) -> spec_fn((IpAddress, BlockState)) -> bool {
    |e: (IpAddress, BlockState)| spec_elapsed(e.1.blocked_at, now) < duration
}

/// Failure records still recent at `now`.
pub open spec fn failure_live(now: u64, duration: u64) -> spec_fn((IpAddress, AuthFailureState)) -> bool {
    |e: (IpAddress, AuthFailureState)| spec_elapsed(e.1.last_failure, now) < duration
}

/// Rate-limiting state still recent at `now`.
pub open spec fn rate_live(now: u64) -> spec_fn((IpAddress, RateLimitState)) -> bool {
    |e: (IpAddress, RateLimitState)| spec_elapsed(e.1.last_cleanup, now) < RATE_STATE_TTL_MS
}

/// The security manager.
pub struct DavSecurity {
    pub config: SecurityConfig,
    /// Rate-limiting state by address.
    pub rate_limits: IpTable<RateLimitState>,
    /// Authentication failures by address.
    pub auth_failures: IpTable<AuthFailureState>,
    /// Blocked addresses.
    pub blocked_ips: IpTable<BlockState>,
    /// The event log, oldest first.
    pub security_events: Vec<SecurityEvent>,
    pub clock: Clock,
}

impl DavSecurity {
    /// The manager's invariant: no address occurs twice in a table.
    pub open spec fn wf(&self) -> bool {
        self.rate_limits.wf() && self.auth_failures.wf() && self.blocked_ips.wf()
    }

    /// `ip` is under a block that has not run out at `now`.
    pub open spec fn is_blocked_at(&self, ip: IpAddress, now: u64) -> bool {
        self.blocked_ips.map().contains_key(ip) && spec_elapsed(
            self.blocked_ips.map()[ip].blocked_at,
            now,
        ) < self.config.block_duration
    }

    /// The request window of `ip` at `now`, before the current request.
    pub open spec fn window_at(&self, ip: IpAddress, now: u64) -> (Seq<u64>, u64) {
        if self.rate_limits.map().contains_key(ip) {
            trimmed_window(
                self.rate_limits.map()[ip].requests@,
                self.rate_limits.map()[ip].last_cleanup,
                now,
            )
        } else {
            (Seq::empty(), now)
        }
    }

    /// The failure count of `ip` after one more failure.
    pub open spec fn next_failure_count(&self, ip: IpAddress) -> u32 {
        let prev = if self.auth_failures.map().contains_key(ip) {
            self.auth_failures.map()[ip].failures
        } else {
            0
        };
        if prev < u32::MAX {
            (prev + 1) as u32
        } else {
            u32::MAX
        }
    }

    /// A manager with empty tables and log.
    pub fn new(config: SecurityConfig) -> (r: DavSecurity)
        ensures
            r.wf(),
            r.config.rate_limit_per_minute == config.rate_limit_per_minute,
            r.config.max_auth_failures == config.max_auth_failures,
            r.config.block_duration == config.block_duration,
            r.config.max_body_size == config.max_body_size,
            r.config.enable_security_headers == config.enable_security_headers,
            r.config.max_path_depth == config.max_path_depth,
            r.config.allowed_extensions@ == config.allowed_extensions@,
            r.rate_limits.entries@.len() == 0,
            r.auth_failures.entries@.len() == 0,
            r.blocked_ips.entries@.len() == 0,
            r.security_events@.len() == 0,
    {
        DavSecurity {
            config,
            rate_limits: LruCache::new(usize::MAX),
            auth_failures: LruCache::new(usize::MAX),
            blocked_ips: LruCache::new(usize::MAX),
            security_events: Vec::new(),
            clock: Clock::start(),
        }
    }

    /// What checking a request from `ip` at `now` does, from this state to
    /// `after`, returning `r`: a running block refuses it with 403 and
    /// changes nothing; otherwise an expired block is lifted, the address's
    /// window is trimmed, and a full window refuses the request with 429 and
    /// logs the event, while any other request is counted.
    pub open spec fn rate_checked(self, after: DavSecurity, ip: IpAddress, now: u64, r: Result<(), DavError>) -> bool {
        &&& after.config.rate_limit_per_minute == self.config.rate_limit_per_minute
        &&& after.config.max_auth_failures == self.config.max_auth_failures
        &&& after.config.block_duration == self.config.block_duration
        &&& after.config.max_path_depth == self.config.max_path_depth
        &&& after.config.max_body_size == self.config.max_body_size
        &&& after.config.enable_security_headers == self.config.enable_security_headers
        &&& after.config.allowed_extensions@ =~= self.config.allowed_extensions@
        &&& after.auth_failures == self.auth_failures
        &&& self.is_blocked_at(ip, now) ==> {
            &&& r matches Err(e) && e.is_auth("IP address is blocked"@, 403)
            &&& after.rate_limits == self.rate_limits
            &&& after.blocked_ips == self.blocked_ips
            &&& after.security_events@ =~= self.security_events@
        }
        &&& !self.is_blocked_at(ip, now) ==> {
            let (reqs, lc) = self.window_at(ip, now);
            &&& after.blocked_ips.map() =~= self.blocked_ips.map().remove(ip)
            &&& after.rate_limits.map().dom() =~= self.rate_limits.map().dom().insert(ip)
            &&& after.rate_limits.map().remove(ip) =~= self.rate_limits.map().remove(ip)
            &&& after.rate_limits.map()[ip].last_cleanup == lc
            &&& if reqs.len() >= self.config.rate_limit_per_minute {
                &&& r matches Err(e) && e.is_auth("Rate limit exceeded"@, 429)
                &&& after.rate_limits.map()[ip].requests@ =~= reqs
                &&& after.security_events@.len() == self.security_events@.len() + 1
                &&& after.security_events@.drop_last() =~= self.security_events@
                &&& after.security_events@.last().is(
                    now,
                    SecurityEventType::RateLimitExceeded,
                    Some(ip),
                    "Rate limit exceeded: "@ + decimal(reqs.len()) + " requests in last minute"@,
                )
            } else {
                &&& r is Ok
                &&& after.rate_limits.map()[ip].requests@ =~= reqs.push(now)
                &&& after.security_events@ =~= self.security_events@
            }
        }
    }

    /// Checks a request from `ip` now against its block and its rate limit.
    pub fn check_rate_limit(&mut self, ip: IpAddress) -> (r: Result<(), DavError>)
        requires
            old(self).wf(),
        ensures
            final(self).wf(),
            exists|now: u64| #[trigger] old(self).rate_checked(*final(self), ip, now, r),
    {
        let now = self.clock.now_ms();
        let r = self.check_rate_limit_at(ip, now);
        assert(old(self).rate_checked(*self, ip, now, r));
        r
    }

    /// Checks a request from `ip` at `now`. A running block refuses it with
    /// 403 and changes nothing; an expired block is lifted. The address's
    /// window is then trimmed; a full window refuses the request with 429
    /// and logs the event, any other request is counted.
    pub fn check_rate_limit_at(&mut self, ip: IpAddress, now: u64) -> (r: Result<(), DavError>)
        requires
            old(self).wf(),
        ensures
            final(self).wf(),
            old(self).rate_checked(*final(self), ip, now, r),
    {
        match self.blocked_ips.get(&ip) {
            Some(block) => {
                if elapsed(block.blocked_at, now) < self.config.block_duration {
                    return Err(DavError::auth("IP address is blocked", 403));
                }
            },
            None => {},
        }
        self.blocked_ips.remove(&ip);
        let state = match self.rate_limits.remove(&ip) {
            Some(s) => s,
            None => RateLimitState { requests: Vec::new(), last_cleanup: now },
        };
        let state = if elapsed(state.last_cleanup, now) > MINUTE_MS {
            RateLimitState { requests: requests_after(&state.requests, now - MINUTE_MS), last_cleanup: now }
        } else {
            state
        };
        let count = state.requests.len();
        if count >= self.config.rate_limit_per_minute as usize {
            self.rate_limits.insert(ip, state);
            let details = rate_message(count);
            self.security_events.push(
                SecurityEvent {
                    timestamp: now,
                    event_type: SecurityEventType::RateLimitExceeded,
                    ip_address: Some(ip),
                    details,
                },
            );
            return Err(DavError::auth("Rate limit exceeded", 429));
        }
        let mut state = state;
        state.requests.push(now);
        self.rate_limits.insert(ip, state);
        Ok(())
    }

    /// What recording an authentication failure of `ip` for `reason` at
    /// `now` does, from this state to `after`: the address's count goes up
    /// by one (held at `u32::MAX`) and the failure is logged; once the count
    /// reaches the configured maximum the address is blocked from `now` and
    /// the block is logged.
    pub open spec fn auth_failure_recorded(self, after: DavSecurity, ip: IpAddress, reason: Seq<char>, now: u64) -> bool {
        let count = self.next_failure_count(ip);
        let failure = "Authentication failure: "@ + reason + " (attempt "@ + decimal(count as nat) + ")"@;
        let n = self.security_events@.len();
        &&& after.config.rate_limit_per_minute == self.config.rate_limit_per_minute
        &&& after.config.max_auth_failures == self.config.max_auth_failures
        &&& after.config.block_duration == self.config.block_duration
        &&& after.config.allowed_extensions@ =~= self.config.allowed_extensions@
        &&& after.rate_limits == self.rate_limits
        &&& after.auth_failures.map() =~= self.auth_failures.map().insert(
            ip,
            AuthFailureState { failures: count, last_failure: now },
        )
        &&& after.security_events@.subrange(0, n as int) =~= self.security_events@
        &&& after.security_events@[n as int].is(now, SecurityEventType::AuthenticationFailure, Some(ip), failure)
        &&& if count >= self.config.max_auth_failures {
            &&& after.security_events@.len() == n + 2
            &&& after.security_events@[n + 1int].is(
                now,
                SecurityEventType::IpBlocked,
                Some(ip),
                "IP blocked due to "@ + decimal(count as nat) + " authentication failures"@,
            )
            &&& after.blocked_ips.map().dom() =~= self.blocked_ips.map().dom().insert(ip)
            &&& after.blocked_ips.map().remove(ip) =~= self.blocked_ips.map().remove(ip)
            &&& after.blocked_ips.map()[ip].blocked_at == now
            &&& after.blocked_ips.map()[ip].reason@ =~= "Too many authentication failures ("@ + decimal(
                count as nat,
            ) + ")"@
        } else {
            &&& after.security_events@.len() == n + 1
            &&& after.blocked_ips == self.blocked_ips
        }
    }

    /// Records an authentication failure of `ip` now.
    pub fn record_auth_failure(&mut self, ip: IpAddress, reason: &str)
        requires
            old(self).wf(),
        ensures
            final(self).wf(),
            exists|now: u64| #[trigger] old(self).auth_failure_recorded(*final(self), ip, reason@, now),
    {
        let now = self.clock.now_ms();
        self.record_auth_failure_at(ip, reason, now);
        assert(old(self).auth_failure_recorded(*self, ip, reason@, now));
    }

    /// Records an authentication failure of `ip` at `now`: its count goes up
    /// by one (held at `u32::MAX`) and the failure is logged; once the count
    /// reaches the configured maximum the address is blocked from `now` and
    /// the block is logged.
    pub fn record_auth_failure_at(&mut self, ip: IpAddress, reason: &str, now: u64)
        requires
            old(self).wf(),
        ensures
            final(self).wf(),
            old(self).auth_failure_recorded(*final(self), ip, reason@, now),
    {
        let prev = match self.auth_failures.get(&ip) {
            Some(s) => s.failures,
            None => 0,
        };
        let count = if prev < u32::MAX {
            prev + 1
        } else {
            u32::MAX
        };
        self.auth_failures.insert(ip, AuthFailureState { failures: count, last_failure: now });
        let details = failure_message(reason, count);
        self.security_events.push(
            SecurityEvent {
                timestamp: now,
                event_type: SecurityEventType::AuthenticationFailure,
                ip_address: Some(ip),
                details,
            },
        );
        if count >= self.config.max_auth_failures {
            let reason = blocked_reason(count);
            self.blocked_ips.insert(ip, BlockState { blocked_at: now, reason });
            let details = blocked_message(count);
            self.security_events.push(
                SecurityEvent {
                    timestamp: now,
                    event_type: SecurityEventType::IpBlocked,
                    ip_address: Some(ip),
                    details,
                },
            );
        }
    }

    /// Checks a request path: depth, traversal sequences, null bytes and
    /// control characters other than tab, in that order.
    pub fn validate_path(&self, path: &str) -> (r: Result<(), DavError>)
        ensures
            match path_problem(path@, self.config.max_path_depth as nat) {
                None => r is Ok,
                Some(m) => r matches Err(e) && e.is_validation(m, "path"@),
            },
    {
        let cs = chars_of(path);
        let depth = count_segments(cs.as_slice());
        if depth > self.config.max_path_depth {
            let m = depth_text(depth, self.config.max_path_depth);
            return Err(DavError::validation_with_field(m.as_str(), "path"));
        }
        let dots = chars_of("..");
        let dot_slash = chars_of("./");
        let backslash = chars_of("\\");
        if contains(cs.as_slice(), dots.as_slice()) || contains(cs.as_slice(), dot_slash.as_slice())
            || contains(cs.as_slice(), backslash.as_slice()) {
            return Err(
                DavError::validation_with_field(
                    "Path contains invalid characters or traversal attempts",
                    "path",
                ),
            );
        }
        if find_char(cs.as_slice(), '\0').is_some() {
            return Err(DavError::validation_with_field("Path contains null bytes", "path"));
        }
        if has_control_char(cs.as_slice()) {
            return Err(DavError::validation_with_field("Path contains control characters", "path"));
        }
        Ok(())
    }

    /// Checks a request body size against the maximum.
    pub fn validate_body_size(&self, size: usize) -> (r: Result<(), DavError>)
        ensures
            size <= self.config.max_body_size ==> r is Ok,
            size > self.config.max_body_size ==> (r matches Err(e) && e.is_validation(
                "Request body size "@ + decimal(size as nat) + " exceeds maximum "@ + decimal(
                    self.config.max_body_size as nat,
                ),
                "content-length"@,
            )),
    {
        if size > self.config.max_body_size {
            let mut t: Vec<char> = Vec::new();
            append_str(&mut t, "Request body size ");
            let a = decimal_chars(size as u64);
            append_chars(&mut t, a.as_slice());
            append_str(&mut t, " exceeds maximum ");
            let b = decimal_chars(self.config.max_body_size as u64);
            append_chars(&mut t, b.as_slice());
            let m = string_from_chars(t.as_slice());
            return Err(DavError::validation_with_field(m.as_str(), "content-length"));
        }
        Ok(())
    }

    /// Checks the extension of an uploaded file: the text after its last
    /// `.` (all of it when there is none), in lower case, must be allowed.
    pub fn validate_file_extension(&self, filename: &str) -> (r: Result<(), DavError>)
        ensures
            extension_allowed(self.config.allowed_extensions@, file_extension(filename@)) ==> r is Ok,
            !extension_allowed(self.config.allowed_extensions@, file_extension(filename@)) ==> (r matches Err(
                e,
            ) && e.is_validation(
                "File extension '"@ + file_extension(filename@) + "' is not allowed"@,
                "filename"@,
            )),
    {
        let cs = chars_of(filename);
        let seg = last_segment(cs.as_slice());
        let segs = string_from_chars(seg.as_slice());
        let ext = to_lowercase(segs.as_str());
        let mut i: usize = 0;
        while i < self.config.allowed_extensions.len()
            invariant
                i <= self.config.allowed_extensions@.len(),
                ext@ == file_extension(filename@),
                forall|j: int| 0 <= j < i ==> #[trigger] self.config.allowed_extensions@[j]@ != ext@,
            decreases self.config.allowed_extensions.len() - i,
        {
            if str_is(self.config.allowed_extensions[i].as_str(), ext.as_str()) {
                return Ok(());
            }
            i = i + 1;
        }
        let mut t: Vec<char> = Vec::new();
        append_str(&mut t, "File extension '");
        append_str(&mut t, ext.as_str());
        append_str(&mut t, "' is not allowed");
        let m = string_from_chars(t.as_slice());
        Err(DavError::validation_with_field(m.as_str(), "filename"))
    }

    /// The security headers of a response: five name/value pairs when they
    /// are enabled, none otherwise.
    pub fn generate_security_headers(&self) -> (r: Vec<(String, String)>)
        ensures
            !self.config.enable_security_headers ==> r@.len() == 0,
            self.config.enable_security_headers ==> r@.len() == 5 && forall|i: int|
                0 <= i < 5 ==> (#[trigger] r@[i].0@, r@[i].1@) == security_header(i),
    {
        let mut headers: Vec<(String, String)> = Vec::new();
        if self.config.enable_security_headers {
            headers.push(
                (
                    String::from_str("Content-Security-Policy"),
                    String::from_str("default-src 'self'; script-src 'none'; object-src 'none'"),
                ),
            );
            headers.push((String::from_str("X-Frame-Options"), String::from_str("DENY")));
            headers.push((String::from_str("X-Content-Type-Options"), String::from_str("nosniff")));
            headers.push(
                (String::from_str("Referrer-Policy"), String::from_str("strict-origin-when-cross-origin")),
            );
            headers.push(
                (
                    String::from_str("Permissions-Policy"),
                    String::from_str("geolocation=(), microphone=(), camera=()"),
                ),
            );
        }
        headers
    }

    /// Whether `r` reports this manager's table sizes, failure total and newest events, newest first.
    pub open spec fn reports_stats(&self, r: SecurityStats) -> bool {
        &&& (r.blocked_ips == self.blocked_ips.entries@.len())
        &&& (r.rate_limited_ips == self.rate_limits.entries@.len())
        &&& (r.auth_failures == if failure_total(self.auth_failures.entries@) <= u64::MAX {
            failure_total(self.auth_failures.entries@)
        } else {
            u64::MAX as nat
        })
        &&& (r.security_events == self.security_events@.len())
        &&& (r.recent_events@.len() == if self.security_events@.len() < 10 {
            self.security_events@.len()
        } else {
            10
        })
        &&& (forall|i: int|
            0 <= i < r.recent_events@.len() ==> #[trigger] r.recent_events@[i]
                == self.security_events@[self.security_events@.len() - 1 - i])
    }

    /// A summary of the state: table sizes, the failure total (held at
    /// `u64::MAX`), the log length and the ten latest events, newest first.
    pub fn get_security_stats(&self) -> (r: SecurityStats)
        ensures
            self.reports_stats(r),
    {
        let entries = self.auth_failures.iter();
        let mut total: u64 = 0;
        let mut i: usize = 0;
        while i < entries.len()
            invariant
                i <= entries@.len(),
                entries@ == self.auth_failures.entries@,
                total == if failure_total(entries@.take(i as int)) <= u64::MAX {
                    failure_total(entries@.take(i as int))
                } else {
                    u64::MAX as nat
                },
            decreases entries.len() - i,
        {
            assert(entries@.take(i + 1).drop_last() =~= entries@.take(i as int));
            let f = entries[i].1.failures as u64;
            total = if total <= u64::MAX - f {
                total + f
            } else {
                u64::MAX
            };
            i = i + 1;
        }
        assert(entries@.take(i as int) =~= entries@);
        let n = self.security_events.len();
        let mut recent: Vec<SecurityEvent> = Vec::new();
        let mut k: usize = 0;
        while k < n && k < 10
            invariant
                n == self.security_events@.len(),
                k <= n,
                k <= 10,
                recent@.len() == k,
                forall|j: int| 0 <= j < k ==> #[trigger] recent@[j] == self.security_events@[n - 1 - j],
            decreases n - k,
        {
            recent.push(self.security_events[n - 1 - k].copy());
            k = k + 1;
        }
        SecurityStats {
            blocked_ips: self.blocked_ips.len(),
            rate_limited_ips: self.rate_limits.len(),
            auth_failures: total,
            security_events: n,
            recent_events: recent,
        }
    }

    /// What a cleanup at `now` does, from this state to `after`: expired
    /// blocks, stale failure counts and idle rate windows are dropped, and
    /// only the newest `MAX_EVENTS` events are kept.
    pub open spec fn cleaned(self, after: DavSecurity, now: u64) -> bool {
        &&& after.config.block_duration == self.config.block_duration
        &&& after.config.rate_limit_per_minute == self.config.rate_limit_per_minute
        &&& after.config.max_auth_failures == self.config.max_auth_failures
        &&& after.blocked_ips.entries@ =~= self.blocked_ips.entries@.filter(
            block_live(now, self.config.block_duration),
        )
        &&& after.auth_failures.entries@ =~= self.auth_failures.entries@.filter(
            failure_live(now, self.config.block_duration),
        )
        &&& after.rate_limits.entries@ =~= self.rate_limits.entries@.filter(rate_live(now))
        &&& after.security_events@ =~= if self.security_events@.len() > MAX_EVENTS {
            self.security_events@.subrange(
                self.security_events@.len() - MAX_EVENTS,
                self.security_events@.len() as int,
            )
        } else {
            self.security_events@
        }
    }

    /// Drops expired state now.
    pub fn cleanup(&mut self)
        requires
            old(self).wf(),
        ensures
            final(self).wf(),
            exists|now: u64| #[trigger] old(self).cleaned(*final(self), now),
    {
        let now = self.clock.now_ms();
        self.cleanup_at(now);
        assert(old(self).cleaned(*self, now));
    }

    /// Drops state expired at `now`: blocks and failure records older than
    /// the block duration, rate state untouched for five minutes, and all
    /// but the latest thousand events.
    pub fn cleanup_at(&mut self, now: u64)
        requires
            old(self).wf(),
        ensures
            final(self).wf(),
            old(self).cleaned(*final(self), now),
    {
        let duration = self.config.block_duration;
        let live_block = |e: &(IpAddress, BlockState)| -> (b: bool)
            ensures
                b == (spec_elapsed(e.1.blocked_at, now) < duration),
            { elapsed(e.1.blocked_at, now) < duration };
        self.blocked_ips.retain_where(live_block, Ghost(block_live(now, duration)));
        let live_failure = |e: &(IpAddress, AuthFailureState)| -> (b: bool)
            ensures
                b == (spec_elapsed(e.1.last_failure, now) < duration),
            { elapsed(e.1.last_failure, now) < duration };
        self.auth_failures.retain_where(live_failure, Ghost(failure_live(now, duration)));
        let live_rate = |e: &(IpAddress, RateLimitState)| -> (b: bool)
            ensures
                b == (spec_elapsed(e.1.last_cleanup, now) < RATE_STATE_TTL_MS),
            { elapsed(e.1.last_cleanup, now) < RATE_STATE_TTL_MS };
        self.rate_limits.retain_where(live_rate, Ghost(rate_live(now)));
        let n = self.security_events.len();
        if n > MAX_EVENTS {
            let kept = self.security_events.split_off(n - MAX_EVENTS);
            self.security_events = kept;
        }
    }
}

/// The request times of `requests` later than `cutoff`, in order.
fn requests_after(requests: &Vec<u64>, cutoff: u64) -> (r: Vec<u64>)
    ensures
        r@ == requests@.filter(later_than(cutoff as int)),
{
    let ghost pred = later_than(cutoff as int);
    let mut r: Vec<u64> = Vec::new();
    let mut i: usize = 0;
    assert(requests@.take(0).filter(pred) =~= Seq::<u64>::empty()) by {
        reveal(Seq::filter);
    }
    while i < requests.len()
        invariant
            i <= requests@.len(),
            pred == later_than(cutoff as int),
            r@ == requests@.take(i as int).filter(pred),
        decreases requests.len() - i,
    {
        proof {
            assert(requests@.take(i + 1) =~= requests@.take(i as int).push(requests@[i as int]));
            requests@.take(i as int).lemma_filter_push(requests@[i as int], pred);
        }
        if requests[i] > cutoff {
            r.push(requests[i]);
        }
        i = i + 1;
    }
    assert(requests@.take(i as int) =~= requests@);
    r
}

/// The number of non-empty `/`-separated segments of `s`.
fn count_segments(s: &[char]) -> (r: usize)
    ensures
        r == path_depth(s@),
{
    let mut n: usize = 0;
    let mut i: usize = 0;
    while i < s.len()
        invariant
            i <= s@.len(),
            n == segments_in(s@, i as int),
            n <= i,
        decreases s.len() - i,
    {
        if s[i] != '/' && (i == 0 || s[i - 1] == '/') {
            n = n + 1;
        }
        i = i + 1;
    }
    n
}

/// Whether `s` holds a control character other than a tab.
fn has_control_char(s: &[char]) -> (r: bool)
    ensures
        r == has_control(s@),
{
    let mut i: usize = 0;
    while i < s.len()
        invariant
            i <= s@.len(),
            forall|j: int| 0 <= j < i ==> !(is_control(s@[j]) && s@[j] != '\t'),
        decreases s.len() - i,
    {
        let c = s[i];
        let v = c as u32;
        if (v <= 0x1f || (0x7f <= v && v <= 0x9f)) && c != '\t' {
            return true;
        }
        i = i + 1;
    }
    false
}

/// The text after the last `.` of `s`, or all of `s`.
fn last_segment(s: &[char]) -> (r: Vec<char>)
    ensures
        r@ == last_dot_segment(s@),
{
    match rfind_char(s, '.') {
        Some(i) => {
            proof {
                let w = choose|k: int|
                    0 <= k < s@.len() && s@[k] == '.' && forall|j: int| k < j < s@.len() ==> s@[j] != '.';
                assert(has_char(s@, '.'));
                if w < i {
                    assert(s@[i as int] != '.');
                } else if w > i {
                    assert(s@[w] != '.');
                }
            }
            let n = s.len();
            slice_chars(s, i + 1, n)
        },
        None => {
            let r = slice_chars(s, 0, s.len());
            assert(r@ =~= s@);
            r
        },
    }
}

fn depth_text(depth: usize, max: usize) -> (r: String)
    ensures
        r@ == depth_message(depth as nat, max as nat),
{
    let mut t: Vec<char> = Vec::new();
    append_str(&mut t, "Path depth ");
    let a = decimal_chars(depth as u64);
    append_chars(&mut t, a.as_slice());
    append_str(&mut t, " exceeds maximum ");
    let b = decimal_chars(max as u64);
    append_chars(&mut t, b.as_slice());
    string_from_chars(t.as_slice())
}

fn rate_message(count: usize) -> (r: String)
    ensures
        r@ == "Rate limit exceeded: "@ + decimal(count as nat) + " requests in last minute"@,
{
    let mut t: Vec<char> = Vec::new();
    append_str(&mut t, "Rate limit exceeded: ");
    let a = decimal_chars(count as u64);
    append_chars(&mut t, a.as_slice());
    append_str(&mut t, " requests in last minute");
    string_from_chars(t.as_slice())
}

fn failure_message(reason: &str, count: u32) -> (r: String)
    ensures
        r@ == "Authentication failure: "@ + reason@ + " (attempt "@ + decimal(count as nat) + ")"@,
{
    let mut t: Vec<char> = Vec::new();
    append_str(&mut t, "Authentication failure: ");
    append_str(&mut t, reason);
    append_str(&mut t, " (attempt ");
    let a = decimal_chars(count as u64);
    append_chars(&mut t, a.as_slice());
    append_str(&mut t, ")");
    string_from_chars(t.as_slice())
}

fn blocked_reason(count: u32) -> (r: String)
    ensures
        r@ == "Too many authentication failures ("@ + decimal(count as nat) + ")"@,
{
    let mut t: Vec<char> = Vec::new();
    append_str(&mut t, "Too many authentication failures (");
    let a = decimal_chars(count as u64);
    append_chars(&mut t, a.as_slice());
    append_str(&mut t, ")");
    string_from_chars(t.as_slice())
}

fn blocked_message(count: u32) -> (r: String)
    ensures
        r@ == "IP blocked due to "@ + decimal(count as nat) + " authentication failures"@,
{
    let mut t: Vec<char> = Vec::new();
    append_str(&mut t, "IP blocked due to ");
    let a = decimal_chars(count as u64);
    append_chars(&mut t, a.as_slice());
    append_str(&mut t, " authentication failures");
    string_from_chars(t.as_slice())
}

/// A block placed at `now` refuses the address at `now` whenever blocks
/// last at all: once `record_auth_failure_at` blocks an address,
/// `check_rate_limit_at` refuses it.
pub proof fn lemma_block_refuses(s: DavSecurity, ip: IpAddress, now: u64)
    requires
        s.blocked_ips.map().contains_key(ip),
        s.blocked_ips.map()[ip].blocked_at == now,
        s.config.block_duration > 0,
    ensures
        s.is_blocked_at(ip, now),
{
}

/// Within a minute of the last trim, a window that holds as many requests
/// as the limit stays full: the next request is refused.
pub proof fn lemma_full_window_refuses(requests: Seq<u64>, last_cleanup: u64, now: u64, limit: u32)
    requires
        requests.len() >= limit,
        spec_elapsed(last_cleanup, now) <= MINUTE_MS,
    ensures
        trimmed_window(requests, last_cleanup, now).0.len() >= limit,
{
}

} // verus!
