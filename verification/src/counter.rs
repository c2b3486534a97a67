//! Counters and time arithmetic shared by the components' statistics.
use vstd::prelude::*;

verus! {

/// `x + y`, held at `u64::MAX` instead of overflowing.
pub open spec fn spec_sat_add(x: u64, y: u64) -> u64 {
    if x + y <= u64::MAX {
        (x + y) as u64
    } else {
        u64::MAX
    }
}

/// `x + y`, held at `u64::MAX` instead of overflowing.
pub fn sat_add(x: u64, y: u64) -> (r: u64)
    ensures
        r == spec_sat_add(x, y),
{
    if x <= u64::MAX - y {
        x + y
    } else {
        u64::MAX
    }
}

/// Milliseconds from `since` to `now`; zero when `now` is earlier.
pub open spec fn spec_elapsed(since: u64, now: u64) -> u64 {
    if now >= since {
        (now - since) as u64
    } else {
        0
    }
}

/// Milliseconds from `since` to `now`; zero when `now` is earlier.
pub fn elapsed(since: u64, now: u64) -> (r: u64)
    ensures
        r == spec_elapsed(since, now),
{
    if now >= since {
        now - since
    } else {
        0
    }
}

/// `x + 1`, wrapping to zero.
pub open spec fn wrap_inc(x: u64) -> u64 {
    if x < u64::MAX {
        (x + 1) as u64
    } else {
        0
    }
}

/// `x - 1`, wrapping to `u64::MAX`.
pub open spec fn wrap_dec(x: u64) -> u64 {
    if x > 0 {
        (x - 1) as u64
    } else {
        u64::MAX
    }
}

pub fn inc(x: u64) -> (r: u64)
    ensures
        r == wrap_inc(x),
{
    if x < u64::MAX {
        x + 1
    } else {
        0
    }
}

pub fn dec(x: u64) -> (r: u64)
    ensures
        r == wrap_dec(x),
{
    if x > 0 {
        x - 1
    } else {
        u64::MAX
    }
}

} // verus!
