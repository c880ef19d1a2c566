//! Time, counted in nanoseconds since the program started.

use vstd::prelude::*;

verus! {

pub const MILLISECOND: u64 = 1_000_000;

pub const SECOND: u64 = 1_000_000_000;

/// How long ago `then` was; nothing where it lies ahead.
pub open spec fn elapsed(then: u64, now: u64) -> int {
    if now >= then {
        now - then
    } else {
        0
    }
}

/// How long ago `then` was; nothing where it lies ahead.
pub fn since(then: u64, now: u64) -> (r: u64)
    ensures
        r == elapsed(then, now),
{
    if now >= then {
        now - then
    } else {
        0
    }
}

/// The moment `wait` from now (the end of time where that lies beyond it).
pub open spec fn later(now: u64, wait: u64) -> int {
    if now + wait > u64::MAX {
        u64::MAX as int
    } else {
        now + wait
    }
}

/// The moment `wait` from now.
pub fn after(now: u64, wait: u64) -> (r: u64)
    ensures
        r == later(now, wait),
{
    if now > u64::MAX - wait {
        u64::MAX
    } else {
        now + wait
    }
}

} // verus!
