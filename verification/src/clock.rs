//! Time, in nanoseconds of a clock that never runs backwards.

use vstd::prelude::*;

verus! {

/// One second.
pub const SECOND: u64 = 1_000_000_000;

/// One minute.
pub const MINUTE: u64 = 60_000_000_000;

/// The time from `earlier` to `now`, zero where `earlier` lies ahead.
pub open spec fn since(now: nat, earlier: nat) -> nat {
    if now >= earlier {
        (now - earlier) as nat
    } else {
        0
    }
}

/// The time from `earlier` to `now`, zero where `earlier` lies ahead.
pub fn elapsed(now: u64, earlier: u64) -> (r: u64)
    ensures
        r == since(now as nat, earlier as nat),
{
    if now >= earlier {
        now - earlier
    } else {
        0
    }
}

} // verus!
