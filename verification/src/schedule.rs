use vstd::prelude::*;

verus! {

/// Nanoseconds in one second.
pub const NANOS_PER_SEC: u128 = 1_000_000_000;

/// A whole number of seconds in nanoseconds.
pub open spec fn secs_nanos(secs: u64) -> nat {
    (secs * 1_000_000_000) as nat
}

/// How long to wait before the next cycle when the one that just ended took
/// `elapsed`: whatever is left of `interval`, or `fallback` when the cycle
/// used it all up.
pub open spec fn next_wait(interval: nat, elapsed: nat, fallback: nat) -> nat {
    if elapsed < interval {
        (interval - elapsed) as nat
    } else {
        fallback
    }
}

pub fn secs_to_nanos(secs: u64) -> (n: u128)
    ensures
        n == secs_nanos(secs),
{
    assert(secs * 1_000_000_000 <= u64::MAX * 1_000_000_000) by (nonlinear_arith);
    (secs as u128) * NANOS_PER_SEC
}

/// Computes `next_wait`, all durations in nanoseconds.
pub fn wait_after(interval: u128, elapsed: u128, fallback: u128) -> (w: u128)
    ensures
        w == next_wait(interval as nat, elapsed as nat, fallback as nat),
{
    if elapsed < interval {
        interval - elapsed
    } else {
        fallback
    }
}

/// The cadence of a loop that waits `next_wait` between cycles: a cycle
/// that ends early is followed by a wait that brings the period back to
/// exactly `interval`; one that overruns is followed by `fallback`; so the
/// time from one cycle's start to the next is never below `interval`, and
/// no wait exceeds the larger of `interval` and `fallback`.
pub proof fn lemma_cadence(interval: nat, elapsed: nat, fallback: nat)
    ensures
        elapsed < interval ==> elapsed + next_wait(interval, elapsed, fallback) == interval,
        elapsed >= interval ==> next_wait(interval, elapsed, fallback) == fallback,
        elapsed + next_wait(interval, elapsed, fallback) >= interval,
        next_wait(interval, elapsed, fallback) <= if interval >= fallback {
            interval
        } else {
            fallback
        },
{
}

} // verus!
