//! Rates over paired counter snapshots: the difference of two cumulative
//! counters divided by the elapsed time.

use vstd::arithmetic::div_mod::lemma_div_multiples_vanish_quotient;
use vstd::prelude::*;

verus! {

/// A counter delta turned into a per-second rate: `d` counted units over
/// `ms` milliseconds, rounded down, saturating at the counter width.  A
/// non-positive interval yields zero.
pub open spec fn rate_of(d: int, ms: int) -> int {
    if ms <= 0 {
        0
    } else {
        let v = d * 1000 / ms;
        if v > u64::MAX {
            u64::MAX as int
        } else {
            v
        }
    }
}

/// The per-second rate between two cumulative counter readings: a counter
/// that moved backwards counts as unchanged.
pub open spec fn speed_of(pre: u64, post: u64, elapsed_ms: u64) -> int {
    rate_of(if post >= pre { post - pre } else { 0 }, elapsed_ms as int)
}

/// Turn a counter delta into a per-second rate.
pub fn rate_per_second(pre: u64, post: u64, elapsed_ms: u64) -> (r: u64)
    requires
        elapsed_ms >= 1,
    ensures
        r == speed_of(pre, post, elapsed_ms),
{
    let d: u64 = if post >= pre {
        post - pre
    } else {
        0
    };
    let w: u128 = d as u128 * 1000 / (elapsed_ms as u128);
    if w > u64::MAX as u128 {
        u64::MAX
    } else {
        w as u64
    }
}

/// A rate always fits the counter width.
pub proof fn lemma_rate_bounds(pre: u64, post: u64, elapsed_ms: u64)
    ensures
        0 <= speed_of(pre, post, elapsed_ms) <= u64::MAX,
{
    if elapsed_ms >= 1 {
        let d: int = if post >= pre { post - pre } else { 0 };
        vstd::arithmetic::div_mod::lemma_div_pos_is_pos(d * 1000, elapsed_ms as int);
    }
}

/// Rates are linear in elapsed time: scaling the counter delta and the
/// interval by the same positive factor leaves the computed rate
/// unchanged.
pub proof fn lemma_rate_scale_invariant(d: int, ms: int, k: int)
    requires
        k >= 1,
        d >= 0,
    ensures
        rate_of(k * d, k * ms) == rate_of(d, ms),
{
    if ms <= 0 {
        assert(k * ms <= 0) by (nonlinear_arith)
            requires
                k >= 1 && ms <= 0,
        ;
    } else {
        assert(k * ms > 0) by (nonlinear_arith)
            requires
                k >= 1 && ms > 0,
        ;
        lemma_div_multiples_vanish_quotient(k, d * 1000, ms);
        assert(k * (d * 1000) == (k * d) * 1000) by (nonlinear_arith);
        assert((k * d) * 1000 / (k * ms) == d * 1000 / ms);
    }
}

} // verus!
