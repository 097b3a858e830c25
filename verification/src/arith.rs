//! Integer helpers.

use vstd::prelude::*;

verus! {

/// `value / divisor` rounded up.
pub open spec fn ceil_div(value: int, divisor: int) -> int {
    (value + divisor - 1) / divisor
}

/// `value / divisor` rounded up.
pub fn div_ceil(value: u64, divisor: u64) -> (quotient: u64)
    requires
        divisor > 0,
    ensures
        quotient == ceil_div(value as int, divisor as int),
        quotient <= value,
        value <= quotient * divisor,
        value > 0 ==> (quotient - 1) * divisor < value,
{
    let floor: u64 = value / divisor;
    let rest: u64 = value % divisor;
    proof {
        let v = value as int;
        let d = divisor as int;
        let q = v / d;
        let r = v % d;
        assert(v == q * d + r && 0 <= r < d) by (nonlinear_arith)
            requires
                d > 0,
                q == v / d,
                r == v % d,
        ;
        let up = if r == 0 { q } else { q + 1 };
        assert(up == (v + d - 1) / d) by (nonlinear_arith)
            requires
                d > 0,
                v == q * d + r,
                0 <= r < d,
                up == (if r == 0 { q } else { q + 1 }),
        ;
        assert(up <= v && v <= up * d && (v > 0 ==> (up - 1) * d < v)) by (nonlinear_arith)
            requires
                d > 0,
                v >= 0,
                v == q * d + r,
                0 <= r < d,
                up == (if r == 0 { q } else { q + 1 }),
        ;
    }
    if rest == 0 {
        floor
    } else {
        floor + 1
    }
}

/// The smaller of two integers.
pub fn min_u64(left: u64, right: u64) -> (smaller: u64)
    ensures
        smaller == (if left <= right { left } else { right }),
{
    if left <= right {
        left
    } else {
        right
    }
}

/// `value` moved into the interval from `low` to `high`.
pub open spec fn clamped(value: u64, low: u64, high: u64) -> u64 {
    if value < low {
        low
    } else if value > high {
        high
    } else {
        value
    }
}

/// `value` moved into the interval from `low` to `high`.
pub fn clamp_u64(value: u64, low: u64, high: u64) -> (result: u64)
    requires
        low <= high,
    ensures
        result == clamped(value, low, high),
{
    if value < low {
        low
    } else if value > high {
        high
    } else {
        value
    }
}

} // verus!
