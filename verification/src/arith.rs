//! Saturating and ceiling arithmetic on `u64`.
use vstd::prelude::*;

verus! {

/// `a * b`, saturated at `u64::MAX`.
pub open spec fn spec_sat_mul(a: u64, b: u64) -> u64 {
    if a * b > u64::MAX {
        u64::MAX
    } else {
        (a * b) as u64
    }
}

/// `a + b`, saturated at `u64::MAX`.
pub open spec fn spec_sat_add(a: u64, b: u64) -> u64 {
    if a + b > u64::MAX {
        u64::MAX
    } else {
        (a + b) as u64
    }
}

/// Ceiling of `n / d`.
pub open spec fn spec_div_ceil(n: u64, d: u64) -> u64
    recommends
        d > 0,
{
    ((n + d - 1) / (d as int)) as u64
}

/// Saturating multiplication, as `u64::saturating_mul`.
pub fn sat_mul(a: u64, b: u64) -> (r: u64)
    ensures
        r == spec_sat_mul(a, b),
{
    if b == 0 {
        assert(a * b == 0) by (nonlinear_arith)
            requires
                b == 0,
        ;
        0
    } else if a > u64::MAX / b {
        assert(a * b > u64::MAX) by (nonlinear_arith)
            requires
                b > 0,
                a > u64::MAX / b,
        ;
        u64::MAX
    } else {
        assert(a * b <= u64::MAX) by (nonlinear_arith)
            requires
                b > 0,
                a <= u64::MAX / b,
        ;
        a * b
    }
}

/// Saturating addition, as `u64::saturating_add`.
pub fn sat_add(a: u64, b: u64) -> (r: u64)
    ensures
        r == spec_sat_add(a, b),
{
    if a > u64::MAX - b {
        u64::MAX
    } else {
        a + b
    }
}

/// Ceiling division, as `u64::div_ceil`.
pub fn div_ceil(n: u64, d: u64) -> (r: u64)
    requires
        d > 0,
    ensures
        r == spec_div_ceil(n, d),
{
    let q = n / d;
    let rem = n % d;
    proof {
        assert(n == d * q + rem && rem < d) by (nonlinear_arith)
            requires
                d > 0,
                q == n / d,
                rem == n % d,
        ;
        assert((n + d - 1) / (d as int) == q + if rem == 0 { 0int } else { 1int }) by (nonlinear_arith)
            requires
                d > 0,
                n == d * q + rem,
                0 <= rem < d,
        ;
    }
    if rem == 0 {
        q
    } else {
        assert(q < u64::MAX) by (nonlinear_arith)
            requires
                d > 0,
                n == d * q + rem,
                0 < rem,
                n <= u64::MAX,
                q >= 0,
        ;
        q + 1
    }
}

} // verus!
