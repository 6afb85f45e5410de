//! Fixed-point arithmetic for samples and coefficients.
//!
//! A real quantity `r` is held as the integer `r * SCALE`, in an `i64`.
//! Products and quotients are formed exactly in wider integers and brought
//! back to the scale by a division that rounds toward zero; only a value
//! that is finally stored is limited to what an `i64` holds.

use vstd::prelude::*;

verus! {

/// Number of units that make up the real value one.
pub const SCALE: i64 = 1_000_000;

/// The quotient of `n` by `d`, rounded toward zero.
pub open spec fn trunc_div(n: int, d: int) -> int
    recommends
        d > 0,
{
    if n >= 0 {
        n / d
    } else {
        -((-n) / d)
    }
}

/// The value of `i64` that lies nearest to `v`.
pub open spec fn saturate(v: int) -> i64 {
    if v > i64::MAX {
        i64::MAX
    } else if v < i64::MIN {
        i64::MIN
    } else {
        v as i64
    }
}

/// Fixed-point product of `a` and `b`.
pub open spec fn fx_mul(a: int, b: int) -> int {
    trunc_div(a * b, SCALE as int)
}

/// Divides `n` by the positive `d`, rounding toward zero.
pub fn div_toward_zero(n: i128, d: i128) -> (q: i128)
    requires
        d > 0,
        n > i128::MIN,
    ensures
        q == trunc_div(n as int, d as int),
{
    if n >= 0 {
        n / d
    } else {
        let m: i128 = -n;
        let p: i128 = m / d;
        -p
    }
}

/// Brings a wide value into the range of a stored sample.
pub fn saturate_to_sample(v: i128) -> (s: i64)
    ensures
        s == saturate(v as int),
{
    if v > i64::MAX as i128 {
        i64::MAX
    } else if v < i64::MIN as i128 {
        i64::MIN
    } else {
        v as i64
    }
}

/// A quotient rounded toward zero is no larger in magnitude than its
/// numerator and has the numerator's sign or is zero.
pub proof fn lemma_trunc_div_bounds(n: int, d: int)
    requires
        d > 0,
    ensures
        n >= 0 ==> 0 <= trunc_div(n, d) <= n,
        n <= 0 ==> n <= trunc_div(n, d) <= 0,
        n == 0 ==> trunc_div(n, d) == 0,
{
    if n >= 0 {
        assert(0 <= n / d <= n) by (nonlinear_arith)
            requires
                n >= 0,
                d > 0,
        ;
    } else {
        let m = -n;
        assert(0 <= m / d <= m) by (nonlinear_arith)
            requires
                m >= 0,
                d > 0,
        ;
    }
}

} // verus!
