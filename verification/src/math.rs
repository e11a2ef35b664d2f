//! Fixed-point arithmetic helpers.
//!
//! All geometric quantities in this crate are integers in micro-units:
//! one millimetre is `ONE` coordinate units, one radian is `ONE` angle
//! units.  Division truncates toward zero, mirroring the rounding the
//! rest of the crate states in its contracts.

use vstd::prelude::*;

verus! {

/// Fixed-point scale: micro-units per unit (mm, radian, mm/min).
pub const ONE: i64 = 1_000_000;

/// Largest admitted coordinate, in micro-mm.  Resolved positions
/// saturate here, which keeps every later computation in range.
pub const MAX_POS: i64 = 1_000_000_000_000_000;

/// Largest admitted command-argument value (after no scaling), in
/// micro-units.
pub const MAX_ARG: i64 = 1_000_000_000_000;

/// Largest value an argument can reach after unit scaling (times 254/100).
pub const MAX_SCALED: i64 = 2_540_000_000_000;

/// The absolute value.
pub open spec fn spec_abs(v: int) -> int {
    if v >= 0 {
        v
    } else {
        -v
    }
}

/// Truncating (toward zero) division of `p` by `d`, for `d > 0`.
pub open spec fn spec_trunc_div(p: int, d: int) -> int {
    if p >= 0 {
        p / d
    } else {
        -((-p) / d)
    }
}

/// `a * n / d` with truncating division.
pub open spec fn spec_mul_div(a: int, n: int, d: int) -> int {
    spec_trunc_div(a * n, d)
}

/// Saturate a coordinate to the admitted range.
pub open spec fn spec_sat(v: int) -> int {
    if v > MAX_POS {
        MAX_POS as int
    } else if v < -MAX_POS {
        -MAX_POS as int
    } else {
        v
    }
}

/// Saturate a coordinate to `[-MAX_POS, MAX_POS]`.
pub fn sat_pos(v: i64) -> (r: i64)
    ensures
        r == spec_sat(v as int),
{
    if v > MAX_POS {
        MAX_POS
    } else if v < -MAX_POS {
        -MAX_POS
    } else {
        v
    }
}

/// Computes `a * n / d`, truncating toward zero.
pub fn mul_div(a: i64, n: i64, d: i64) -> (r: i64)
    requires
        d > 0,
        -(i64::MAX as int) <= spec_mul_div(a as int, n as int, d as int) <= i64::MAX as int,
    ensures
        r == spec_mul_div(a as int, n as int, d as int),
{
    proof {
        assert(-0x40000000000000000000000000000000
            <= (a as int) * (n as int)
            <= 0x40000000000000000000000000000000) by (nonlinear_arith)
            requires
                -0x8000000000000000 <= a as int <= 0x7fffffffffffffff,
                -0x8000000000000000 <= n as int <= 0x7fffffffffffffff,
        ;
    }
    let p: i128 = (a as i128) * (n as i128);
    let di: u128 = d as u128;
    if p >= 0 {
        let q: u128 = (p as u128) / di;
        proof {
            assert(p as u128 == a as int * n as int);
            assert(q == (a as int * n as int) / (d as int));
        }
        q as i64
    } else {
        let q: u128 = ((-p) as u128) / di;
        proof {
            assert((-p) as u128 == -(a as int * n as int));
            assert(q == (-(a as int * n as int)) / (d as int));
        }
        -(q as i64)
    }
}

/// The integer square root: the unique `r` with `r * r <= n < (r + 1) * (r + 1)`.
pub fn isqrt(n: u128) -> (r: u64)
    requires
        n <= 1_000_000_000_000_000_000_000_000_000_000_000_000,
    ensures
        (r as int) * (r as int) <= n as int,
        (n as int) < (r as int + 1) * (r as int + 1),
{
    let mut lo: u128 = 0;
    let mut hi: u128 = 1_000_000_000_000_000_001;
    proof {
        assert((1_000_000_000_000_000_001 as int) * (1_000_000_000_000_000_001 as int)
            > 1_000_000_000_000_000_000_000_000_000_000_000_000) by (nonlinear_arith);
    }
    while lo + 1 < hi
        invariant
            lo < hi <= 1_000_000_000_000_000_001,
            (lo as int) * (lo as int) <= n as int,
            (n as int) < (hi as int) * (hi as int),
        decreases hi - lo,
    {
        let mid: u128 = lo + (hi - lo) / 2;
        if mid <= n / mid {
            proof {
                assert((mid as int) * (mid as int) <= n as int) by (nonlinear_arith)
                    requires
                        mid as int <= (n as int) / (mid as int),
                        mid as int > 0,
                        n as int >= 0,
                ;
            }
            lo = mid;
        } else {
            proof {
                assert((n as int) < (mid as int) * (mid as int)) by (nonlinear_arith)
                    requires
                        mid as int > (n as int) / (mid as int),
                        mid as int > 0,
                        n as int >= 0,
                ;
            }
            hi = mid;
        }
    }
    lo as u64
}

/// A truncating quotient is bounded by the quotient of the bound.
pub proof fn lemma_trunc_div_bound(p: int, d: int, b: int)
    requires
        d > 0,
        0 <= b,
        -b <= p <= b,
    ensures
        -(b / d) <= spec_trunc_div(p, d) <= b / d,
{
    if p >= 0 {
        vstd::arithmetic::div_mod::lemma_div_is_ordered(p, b, d);
        vstd::arithmetic::div_mod::lemma_div_pos_is_pos(p, d);
    } else {
        vstd::arithmetic::div_mod::lemma_div_is_ordered(-p, b, d);
        vstd::arithmetic::div_mod::lemma_div_pos_is_pos(-p, d);
    }
}

/// Uniqueness of the integer square root.
pub proof fn lemma_isqrt_unique(n: int, a: int, b: int)
    requires
        0 <= a,
        0 <= b,
        a * a <= n < (a + 1) * (a + 1),
        b * b <= n < (b + 1) * (b + 1),
    ensures
        a == b,
{
    if a < b {
        assert((a + 1) * (a + 1) <= b * b) by (nonlinear_arith)
            requires
                0 <= a,
                a + 1 <= b,
        ;
    }
    if b < a {
        assert((b + 1) * (b + 1) <= a * a) by (nonlinear_arith)
            requires
                0 <= b,
                b + 1 <= a,
        ;
    }
}

} // verus!
