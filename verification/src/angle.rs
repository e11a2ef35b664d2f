//! Fixed-point angles and trigonometry.
//!
//! Angles are integers in micro-radians; `HALF_TURN` micro-radians make
//! half a turn.  The sine and arctangent use exact integer rational
//! approximations (Bhaskara's sine, a quadratic arctangent) whose
//! values the contracts state precisely; at multiples of a quarter turn
//! and on the axes they agree with the exact functions.

use vstd::prelude::*;

use vstd::arithmetic::div_mod::lemma_fundamental_div_mod;
use vstd::arithmetic::div_mod::lemma_fundamental_div_mod_converse_mod;
use vstd::arithmetic::div_mod::lemma_add_mod_noop;
use vstd::arithmetic::div_mod::lemma_mod_twice;
use vstd::arithmetic::div_mod::lemma_mod_bound;
use vstd::arithmetic::div_mod::lemma_small_mod;

use crate::math::ONE;

verus! {

/// Half a turn (pi radians) in micro-radians, rounded to a multiple of four.
pub const HALF_TURN: i64 = 3_141_592;

/// A quarter turn (pi / 2).
pub const QUARTER_TURN: i64 = 1_570_796;

/// An eighth of a turn (pi / 4).
pub const EIGHTH_TURN: i64 = 785_398;

/// A full turn (two pi).
pub const FULL_TURN: i64 = 6_283_184;

/// The quadratic correction coefficient of the arctangent
/// approximation (0.273 radians, in micro-radians).
pub const ATAN_ADJ: i64 = 273_000;

/// The signed difference of two angles, normalized into
/// `[-HALF_TURN, HALF_TURN)`.
pub open spec fn spec_signed_delta(a: int, b: int) -> int {
    (a - b + HALF_TURN) % (FULL_TURN as int) - HALF_TURN
}

/// The Euclidean remainder of `v` modulo `m`, in `[0, m)`.
pub fn euclid_mod(v: i128, m: i64) -> (r: i64)
    requires
        0 < m,
        i128::MIN < v,
    ensures
        r == (v as int) % (m as int),
        0 <= r < m,
{
    let mu: u128 = m as u128;
    if v >= 0 {
        let t: u128 = (v as u128) % mu;
        proof {
            assert(v as u128 == v as int);
            assert(t == (v as int) % (m as int));
        }
        t as i64
    } else {
        let t: u128 = ((-v) as u128) % mu;
        proof {
            let vi = v as int;
            let mi = m as int;
            assert((-v) as u128 == -vi);
            assert(t == (-vi) % mi);
            lemma_fundamental_div_mod(-vi, mi);
            let q = (-vi) / mi;
            if t == 0 {
                assert(vi == (-q) * mi + 0) by (nonlinear_arith)
                    requires
                        -vi == q * mi + 0,
                ;
                lemma_fundamental_div_mod_converse_mod(vi, mi, -q, 0);
            } else {
                assert(vi == (-q - 1) * mi + (mi - t)) by (nonlinear_arith)
                    requires
                        -vi == q * mi + t as int,
                ;
                lemma_fundamental_div_mod_converse_mod(vi, mi, -q - 1, mi - t);
            }
        }
        if t == 0 {
            0
        } else {
            m - (t as i64)
        }
    }
}

/// The signed difference used for swivel detection:
/// `((a - b + pi) mod two-pi) - pi`, always in `[-pi, pi)`.
pub fn signed_angle(a: i64, b: i64) -> (r: i64)
    ensures
        r == spec_signed_delta(a as int, b as int),
        -HALF_TURN <= r < HALF_TURN,
{
    let d: i128 = a as i128 - b as i128 + HALF_TURN as i128;
    let m = euclid_mod(d, FULL_TURN);
    m - HALF_TURN
}

/// The signed difference is a half-turn-bounded angle, and shifting
/// either argument by a full turn does not change it.
pub proof fn lemma_signed_delta_normalization(a: int, b: int)
    ensures
        -HALF_TURN <= spec_signed_delta(a, b) < HALF_TURN,
        spec_signed_delta(a + FULL_TURN, b) == spec_signed_delta(a, b),
        spec_signed_delta(a, b + FULL_TURN) == spec_signed_delta(a, b),
{
    let f = FULL_TURN as int;
    lemma_mod_bound(a - b + HALF_TURN, f);
    vstd::arithmetic::div_mod::lemma_mod_multiples_vanish(1, a - b + HALF_TURN, f);
    assert(1 * f + (a - b + HALF_TURN) == a + FULL_TURN - b + HALF_TURN);
    vstd::arithmetic::div_mod::lemma_mod_multiples_vanish(-1, a - b + HALF_TURN, f);
    assert((-1) * f + (a - b + HALF_TURN) == a - (b + FULL_TURN) + HALF_TURN);
}

/// Bhaskara's rational sine approximation on `[0, HALF_TURN]`,
/// scaled by `ONE`.  It is exact at 0, `QUARTER_TURN` and `HALF_TURN`.
pub open spec fn spec_bhaskara(x: int) -> int {
    (ONE * (16 * (x * (HALF_TURN - x)))) / (5 * HALF_TURN * HALF_TURN - 4 * (x * (HALF_TURN
        - x)))
}

/// The fixed-point sine of any angle, scaled by `ONE`.
pub open spec fn spec_sin(theta: int) -> int {
    let a = theta % (FULL_TURN as int);
    if a < HALF_TURN {
        spec_bhaskara(a)
    } else {
        -spec_bhaskara(a - HALF_TURN)
    }
}

/// The fixed-point cosine of any angle, scaled by `ONE`.
pub open spec fn spec_cos(theta: int) -> int {
    spec_sin(theta + QUARTER_TURN)
}

/// Bhaskara's approximation stays within `[0, ONE]` on `[0, HALF_TURN]`
/// and takes its exact values at the ends and the middle.
pub proof fn lemma_bhaskara_range(x: int)
    requires
        0 <= x <= HALF_TURN,
    ensures
        0 <= spec_bhaskara(x) <= ONE,
        x == 0 ==> spec_bhaskara(x) == 0,
        x == HALF_TURN ==> spec_bhaskara(x) == 0,
        x == QUARTER_TURN ==> spec_bhaskara(x) == ONE,
{
    let h = HALF_TURN as int;
    let p = x * (h - x);
    let num = (ONE as int) * (16 * p);
    let den = 5 * h * h - 4 * p;
    assert(0 <= p && 4 * p <= h * h) by (nonlinear_arith)
        requires
            p == x * (h - x),
            0 <= x <= h,
    ;
    assert(0 <= num && num <= (ONE as int) * den) by (nonlinear_arith)
        requires
            0 <= p,
            4 * p <= h * h,
            num == (ONE as int) * (16 * p),
            den == 5 * h * h - 4 * p,
            h == HALF_TURN as int,
    ;
    assert(den > 0);
    vstd::arithmetic::div_mod::lemma_div_is_ordered(num, (ONE as int) * den, den);
    vstd::arithmetic::div_mod::lemma_div_multiples_vanish(ONE as int, den);
    vstd::arithmetic::div_mod::lemma_div_pos_is_pos(num, den);
    assert(spec_bhaskara(x) == num / den);
    if x == 0 {
        assert(num == 0) by (nonlinear_arith)
            requires
                num == (ONE as int) * (16 * (0 * (h - 0))),
        ;
    }
    if x == HALF_TURN {
        assert(num == 0) by (nonlinear_arith)
            requires
                num == (ONE as int) * (16 * (h * (h - h))),
        ;
    }
    if num == 0 {
        assert(num / den == 0) by {
            vstd::arithmetic::div_mod::lemma_basic_div(num, den);
        }
    }
    if x == QUARTER_TURN {
        assert(num == (ONE as int) * den) by (nonlinear_arith)
            requires
                p == x * (h - x),
                x == QUARTER_TURN as int,
                h == HALF_TURN as int,
                num == (ONE as int) * (16 * p),
                den == 5 * h * h - 4 * p,
        ;
    }
}

/// Bhaskara's sine approximation, evaluated exactly.
fn bhaskara(x: i64) -> (r: i64)
    requires
        0 <= x <= HALF_TURN,
    ensures
        r == spec_bhaskara(x as int),
        0 <= r <= ONE,
{
    proof {
        lemma_bhaskara_range(x as int);
        assert(0 <= (x as int) * (HALF_TURN - x as int) && 4 * ((x as int) * (HALF_TURN
            - x as int)) <= HALF_TURN * HALF_TURN) by (nonlinear_arith)
            requires
                0 <= x as int <= HALF_TURN,
        ;
    }
    let p: u64 = (x as u64) * ((HALF_TURN - x) as u64);
    let num: u128 = (ONE as u128) * ((16 * p) as u128);
    let den: u64 = (5 * HALF_TURN * HALF_TURN) as u64 - 4 * p;
    proof {
        assert(num == (ONE as int) * (16 * ((x as int) * (HALF_TURN - x as int))));
        assert(den == 5 * HALF_TURN * HALF_TURN - 4 * ((x as int) * (HALF_TURN - x as int)));
    }
    let q: u128 = num / (den as u128);
    q as i64
}

/// The fixed-point sine.  Exact (0, `ONE`, 0, `-ONE`) at the four
/// quarter-turn points.
pub fn sin_fp(theta: i64) -> (r: i64)
    ensures
        r == spec_sin(theta as int),
        -ONE <= r <= ONE,
{
    let a = euclid_mod(theta as i128, FULL_TURN);
    if a < HALF_TURN {
        bhaskara(a)
    } else {
        let s = bhaskara(a - HALF_TURN);
        -s
    }
}

/// The fixed-point cosine: the sine a quarter turn ahead.
pub fn cos_fp(theta: i64) -> (r: i64)
    ensures
        r == spec_cos(theta as int),
        -ONE <= r <= ONE,
{
    let a = euclid_mod(theta as i128, FULL_TURN);
    let r = sin_fp(a + QUARTER_TURN);
    proof {
        let f = FULL_TURN as int;
        let t = theta as int;
        lemma_mod_twice(t, f);
        lemma_add_mod_noop(t, QUARTER_TURN as int, f);
        lemma_add_mod_noop(a as int, QUARTER_TURN as int, f);
        lemma_small_mod(QUARTER_TURN as nat, f as nat);
        assert((a + QUARTER_TURN) % f == (t + QUARTER_TURN) % f);
    }
    r
}

/// The quadratic arctangent approximation on `[0, ONE]`, in
/// micro-radians: `atan(t) ~ (pi/4) t + 0.273 t (1 - t)`.
pub open spec fn spec_atan_unit(t: int) -> int {
    (EIGHTH_TURN * t + ATAN_ADJ * t * (ONE - t) / (ONE as int)) / (ONE as int)
}

/// The approximation stays within `[0, QUARTER_TURN)` and is exact at
/// the ends of its range.
pub proof fn lemma_atan_unit_range(t: int)
    requires
        0 <= t <= ONE,
    ensures
        0 <= spec_atan_unit(t) < QUARTER_TURN,
        t == 0 ==> spec_atan_unit(t) == 0,
        t == ONE ==> spec_atan_unit(t) == EIGHTH_TURN,
{
    let one = ONE as int;
    let c = ATAN_ADJ * t * (one - t);
    let e = EIGHTH_TURN * t;
    assert(0 <= c <= ATAN_ADJ * (one * one) && 0 <= e <= EIGHTH_TURN * one) by (nonlinear_arith)
        requires
            0 <= t <= one,
            c == ATAN_ADJ * t * (one - t),
            e == EIGHTH_TURN * t,
            one == ONE as int,
    ;
    vstd::arithmetic::div_mod::lemma_div_pos_is_pos(c, one);
    vstd::arithmetic::div_mod::lemma_div_is_ordered(c, ATAN_ADJ * (one * one), one);
    assert(ATAN_ADJ * (one * one) == (ATAN_ADJ * one) * one) by (nonlinear_arith);
    vstd::arithmetic::div_mod::lemma_div_multiples_vanish(ATAN_ADJ * one, one);
    let sum = e + c / one;
    assert(0 <= sum <= EIGHTH_TURN * one + ATAN_ADJ * one);
    vstd::arithmetic::div_mod::lemma_div_pos_is_pos(sum, one);
    vstd::arithmetic::div_mod::lemma_div_is_ordered(
        sum,
        (EIGHTH_TURN + ATAN_ADJ) * one,
        one,
    );
    assert((EIGHTH_TURN + ATAN_ADJ) * one == EIGHTH_TURN * one + ATAN_ADJ * one)
        by (nonlinear_arith);
    vstd::arithmetic::div_mod::lemma_div_multiples_vanish(EIGHTH_TURN + ATAN_ADJ, one);
    assert(spec_atan_unit(t) == sum / one);
    if t == 0 {
        assert(c == 0 && e == 0) by (nonlinear_arith)
            requires
                c == ATAN_ADJ * 0 * (one - 0),
                e == EIGHTH_TURN * 0,
        ;
        vstd::arithmetic::div_mod::lemma_basic_div(c, one);
        vstd::arithmetic::div_mod::lemma_basic_div(sum, one);
    }
    if t == one {
        assert(c == 0) by (nonlinear_arith)
            requires
                c == ATAN_ADJ * t * (one - t),
                t == one,
        ;
        vstd::arithmetic::div_mod::lemma_basic_div(c, one);
        assert(sum == EIGHTH_TURN * one);
        vstd::arithmetic::div_mod::lemma_div_multiples_vanish(EIGHTH_TURN as int, one);
    }
}

/// The fixed-point two-argument arctangent: the polar angle of the
/// in-plane vector `(x, y)`, in `[-HALF_TURN, HALF_TURN]` micro-radians.
pub open spec fn spec_atan2(y: int, x: int) -> int {
    if y == 0 {
        if x >= 0 {
            0
        } else {
            HALF_TURN as int
        }
    } else {
        let ay = if y >= 0 { y } else { -y };
        let ax = if x >= 0 { x } else { -x };
        let base = if ax >= ay {
            spec_atan_unit(ay * ONE / ax)
        } else {
            QUARTER_TURN - spec_atan_unit(ax * ONE / ay)
        };
        let mag = if x >= 0 { base } else { HALF_TURN - base };
        if y > 0 {
            mag
        } else {
            -mag
        }
    }
}

/// The polar angle approximation is range-bounded and exact on the
/// coordinate axes and the diagonals.
pub proof fn lemma_atan2_cases(y: int, x: int)
    ensures
        -HALF_TURN <= spec_atan2(y, x) <= HALF_TURN,
        y == 0 && x >= 0 ==> spec_atan2(y, x) == 0,
        y == 0 && x < 0 ==> spec_atan2(y, x) == HALF_TURN,
        x == 0 && y > 0 ==> spec_atan2(y, x) == QUARTER_TURN,
        x == 0 && y < 0 ==> spec_atan2(y, x) == -QUARTER_TURN,
        y == x && y > 0 ==> spec_atan2(y, x) == EIGHTH_TURN,
{
    if y != 0 {
        let ay = if y >= 0 { y } else { -y };
        let ax = if x >= 0 { x } else { -x };
        if ax >= ay {
            let t = ay * ONE / ax;
            assert(0 <= t <= ONE) by {
                assert(ay * ONE <= ax * ONE) by (nonlinear_arith)
                    requires
                        0 <= ay <= ax,
                ;
                vstd::arithmetic::div_mod::lemma_div_is_ordered(ay * ONE, ax * ONE, ax);
                vstd::arithmetic::div_mod::lemma_div_multiples_vanish(ONE as int, ax);
                vstd::arithmetic::div_mod::lemma_div_pos_is_pos(ay * ONE, ax);
            }
            lemma_atan_unit_range(t);
            if x == 0 {
                assert(ax == 0 && ay > 0);
                assert(false);
            }
            if y == x && y > 0 {
                assert(t == ONE) by {
                    vstd::arithmetic::div_mod::lemma_div_multiples_vanish(ONE as int, ax);
                    assert(ay * ONE == ONE * ax);
                }
            }
        } else {
            let t = ax * ONE / ay;
            assert(0 <= t <= ONE) by {
                assert(ax * ONE <= ay * ONE) by (nonlinear_arith)
                    requires
                        0 <= ax <= ay,
                ;
                vstd::arithmetic::div_mod::lemma_div_is_ordered(ax * ONE, ay * ONE, ay);
                vstd::arithmetic::div_mod::lemma_div_multiples_vanish(ONE as int, ay);
                vstd::arithmetic::div_mod::lemma_div_pos_is_pos(ax * ONE, ay);
            }
            lemma_atan_unit_range(t);
            if x == 0 {
                assert(t == 0) by {
                    vstd::arithmetic::div_mod::lemma_div_pos_is_pos(0, ay);
                }
            }
        }
    }
}

/// The fixed-point polar angle of `(x, y)`.
pub fn atan2_fp(y: i64, x: i64) -> (r: i64)
    requires
        -4_000_000_000_000_000 <= y <= 4_000_000_000_000_000,
        -4_000_000_000_000_000 <= x <= 4_000_000_000_000_000,
    ensures
        r == spec_atan2(y as int, x as int),
        -HALF_TURN <= r <= HALF_TURN,
{
    proof {
        lemma_atan2_cases(y as int, x as int);
    }
    if y == 0 {
        if x >= 0 {
            0
        } else {
            HALF_TURN
        }
    } else {
        let ay: i64 = if y >= 0 { y } else { -y };
        let ax: i64 = if x >= 0 { x } else { -x };
        let base: i64 = if ax >= ay {
            let t = ((ay as i128 * ONE as i128) as u128 / (ax as u128)) as i64;
            proof {
                assert(ay as i128 * ONE as i128 == ay as int * ONE) by (nonlinear_arith)
                    requires
                        ay as i128 == ay as int,
                ;
                assert((ay as int * ONE) as u128 == ay as int * ONE);
                assert(0 <= ay as int * ONE / (ax as int) <= ONE) by {
                    assert(ay as int * ONE <= ax as int * ONE) by (nonlinear_arith)
                        requires
                            0 <= ay as int <= ax as int,
                    ;
                    vstd::arithmetic::div_mod::lemma_div_is_ordered(
                        ay as int * ONE,
                        ax as int * ONE,
                        ax as int,
                    );
                    vstd::arithmetic::div_mod::lemma_div_multiples_vanish(ONE as int, ax as int);
                    vstd::arithmetic::div_mod::lemma_div_pos_is_pos(ay as int * ONE, ax as int);
                }
            }
            atan_unit(t)
        } else {
            let t = ((ax as i128 * ONE as i128) as u128 / (ay as u128)) as i64;
            proof {
                assert(ax as i128 * ONE as i128 == ax as int * ONE) by (nonlinear_arith)
                    requires
                        ax as i128 == ax as int,
                ;
                assert((ax as int * ONE) as u128 == ax as int * ONE);
                assert(0 <= ax as int * ONE / (ay as int) <= ONE) by {
                    assert(ax as int * ONE <= ay as int * ONE) by (nonlinear_arith)
                        requires
                            0 <= ax as int <= ay as int,
                    ;
                    vstd::arithmetic::div_mod::lemma_div_is_ordered(
                        ax as int * ONE,
                        ay as int * ONE,
                        ay as int,
                    );
                    vstd::arithmetic::div_mod::lemma_div_multiples_vanish(ONE as int, ay as int);
                    vstd::arithmetic::div_mod::lemma_div_pos_is_pos(ax as int * ONE, ay as int);
                }
            }
            QUARTER_TURN - atan_unit(t)
        };
        let mag: i64 = if x >= 0 {
            base
        } else {
            HALF_TURN - base
        };
        if y > 0 {
            mag
        } else {
            -mag
        }
    }
}

/// The quadratic arctangent approximation on `[0, ONE]`.
fn atan_unit(t: i64) -> (r: i64)
    requires
        0 <= t <= ONE,
    ensures
        r == spec_atan_unit(t as int),
        0 <= r < QUARTER_TURN,
{
    proof {
        lemma_atan_unit_range(t as int);
        assert(0 <= ATAN_ADJ * (t as int) * (ONE - t as int) <= ATAN_ADJ * (ONE as int) * (
        ONE as int)) by (nonlinear_arith)
            requires
                0 <= t as int <= ONE,
        ;
        assert(ATAN_ADJ * (t as int) * (ONE - t as int) == (ATAN_ADJ * (t as int)) * (ONE
            - t as int)) by (nonlinear_arith);
        assert(0 <= EIGHTH_TURN * (t as int) <= EIGHTH_TURN * (ONE as int)) by (nonlinear_arith)
            requires
                0 <= t as int <= ONE,
        ;
    }
    let tu: u64 = t as u64;
    let c: u64 = (ATAN_ADJ as u64 * tu) * ((ONE - t) as u64) / (ONE as u64);
    let r: u64 = (EIGHTH_TURN as u64 * tu + c) / (ONE as u64);
    proof {
        assert(c == ATAN_ADJ * (t as int) * (ONE - t as int) / (ONE as int));
        assert(r == spec_atan_unit(t as int));
    }
    r as i64
}

} // verus!
