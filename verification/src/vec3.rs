//! Three-component fixed-point vectors and cut-plane geometry.

use vstd::prelude::*;

use crate::angle::spec_atan2;
use crate::angle::spec_cos;
use crate::angle::spec_sin;
use crate::angle::atan2_fp;
use crate::angle::cos_fp;
use crate::angle::sin_fp;
use crate::math::spec_mul_div;
use crate::math::mul_div;
use crate::math::isqrt;
use crate::math::ONE;
use crate::math::MAX_POS;
use crate::types::GCodePlane;

verus! {

/// A point or displacement, in micro-mm per component.
#[derive(Clone, Copy, Debug, PartialEq, Eq, Structural)]
pub struct Vec3 {
    pub x: i64,
    pub y: i64,
    pub z: i64,
}

/// `r` is the integer square root of `n`.
pub open spec fn is_isqrt(n: int, r: int) -> bool {
    &&& 0 <= r
    &&& r * r <= n
    &&& n < (r + 1) * (r + 1)
}

/// The integer square root, as a mathematical function.
pub open spec fn spec_isqrt(n: int) -> int {
    choose|r: int| is_isqrt(n, r)
}

/// Every non-negative integer has an integer square root, and
/// `spec_isqrt` denotes it.
pub proof fn lemma_isqrt_exists(n: int)
    requires
        0 <= n,
    ensures
        is_isqrt(n, spec_isqrt(n)),
    decreases n,
{
    if n == 0 {
        assert(is_isqrt(0, 0));
    } else {
        lemma_isqrt_exists(n - 1);
        let r = spec_isqrt(n - 1);
        if n < (r + 1) * (r + 1) {
            assert(is_isqrt(n, r));
        } else {
            assert(n == (r + 1) * (r + 1));
            assert((r + 1) * (r + 1) < (r + 2) * (r + 2)) by (nonlinear_arith)
                requires
                    0 <= r,
            ;
            assert(is_isqrt(n, r + 1));
        }
    }
    assert(exists|r: int| is_isqrt(n, r));
}

/// The squared magnitude of a vector.
pub open spec fn spec_mag2(v: Vec3) -> int {
    v.x * v.x + v.y * v.y + v.z * v.z
}

/// The magnitude of a vector: the integer square root of the squared
/// magnitude.
pub open spec fn spec_mag(v: Vec3) -> int {
    spec_isqrt(spec_mag2(v))
}

/// The zero vector.
pub open spec fn spec_zero() -> Vec3 {
    Vec3 { x: 0, y: 0, z: 0 }
}

/// A vector scaled to (fixed-point) unit length, component-wise
/// `c * ONE / mag` with truncation; the zero vector stays zero.
pub open spec fn spec_normalized(v: Vec3) -> Vec3 {
    if spec_mag2(v) == 0 {
        spec_zero()
    } else {
        let m = spec_mag(v);
        Vec3 {
            x: spec_mul_div(v.x as int, ONE as int, m) as i64,
            y: spec_mul_div(v.y as int, ONE as int, m) as i64,
            z: spec_mul_div(v.z as int, ONE as int, m) as i64,
        }
    }
}

/// Component-wise sum, as the executable `add` computes it.
pub open spec fn spec_add3(a: Vec3, b: Vec3) -> Vec3 {
    Vec3 { x: (a.x + b.x) as i64, y: (a.y + b.y) as i64, z: (a.z + b.z) as i64 }
}

/// Component-wise difference, as the executable `sub` computes it.
pub open spec fn spec_sub3(a: Vec3, b: Vec3) -> Vec3 {
    Vec3 { x: (a.x - b.x) as i64, y: (a.y - b.y) as i64, z: (a.z - b.z) as i64 }
}

/// Component-wise `c * n / d` with truncation.
pub open spec fn spec_scale3(v: Vec3, n: int, d: int) -> Vec3 {
    Vec3 {
        x: spec_mul_div(v.x as int, n, d) as i64,
        y: spec_mul_div(v.y as int, n, d) as i64,
        z: spec_mul_div(v.z as int, n, d) as i64,
    }
}

/// Component-wise saturation at the admitted position range.
pub open spec fn spec_sat3(v: Vec3) -> Vec3 {
    Vec3 {
        x: crate::math::spec_sat(v.x as int) as i64,
        y: crate::math::spec_sat(v.y as int) as i64,
        z: crate::math::spec_sat(v.z as int) as i64,
    }
}

/// The ordered in-plane coordinate pair of a vector.
pub open spec fn spec_coords(v: Vec3, plane: GCodePlane) -> (int, int) {
    match plane {
        GCodePlane::XY => (v.x as int, v.y as int),
        GCodePlane::ZX => (v.z as int, v.x as int),
        GCodePlane::YZ => (v.y as int, v.z as int),
    }
}

/// The out-of-plane coordinate of a vector.
pub open spec fn spec_third(v: Vec3, plane: GCodePlane) -> int {
    match plane {
        GCodePlane::XY => v.z as int,
        GCodePlane::ZX => v.y as int,
        GCodePlane::YZ => v.x as int,
    }
}

/// The vector with its out-of-plane component zeroed.
pub open spec fn spec_project(v: Vec3, plane: GCodePlane) -> Vec3 {
    match plane {
        GCodePlane::XY => Vec3 { z: 0, ..v },
        GCodePlane::ZX => Vec3 { y: 0, ..v },
        GCodePlane::YZ => Vec3 { x: 0, ..v },
    }
}

/// The vector with the given in-plane coordinates and a zero
/// out-of-plane component.
pub open spec fn spec_from_2d(a1: i64, a2: i64, plane: GCodePlane) -> Vec3 {
    match plane {
        GCodePlane::XY => Vec3 { x: a1, y: a2, z: 0 },
        GCodePlane::ZX => Vec3 { z: a1, x: a2, y: 0 },
        GCodePlane::YZ => Vec3 { y: a1, z: a2, x: 0 },
    }
}

/// The in-plane unit vector of a polar angle, scaled by `ONE`.
pub open spec fn spec_unit_angle(angle: int, plane: GCodePlane) -> Vec3 {
    spec_from_2d(spec_cos(angle) as i64, spec_sin(angle) as i64, plane)
}

/// The polar angle of the in-plane displacement from `a` to `b`.
pub open spec fn spec_angle_to(a: Vec3, b: Vec3, plane: GCodePlane) -> int {
    spec_atan2(spec_coords(b, plane).1 - spec_coords(a, plane).1, spec_coords(b, plane).0
        - spec_coords(a, plane).0)
}

impl Default for Vec3 {
    fn default() -> (r: Self)
        ensures
            r == spec_zero(),
    {
        Vec3 { x: 0, y: 0, z: 0 }
    }
}

impl Vec3 {
    /// All components within the admitted position range.
    pub open spec fn bounded_pos(self) -> bool {
        self.bounded(MAX_POS as int)
    }

    /// All components within `[-b, b]`.
    pub open spec fn bounded(self, b: int) -> bool {
        &&& -b <= self.x <= b
        &&& -b <= self.y <= b
        &&& -b <= self.z <= b
    }

    pub fn new(x: i64, y: i64, z: i64) -> (r: Vec3)
        ensures
            r == (Vec3 { x, y, z }),
    {
        Vec3 { x, y, z }
    }

    pub fn zero() -> (r: Vec3)
        ensures
            r == spec_zero(),
    {
        Vec3 { x: 0, y: 0, z: 0 }
    }

    /// Component-wise sum.
    pub fn add(self, rhs: Vec3) -> (r: Vec3)
        requires
            -(i64::MAX as int) <= self.x + rhs.x <= i64::MAX as int,
            -(i64::MAX as int) <= self.y + rhs.y <= i64::MAX as int,
            -(i64::MAX as int) <= self.z + rhs.z <= i64::MAX as int,
        ensures
            r.x == self.x + rhs.x,
            r.y == self.y + rhs.y,
            r.z == self.z + rhs.z,
    {
        Vec3 { x: self.x + rhs.x, y: self.y + rhs.y, z: self.z + rhs.z }
    }

    /// Component-wise difference.
    pub fn sub(self, rhs: Vec3) -> (r: Vec3)
        requires
            -(i64::MAX as int) <= self.x - rhs.x <= i64::MAX as int,
            -(i64::MAX as int) <= self.y - rhs.y <= i64::MAX as int,
            -(i64::MAX as int) <= self.z - rhs.z <= i64::MAX as int,
        ensures
            r.x == self.x - rhs.x,
            r.y == self.y - rhs.y,
            r.z == self.z - rhs.z,
    {
        Vec3 { x: self.x - rhs.x, y: self.y - rhs.y, z: self.z - rhs.z }
    }

    /// Component-wise `c * n / d` with truncation; the fixed-point
    /// scalar multiply.
    pub fn mul_div(self, n: i64, d: i64) -> (r: Vec3)
        requires
            d > 0,
            -(i64::MAX as int) <= spec_mul_div(self.x as int, n as int, d as int) <= i64::MAX
                as int,
            -(i64::MAX as int) <= spec_mul_div(self.y as int, n as int, d as int) <= i64::MAX
                as int,
            -(i64::MAX as int) <= spec_mul_div(self.z as int, n as int, d as int) <= i64::MAX
                as int,
        ensures
            r.x == spec_mul_div(self.x as int, n as int, d as int),
            r.y == spec_mul_div(self.y as int, n as int, d as int),
            r.z == spec_mul_div(self.z as int, n as int, d as int),
    {
        Vec3 { x: mul_div(self.x, n, d), y: mul_div(self.y, n, d), z: mul_div(self.z, n, d) }
    }

    /// Component-wise saturation at the admitted position range.
    pub fn sat3(self) -> (r: Vec3)
        ensures
            r == spec_sat3(self),
            r.bounded_pos(),
    {
        Vec3 {
            x: crate::math::sat_pos(self.x),
            y: crate::math::sat_pos(self.y),
            z: crate::math::sat_pos(self.z),
        }
    }

    /// The in-plane unit vector of a polar angle, scaled by `ONE`.
    pub fn unit_angle(angle: i64, plane: &GCodePlane) -> (r: Vec3)
        ensures
            r == spec_unit_angle(angle as int, *plane),
            r.bounded(ONE as int),
    {
        let axis_1 = cos_fp(angle);
        let axis_2 = sin_fp(angle);
        Vec3::from_2d(axis_1, axis_2, plane)
    }

    /// The vector with the given in-plane coordinates and a zero
    /// out-of-plane component.
    pub fn from_2d(axis_1: i64, axis_2: i64, plane: &GCodePlane) -> (r: Vec3)
        ensures
            r == spec_from_2d(axis_1, axis_2, *plane),
    {
        match plane {
            GCodePlane::XY => Vec3 { x: axis_1, y: axis_2, z: 0 },
            GCodePlane::ZX => Vec3 { z: axis_1, x: axis_2, y: 0 },
            GCodePlane::YZ => Vec3 { y: axis_1, z: axis_2, x: 0 },
        }
    }

    /// The ordered in-plane coordinate pair.
    pub fn coords_for_plane(&self, plane: &GCodePlane) -> (r: (i64, i64))
        ensures
            r.0 == spec_coords(*self, *plane).0,
            r.1 == spec_coords(*self, *plane).1,
    {
        match plane {
            GCodePlane::XY => (self.x, self.y),
            GCodePlane::ZX => (self.z, self.x),
            GCodePlane::YZ => (self.y, self.z),
        }
    }

    /// The out-of-plane coordinate.
    pub fn third_coord(&self, plane: &GCodePlane) -> (r: i64)
        ensures
            r == spec_third(*self, *plane),
    {
        match plane {
            GCodePlane::XY => self.z,
            GCodePlane::ZX => self.y,
            GCodePlane::YZ => self.x,
        }
    }

    /// The vector with its out-of-plane component zeroed.
    pub fn project_plane(&self, plane: &GCodePlane) -> (r: Vec3)
        ensures
            r == spec_project(*self, *plane),
    {
        let mut out = *self;
        match plane {
            GCodePlane::XY => out.z = 0,
            GCodePlane::ZX => out.y = 0,
            GCodePlane::YZ => out.x = 0,
        }
        out
    }

    /// The polar angle of the in-plane displacement toward `other`.
    pub fn angle_to(&self, other: &Vec3, plane: &GCodePlane) -> (r: i64)
        requires
            self.bounded(2_000_000_000_000_000),
            other.bounded(2_000_000_000_000_000),
        ensures
            r == spec_angle_to(*self, *other, *plane),
            -crate::angle::HALF_TURN <= r <= crate::angle::HALF_TURN,
    {
        let (a1, a2) = self.coords_for_plane(plane);
        let (b1, b2) = other.coords_for_plane(plane);
        atan2_fp(b2 - a2, b1 - a1)
    }

    /// The magnitude, rounded down.
    pub fn magnitude(&self) -> (r: i64)
        requires
            self.bounded(100_000_000_000_000_000),
        ensures
            r == spec_mag(*self),
            is_isqrt(spec_mag2(*self), r as int),
            r == 0 <==> spec_mag2(*self) == 0,
    {
        proof {
            lemma_square_bound(self.x as int, 100_000_000_000_000_000);
            lemma_square_bound(self.y as int, 100_000_000_000_000_000);
            lemma_square_bound(self.z as int, 100_000_000_000_000_000);
        }
        let m2: i128 = (self.x as i128) * (self.x as i128) + (self.y as i128) * (self.y as i128)
            + (self.z as i128) * (self.z as i128);
        let r64 = isqrt(m2 as u128);
        proof {
            assert(m2 as u128 == spec_mag2(*self));
            lemma_isqrt_exists(spec_mag2(*self));
            crate::math::lemma_isqrt_unique(
                spec_mag2(*self),
                r64 as int,
                spec_isqrt(spec_mag2(*self)),
            );
            assert(r64 as int <= 200_000_000_000_000_000) by (nonlinear_arith)
                requires
                    (r64 as int) * (r64 as int) <= 30_000_000_000_000_000_000_000_000_000_000_000,
                    0 <= r64 as int,
            ;
            assert(r64 as int > 0 ==> (r64 as int) * (r64 as int) > 0) by (nonlinear_arith);
            if r64 == 0 {
                assert((r64 as int + 1) * (r64 as int + 1) == 1) by (nonlinear_arith)
                    requires
                        r64 as int == 0,
                ;
                assert(spec_mag2(*self) == 0);
            }
            if spec_mag2(*self) == 0 {
                assert(r64 as int == 0);
            }
        }
        r64 as i64
    }

    /// The vector scaled to unit length (times `ONE`); zero stays zero.
    pub fn normalized(&self) -> (r: Vec3)
        requires
            self.bounded(100_000_000_000_000_000),
        ensures
            r == spec_normalized(*self),
            r.bounded(ONE as int),
    {
        let m = self.magnitude();
        if m == 0 {
            proof {
                lemma_square_zero(self.x as int);
                lemma_square_zero(self.y as int);
                lemma_square_zero(self.z as int);
            }
            Vec3::zero()
        } else {
            proof {
                lemma_component_le_mag(*self, m as int);
            }
            self.mul_div(ONE, m)
        }
    }
}

/// The scaled components of a bounded vector stay within the scaled
/// bound.
pub proof fn lemma_scale3_bound(v: Vec3, n: int, d: int, b: int)
    requires
        d > 0,
        0 <= n,
        0 <= b,
        v.bounded(b),
    ensures
        -((b * n) / d) <= spec_mul_div(v.x as int, n, d) <= (b * n) / d,
        -((b * n) / d) <= spec_mul_div(v.y as int, n, d) <= (b * n) / d,
        -((b * n) / d) <= spec_mul_div(v.z as int, n, d) <= (b * n) / d,
        0 <= (b * n) / d,
{
    assert(0 <= b * n && -(b * n) <= v.x * n <= b * n && -(b * n) <= v.y * n <= b * n && -(b * n)
        <= v.z * n <= b * n) by (nonlinear_arith)
        requires
            0 <= n,
            0 <= b,
            -b <= v.x <= b,
            -b <= v.y <= b,
            -b <= v.z <= b,
    ;
    crate::math::lemma_trunc_div_bound(v.x * n, d, b * n);
    crate::math::lemma_trunc_div_bound(v.y * n, d, b * n);
    crate::math::lemma_trunc_div_bound(v.z * n, d, b * n);
    vstd::arithmetic::div_mod::lemma_div_pos_is_pos(b * n, d);
}

/// The magnitude of a bounded vector is at most twice the bound.
pub proof fn lemma_mag_le(v: Vec3, b: int, m: int)
    requires
        0 <= b,
        v.bounded(b),
        is_isqrt(spec_mag2(v), m),
    ensures
        0 <= m <= 2 * b,
{
    lemma_square_bound(v.x as int, b);
    lemma_square_bound(v.y as int, b);
    lemma_square_bound(v.z as int, b);
    assert(m <= 2 * b) by (nonlinear_arith)
        requires
            m * m <= 3 * (b * b),
            0 <= m,
            0 <= b,
    ;
}

/// `|v| <= b` implies `v * v <= b * b`.
proof fn lemma_square_bound(v: int, b: int)
    requires
        -b <= v <= b,
        0 <= b,
    ensures
        0 <= v * v <= b * b,
{
    assert(0 <= v * v <= b * b) by (nonlinear_arith)
        requires
            -b <= v <= b,
            0 <= b,
    ;
}

/// A vector of squared magnitude zero has zero components.
proof fn lemma_square_zero(v: int)
    ensures
        v * v >= 0,
        v * v == 0 ==> v == 0,
{
    assert(v * v >= 0 && (v * v == 0 ==> v == 0)) by (nonlinear_arith);
}

/// Each component of a vector is bounded by its magnitude, and the
/// normalized components are bounded by `ONE`.
proof fn lemma_component_le_mag(v: Vec3, m: int)
    requires
        is_isqrt(spec_mag2(v), m),
        m > 0,
    ensures
        -m <= v.x <= m,
        -m <= v.y <= m,
        -m <= v.z <= m,
        -(ONE as int) <= spec_mul_div(v.x as int, ONE as int, m) <= ONE as int,
        -(ONE as int) <= spec_mul_div(v.y as int, ONE as int, m) <= ONE as int,
        -(ONE as int) <= spec_mul_div(v.z as int, ONE as int, m) <= ONE as int,
{
    lemma_square_zero(v.x as int);
    lemma_square_zero(v.y as int);
    lemma_square_zero(v.z as int);
    lemma_abs_le_mag(v.x as int, spec_mag2(v) - v.x * v.x, m);
    lemma_abs_le_mag(v.y as int, spec_mag2(v) - v.y * v.y, m);
    lemma_abs_le_mag(v.z as int, spec_mag2(v) - v.z * v.z, m);
    lemma_unit_quotient(v.x as int, m);
    lemma_unit_quotient(v.y as int, m);
    lemma_unit_quotient(v.z as int, m);
}

/// If `c * c + rest` has integer square root `m` with `rest >= 0`,
/// then `|c| <= m`.
proof fn lemma_abs_le_mag(c: int, rest: int, m: int)
    requires
        0 <= rest,
        0 <= m,
        c * c + rest < (m + 1) * (m + 1),
    ensures
        -m <= c <= m,
{
    assert(-m <= c <= m) by (nonlinear_arith)
        requires
            0 <= rest,
            0 <= m,
            c * c + rest < (m + 1) * (m + 1),
    ;
}

/// `|c| <= m` bounds the truncated quotient `c * ONE / m` by `ONE`.
proof fn lemma_unit_quotient(c: int, m: int)
    requires
        m > 0,
        -m <= c <= m,
    ensures
        -(ONE as int) <= spec_mul_div(c, ONE as int, m) <= ONE as int,
{
    if c >= 0 {
        assert(c * ONE <= m * ONE) by (nonlinear_arith)
            requires
                0 <= c <= m,
        ;
        vstd::arithmetic::div_mod::lemma_div_is_ordered(c * ONE, m * ONE, m);
        vstd::arithmetic::div_mod::lemma_div_multiples_vanish(ONE as int, m);
        vstd::arithmetic::div_mod::lemma_div_pos_is_pos(c * ONE, m);
    } else {
        assert((-c) * ONE <= m * ONE) by (nonlinear_arith)
            requires
                0 <= -c <= m,
        ;
        assert(-(c * ONE) == (-c) * ONE) by (nonlinear_arith);
        vstd::arithmetic::div_mod::lemma_div_is_ordered((-c) * ONE, m * ONE, m);
        vstd::arithmetic::div_mod::lemma_div_multiples_vanish(ONE as int, m);
        vstd::arithmetic::div_mod::lemma_div_pos_is_pos((-c) * ONE, m);
    }
}

} // verus!
