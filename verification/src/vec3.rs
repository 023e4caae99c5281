//! Fixed-point 3-vectors: the world-space positions, directions and forces
//! of the pipeline, with exact contracts for every operation.

use vstd::prelude::*;
use vstd::arithmetic::div_mod::{lemma_div_pos_is_pos, lemma_div_is_ordered, lemma_div_by_multiple};
use crate::fixed::{
    FX_ONE, fx_bounded, fx_abs, tdiv, mul_div, fx_mul, fx_lerp, lerp1, is_sqrt_floor, sqrt_floor,
    lemma_sqrt_floor_unique, lemma_sqrt_floor_mono, isqrt,
};

verus! {

/// Largest component magnitude accepted by the cross product
/// (two thousand world units, far above any landmark difference).
pub const CROSS_BOUND: i64 = 2_000_000_000;

/// Largest component magnitude accepted by normalization; wide enough for
/// the raw cross product of two landmark edge vectors.
pub const NORM_BOUND: i64 = 100_000_000_000_000_000;

/// A world-space vector in fixed-point scalars.
#[derive(Clone, Copy, PartialEq, Eq, Structural, Debug)]
pub struct Vec3x {
    pub x: i64,
    pub y: i64,
    pub z: i64,
}

/// Every component lies within the range the pipeline arithmetic is
/// designed for.
pub open spec fn v3_bounded(v: Vec3x) -> bool {
    fx_bounded(v.x as int) && fx_bounded(v.y as int) && fx_bounded(v.z as int)
}

/// The squared length of a vector, in raw squared units.
pub open spec fn v3_len_sq(v: Vec3x) -> int {
    (v.x as int) * (v.x as int) + (v.y as int) * (v.y as int) + (v.z as int) * (v.z as int)
}

/// Largest component magnitude addition and subtraction accept: half the
/// scalar width, so a sum or difference never overflows.
pub const SUM_BOUND: i64 = 4_000_000_000_000_000_000;

/// Every component within the range addition and subtraction accept.
pub open spec fn v3_sum_in(v: Vec3x) -> bool {
    fx_abs(v.x as int) <= SUM_BOUND && fx_abs(v.y as int) <= SUM_BOUND && fx_abs(v.z as int)
        <= SUM_BOUND
}

/// Every component within the range normalization accepts.
pub open spec fn v3_norm_in(v: Vec3x) -> bool {
    fx_abs(v.x as int) <= NORM_BOUND && fx_abs(v.y as int) <= NORM_BOUND && fx_abs(v.z as int)
        <= NORM_BOUND
}

/// The cross product as a spec value.
pub open spec fn spec_cross(a: Vec3x, b: Vec3x) -> Vec3x {
    Vec3x {
        x: (a.y * b.z - a.z * b.y) as i64,
        y: (a.z * b.x - a.x * b.z) as i64,
        z: (a.x * b.y - a.y * b.x) as i64,
    }
}

/// The normalized vector as a spec value: scaled to length `FX_ONE`
/// through the rounded-down length, or zero for the zero vector.
pub open spec fn spec_normalize(v: Vec3x) -> Vec3x {
    if v == (Vec3x { x: 0i64, y: 0i64, z: 0i64 }) {
        v
    } else {
        let len = sqrt_floor(v3_len_sq(v));
        Vec3x {
            x: tdiv(v.x * FX_ONE, len) as i64,
            y: tdiv(v.y * FX_ONE, len) as i64,
            z: tdiv(v.z * FX_ONE, len) as i64,
        }
    }
}

/// The dot product, in raw squared units.
pub open spec fn v3_dot(a: Vec3x, b: Vec3x) -> int {
    (a.x as int) * (b.x as int) + (a.y as int) * (b.y as int) + (a.z as int) * (b.z as int)
}

impl Vec3x {
    /// Builds a vector from its raw fixed-point components.
    pub fn new(x: i64, y: i64, z: i64) -> (r: Vec3x)
        ensures
            r == (Vec3x { x, y, z }),
    {
        Vec3x { x, y, z }
    }

    /// The zero vector.
    pub fn zero() -> (r: Vec3x)
        ensures
            r == (Vec3x { x: 0i64, y: 0i64, z: 0i64 }),
    {
        Vec3x { x: 0, y: 0, z: 0 }
    }

    /// Componentwise sum.
    pub fn add(self, o: Vec3x) -> (r: Vec3x)
        requires
            v3_sum_in(self),
            v3_sum_in(o),
        ensures
            r.x == self.x + o.x,
            r.y == self.y + o.y,
            r.z == self.z + o.z,
    {
        Vec3x { x: self.x + o.x, y: self.y + o.y, z: self.z + o.z }
    }

    /// Componentwise difference.
    pub fn sub(self, o: Vec3x) -> (r: Vec3x)
        requires
            v3_sum_in(self),
            v3_sum_in(o),
        ensures
            r.x == self.x - o.x,
            r.y == self.y - o.y,
            r.z == self.z - o.z,
    {
        Vec3x { x: self.x - o.x, y: self.y - o.y, z: self.z - o.z }
    }

    /// Scales by a fixed-point factor, each component rounded toward zero.
    pub fn scale(self, k: i64) -> (r: Vec3x)
        requires
            v3_bounded(self),
            fx_bounded(k as int),
        ensures
            r.x == tdiv(self.x * k, FX_ONE as int),
            r.y == tdiv(self.y * k, FX_ONE as int),
            r.z == tdiv(self.z * k, FX_ONE as int),
    {
        Vec3x { x: fx_mul(self.x, k), y: fx_mul(self.y, k), z: fx_mul(self.z, k) }
    }

    /// Squared length in raw squared units; exact, at full width.
    pub fn len_sq(self) -> (r: u128)
        ensures
            r == v3_len_sq(self),
    {
        proof {
            assert(0 <= (self.x as int) * (self.x as int)
                <= 0x40000000000000000000000000000000) by (nonlinear_arith)
                requires
                    -0x8000000000000000 <= self.x as int <= 0x7fffffffffffffff,
            ;
            assert(0 <= (self.y as int) * (self.y as int)
                <= 0x40000000000000000000000000000000) by (nonlinear_arith)
                requires
                    -0x8000000000000000 <= self.y as int <= 0x7fffffffffffffff,
            ;
            assert(0 <= (self.z as int) * (self.z as int)
                <= 0x40000000000000000000000000000000) by (nonlinear_arith)
                requires
                    -0x8000000000000000 <= self.z as int <= 0x7fffffffffffffff,
            ;
        }
        let wx: i128 = (self.x as i128) * (self.x as i128);
        let wy: i128 = (self.y as i128) * (self.y as i128);
        let wz: i128 = (self.z as i128) * (self.z as i128);
        (wx as u128) + (wy as u128) + (wz as u128)
    }

    /// Dot product in raw squared units; exact, at full width.
    pub fn dot(self, o: Vec3x) -> (r: i128)
        requires
            v3_bounded(self),
            v3_bounded(o),
        ensures
            r == v3_dot(self, o),
    {
        proof {
            assert(-1000000000000000000000000 <= (self.x as int) * (o.x as int)
                <= 1000000000000000000000000) by (nonlinear_arith)
                requires
                    fx_bounded(self.x as int),
                    fx_bounded(o.x as int),
            ;
            assert(-1000000000000000000000000 <= (self.y as int) * (o.y as int)
                <= 1000000000000000000000000) by (nonlinear_arith)
                requires
                    fx_bounded(self.y as int),
                    fx_bounded(o.y as int),
            ;
            assert(-1000000000000000000000000 <= (self.z as int) * (o.z as int)
                <= 1000000000000000000000000) by (nonlinear_arith)
                requires
                    fx_bounded(self.z as int),
                    fx_bounded(o.z as int),
            ;
        }
        (self.x as i128) * (o.x as i128) + (self.y as i128) * (o.y as i128) + (self.z as i128)
            * (o.z as i128)
    }

    /// Cross product in raw units.  Both operands must be small (landmark
    /// differences are), so the products stay exact in the scalar width.
    pub fn cross(self, o: Vec3x) -> (r: Vec3x)
        requires
            fx_abs(self.x as int) <= CROSS_BOUND,
            fx_abs(self.y as int) <= CROSS_BOUND,
            fx_abs(self.z as int) <= CROSS_BOUND,
            fx_abs(o.x as int) <= CROSS_BOUND,
            fx_abs(o.y as int) <= CROSS_BOUND,
            fx_abs(o.z as int) <= CROSS_BOUND,
        ensures
            r == spec_cross(self, o),
            r.x == self.y * o.z - self.z * o.y,
            r.y == self.z * o.x - self.x * o.z,
            r.z == self.x * o.y - self.y * o.x,
    {
        proof {
            lemma_cross_product_bound(self.y as int, o.z as int);
            lemma_cross_product_bound(self.z as int, o.y as int);
            lemma_cross_product_bound(self.z as int, o.x as int);
            lemma_cross_product_bound(self.x as int, o.z as int);
            lemma_cross_product_bound(self.x as int, o.y as int);
            lemma_cross_product_bound(self.y as int, o.x as int);
        }
        Vec3x {
            x: self.y * o.z - self.z * o.y,
            y: self.z * o.x - self.x * o.z,
            z: self.x * o.y - self.y * o.x,
        }
    }

    /// Scales the vector to unit length (`FX_ONE`), or returns zero for the
    /// zero vector; each component is divided by the rounded-down length.
    pub fn normalize_or_zero(self) -> (r: Vec3x)
        requires
            v3_norm_in(self),
        ensures
            r == spec_normalize(self),
            self == (Vec3x { x: 0i64, y: 0i64, z: 0i64 }) ==> r == self,
            self != (Vec3x { x: 0i64, y: 0i64, z: 0i64 }) ==> {
                let len = sqrt_floor(v3_len_sq(self));
                &&& r.x == tdiv(self.x * FX_ONE, len)
                &&& r.y == tdiv(self.y * FX_ONE, len)
                &&& r.z == tdiv(self.z * FX_ONE, len)
            },
            fx_abs(r.x as int) <= FX_ONE,
            fx_abs(r.y as int) <= FX_ONE,
            fx_abs(r.z as int) <= FX_ONE,
    {
        let s: u128 = self.len_sq();
        if s == 0 {
            proof {
                assert((self.x as int) * (self.x as int) >= 0 && (self.y as int) * (self.y as int)
                    >= 0 && (self.z as int) * (self.z as int) >= 0) by (nonlinear_arith);
                assert(self.x as int == 0 && self.y as int == 0 && self.z as int == 0)
                    by (nonlinear_arith)
                    requires
                        (self.x as int) * (self.x as int) + (self.y as int) * (self.y as int) + (
                        self.z as int) * (self.z as int) == 0,
                ;
            }
            Vec3x { x: 0, y: 0, z: 0 }
        } else {
            let len_w: u64 = isqrt(s);
            proof {
                if len_w as int > 200000000000000000 {
                    assert((len_w as int) * (len_w as int)
                        > 30000000000000000000000000000000000) by (nonlinear_arith)
                        requires
                            len_w as int > 200000000000000000,
                    ;
                    assert(v3_len_sq(self) <= 30000000000000000000000000000000000)
                        by (nonlinear_arith)
                        requires
                            v3_norm_in(self),
                    ;
                    assert(false);
                }
                if len_w == 0 {
                    assert(((len_w as int) + 1) * ((len_w as int) + 1) == 1) by (nonlinear_arith)
                        requires
                            len_w as int == 0,
                    ;
                    assert(v3_len_sq(self) < 1);
                    assert(false);
                }
                assert(self.x != 0 || self.y != 0 || self.z != 0) by {
                    assert((0int) * (0int) == 0);
                }
                assert((self.x as int) * (self.x as int) >= 0 && (self.y as int) * (self.y as int)
                    >= 0 && (self.z as int) * (self.z as int) >= 0) by (nonlinear_arith);
                lemma_unit_component(self.x as int, len_w as int, v3_len_sq(self));
                lemma_unit_component(self.y as int, len_w as int, v3_len_sq(self));
                lemma_unit_component(self.z as int, len_w as int, v3_len_sq(self));
            }
            let len: i64 = len_w as i64;
            Vec3x {
                x: mul_div(self.x, FX_ONE, len),
                y: mul_div(self.y, FX_ONE, len),
                z: mul_div(self.z, FX_ONE, len),
            }
        }
    }

    /// Smoothing step toward a target, componentwise, never overshooting.
    pub fn lerp(self, tgt: Vec3x, t: i64) -> (r: Vec3x)
        requires
            v3_bounded(self),
            v3_bounded(tgt),
            0 <= t <= FX_ONE,
        ensures
            r.x == lerp1(self.x as int, tgt.x as int, t as int),
            r.y == lerp1(self.y as int, tgt.y as int, t as int),
            r.z == lerp1(self.z as int, tgt.z as int, t as int),
            self.x <= tgt.x ==> self.x <= r.x <= tgt.x,
            tgt.x <= self.x ==> tgt.x <= r.x <= self.x,
            self.y <= tgt.y ==> self.y <= r.y <= tgt.y,
            tgt.y <= self.y ==> tgt.y <= r.y <= self.y,
            self.z <= tgt.z ==> self.z <= r.z <= tgt.z,
            tgt.z <= self.z ==> tgt.z <= r.z <= self.z,
            v3_bounded(r),
    {
        Vec3x {
            x: fx_lerp(self.x, tgt.x, t),
            y: fx_lerp(self.y, tgt.y, t),
            z: fx_lerp(self.z, tgt.z, t),
        }
    }
}

/// The components of a cross product of two vectors of component
/// magnitude at most `m` are bounded by `2·m²`.
pub proof fn lemma_cross_bounded(a: Vec3x, b: Vec3x, m: int)
    requires
        0 <= m,
        fx_abs(a.x as int) <= m,
        fx_abs(a.y as int) <= m,
        fx_abs(a.z as int) <= m,
        fx_abs(b.x as int) <= m,
        fx_abs(b.y as int) <= m,
        fx_abs(b.z as int) <= m,
    ensures
        fx_abs(a.y * b.z - a.z * b.y) <= 2 * m * m,
        fx_abs(a.z * b.x - a.x * b.z) <= 2 * m * m,
        fx_abs(a.x * b.y - a.y * b.x) <= 2 * m * m,
{
    assert(fx_abs((a.y as int) * (b.z as int) - (a.z as int) * (b.y as int)) <= 2 * m * m
        && fx_abs((a.z as int) * (b.x as int) - (a.x as int) * (b.z as int)) <= 2 * m * m
        && fx_abs((a.x as int) * (b.y as int) - (a.y as int) * (b.x as int)) <= 2 * m * m)
        by (nonlinear_arith)
        requires
            0 <= m,
            -m <= a.x as int <= m,
            -m <= a.y as int <= m,
            -m <= a.z as int <= m,
            -m <= b.x as int <= m,
            -m <= b.y as int <= m,
            -m <= b.z as int <= m,
    ;
}

/// A product of two cross-product operands stays within the scalar width.
proof fn lemma_cross_product_bound(a: int, b: int)
    requires
        fx_abs(a) <= CROSS_BOUND,
        fx_abs(b) <= CROSS_BOUND,
    ensures
        -4000000000000000000 <= a * b <= 4000000000000000000,
{
    assert(-4000000000000000000 <= a * b <= 4000000000000000000) by (nonlinear_arith)
        requires
            -2000000000 <= a <= 2000000000,
            -2000000000 <= b <= 2000000000,
    ;
}

/// Dividing a component by the rounded-down length of its own vector gives
/// a quotient of at most `FX_ONE` in magnitude, and one that fits the
/// scalar width.
proof fn lemma_unit_component(x: int, len: int, s: int)
    requires
        0 < len,
        x * x <= s,
        is_sqrt_floor(s, len),
        fx_abs(x) <= NORM_BOUND,
    ensures
        fx_abs(tdiv(x * FX_ONE, len)) <= FX_ONE,
        i64::MIN <= tdiv(x * FX_ONE, len) <= i64::MAX,
{
    assert(is_sqrt_floor(x * x, fx_abs(x))) by (nonlinear_arith);
    lemma_sqrt_floor_unique(x * x, fx_abs(x));
    lemma_sqrt_floor_mono(x * x, s);
    lemma_sqrt_floor_unique(s, len);
    assert(fx_abs(x) <= len);
    if x >= 0 {
        assert(x * FX_ONE <= len * FX_ONE) by (nonlinear_arith)
            requires
                0 <= x <= len,
        ;
        assert(x * FX_ONE >= 0) by (nonlinear_arith)
            requires
                x >= 0,
        ;
        lemma_div_pos_is_pos(x * FX_ONE, len);
        lemma_div_is_ordered(x * FX_ONE, len * FX_ONE, len);
        lemma_div_by_multiple(FX_ONE as int, len);
        assert(len * FX_ONE == FX_ONE * len) by (nonlinear_arith);
    } else {
        assert(-(x * FX_ONE) == (-x) * FX_ONE) by (nonlinear_arith);
        assert((-x) * FX_ONE <= len * FX_ONE) by (nonlinear_arith)
            requires
                0 <= -x <= len,
        ;
        assert((-x) * FX_ONE >= 0) by (nonlinear_arith)
            requires
                -x >= 0,
        ;
        lemma_div_pos_is_pos((-x) * FX_ONE, len);
        lemma_div_is_ordered((-x) * FX_ONE, len * FX_ONE, len);
        lemma_div_by_multiple(FX_ONE as int, len);
        assert(len * FX_ONE == FX_ONE * len) by (nonlinear_arith);
    }
}

} // verus!
