//! Fixed-point scalar arithmetic.
//!
//! A scalar is an `i64` holding a world-space quantity scaled by [`FX_ONE`]:
//! one world unit is `FX_ONE` raw steps.  Multiplication and division are
//! defined with truncation toward zero ([`tdiv`]), and lengths come from an
//! exact integer square root ([`isqrt`]).

use vstd::prelude::*;
use vstd::arithmetic::div_mod::{
    lemma_div_pos_is_pos, lemma_div_is_ordered, lemma_div_nonincreasing, lemma_div_by_multiple,
};

verus! {

/// Scale factor of the fixed-point scalars: one world unit is `FX_ONE` raw steps.
pub const FX_ONE: i64 = 1_000_000;

/// Largest raw magnitude the pipeline arithmetic is designed for
/// (one million world units).
pub const FX_BOUND: i64 = 1_000_000_000_000;

/// A raw scalar lies within the range the pipeline arithmetic is designed for.
pub open spec fn fx_bounded(a: int) -> bool {
    -FX_BOUND <= a <= FX_BOUND
}

/// Magnitude of a scalar.
pub open spec fn fx_abs(a: int) -> int {
    if a >= 0 {
        a
    } else {
        -a
    }
}

/// Division that rounds toward zero, the rounding every fixed-point
/// operation of this crate uses.
pub open spec fn tdiv(a: int, b: int) -> int
    recommends
        b > 0,
{
    if a >= 0 {
        a / b
    } else {
        -((-a) / b)
    }
}

/// The quotient of a truncated division is no larger in magnitude than
/// the quotient of any bound on the dividend.
pub proof fn lemma_tdiv_bound(a: int, b: int, c: int)
    requires
        b > 0,
        0 <= c,
        -c <= a <= c,
    ensures
        -(c / b) <= tdiv(a, b) <= c / b,
{
    if a >= 0 {
        lemma_div_pos_is_pos(a, b);
        lemma_div_is_ordered(a, c, b);
    } else {
        lemma_div_pos_is_pos(-a, b);
        lemma_div_is_ordered(-a, c, b);
    }
}

/// Truncated division preserves order against zero and never enlarges
/// a step taken toward a target: for `0 <= t <= d`, the scaled step
/// `tdiv(diff * t, d)` stays between `0` and `diff`.
pub proof fn lemma_step_within(diff: int, t: int, d: int)
    requires
        d > 0,
        0 <= t <= d,
    ensures
        diff >= 0 ==> 0 <= tdiv(diff * t, d) <= diff,
        diff <= 0 ==> diff <= tdiv(diff * t, d) <= 0,
{
    if diff >= 0 {
        assert(0 <= diff * t && diff * t <= diff * d) by (nonlinear_arith)
            requires
                diff >= 0,
                0 <= t <= d,
        ;
        lemma_div_pos_is_pos(diff * t, d);
        lemma_div_is_ordered(diff * t, diff * d, d);
        lemma_div_by_multiple(diff, d);
    } else {
        assert(-(diff * t) == (-diff) * t) by (nonlinear_arith);
        assert(0 <= (-diff) * t && (-diff) * t <= (-diff) * d) by (nonlinear_arith)
            requires
                diff < 0,
                0 <= t <= d,
        ;
        lemma_div_pos_is_pos((-diff) * t, d);
        lemma_div_is_ordered((-diff) * t, (-diff) * d, d);
        lemma_div_by_multiple(-diff, d);
    }
}

/// A step whose raw product reaches the divisor moves at least one raw unit.
pub proof fn lemma_step_moves(diff: int, t: int, d: int)
    requires
        d > 0,
        0 <= t <= d,
        fx_abs(diff) * t >= d,
    ensures
        fx_abs(tdiv(diff * t, d)) >= 1,
{
    if diff >= 0 {
        lemma_div_is_ordered(d, diff * t, d);
        assert(d / d == 1) by (nonlinear_arith)
            requires
                d > 0,
        ;
    } else {
        assert(-(diff * t) == (-diff) * t) by (nonlinear_arith);
        lemma_div_is_ordered(d, (-diff) * t, d);
        assert(d / d == 1) by (nonlinear_arith)
            requires
                d > 0,
        ;
    }
}

/// Computes `tdiv(a * m, d)` exactly.  The product is taken at full width,
/// so only the quotient must fit the scalar range.
pub fn mul_div(a: i64, m: i64, d: i64) -> (r: i64)
    requires
        d > 0,
        i64::MIN <= tdiv(a * m, d as int) <= i64::MAX,
    ensures
        r == tdiv(a * m, d as int),
{
    let wa: i128 = a as i128;
    let wm: i128 = m as i128;
    proof {
        assert(-0x40000000000000000000000000000000 <= (a as int) * (m as int)
            <= 0x40000000000000000000000000000000) by (nonlinear_arith)
            requires
                -0x8000000000000000 <= a as int <= 0x7fffffffffffffff,
                -0x8000000000000000 <= m as int <= 0x7fffffffffffffff,
        ;
    }
    let p: i128 = wa * wm;
    let neg: bool = p < 0;
    let mag: u128 = if neg {
        (-p) as u128
    } else {
        p as u128
    };
    let q: u128 = mag / (d as u128);
    proof {
        lemma_div_nonincreasing(mag as int, d as int);
    }
    let qi: i128 = q as i128;
    let r128: i128 = if neg {
        -qi
    } else {
        qi
    };
    r128 as i64
}

/// Fixed-point product of two scalars: `tdiv(a * b, FX_ONE)`.
pub fn fx_mul(a: i64, b: i64) -> (r: i64)
    requires
        fx_bounded(a as int),
        fx_bounded(b as int),
    ensures
        r == tdiv(a * b, FX_ONE as int),
{
    proof {
        assert(-1000000000000000000000000 <= (a as int) * (b as int)
            <= 1000000000000000000000000) by (nonlinear_arith)
            requires
                fx_bounded(a as int),
                fx_bounded(b as int),
        ;
        lemma_tdiv_bound((a as int) * (b as int), FX_ONE as int, 1000000000000000000000000);
    }
    mul_div(a, b, FX_ONE)
}

/// First-order smoothing step: the point `p` moves toward `tgt` by the
/// fraction `t / FX_ONE` of the remaining distance, rounded toward zero.
pub open spec fn lerp1(p: int, tgt: int, t: int) -> int {
    p + tdiv((tgt - p) * t, FX_ONE as int)
}

/// Scalar smoothing step.  The result is exactly [`lerp1`] and never
/// overshoots: it stays between the prior value and the target.
pub fn fx_lerp(p: i64, tgt: i64, t: i64) -> (r: i64)
    requires
        fx_bounded(p as int),
        fx_bounded(tgt as int),
        0 <= t <= FX_ONE,
    ensures
        r == lerp1(p as int, tgt as int, t as int),
        p <= tgt ==> p <= r <= tgt,
        tgt <= p ==> tgt <= r <= p,
{
    let diff: i64 = tgt - p;
    proof {
        lemma_step_within(diff as int, t as int, FX_ONE as int);
        assert(-2000000000000000000 <= (diff as int) * (t as int) <= 2000000000000000000)
            by (nonlinear_arith)
            requires
                -2000000000000 <= diff as int <= 2000000000000,
                0 <= t as int <= 1000000,
        ;
        lemma_tdiv_bound((diff as int) * (t as int), FX_ONE as int, 2000000000000000000);
    }
    let step: i64 = mul_div(diff, t, FX_ONE);
    p + step
}

/// Smoothing never increases the remaining distance to the target.
pub proof fn lemma_smoothing_monotone(p: int, tgt: int, t: int)
    requires
        0 <= t <= FX_ONE,
    ensures
        fx_abs(tgt - lerp1(p, tgt, t)) <= fx_abs(tgt - p),
{
    lemma_step_within(tgt - p, t, FX_ONE as int);
}

/// Smoothing strictly shrinks the remaining distance whenever the step is
/// coarse enough to move at least one raw unit, that is, whenever the
/// remaining distance times the smoothing fraction reaches `FX_ONE`.
pub proof fn lemma_smoothing_strict(p: int, tgt: int, t: int)
    requires
        0 <= t <= FX_ONE,
        fx_abs(tgt - p) * t >= FX_ONE,
    ensures
        fx_abs(tgt - lerp1(p, tgt, t)) < fx_abs(tgt - p),
{
    lemma_step_within(tgt - p, t, FX_ONE as int);
    lemma_step_moves(tgt - p, t, FX_ONE as int);
}

/// Law: feeding the identical target on two successive smoothing steps
/// leaves the point no farther after the second step than the first left
/// it, and strictly closer whenever the remaining distance is above the
/// fixed-point resolution of the step.
pub proof fn lemma_smoothing_converges(p: int, tgt: int, t: int)
    requires
        0 <= t <= FX_ONE,
    ensures
        fx_abs(tgt - lerp1(lerp1(p, tgt, t), tgt, t)) <= fx_abs(tgt - lerp1(p, tgt, t)),
        fx_abs(tgt - lerp1(p, tgt, t)) * t >= FX_ONE ==> fx_abs(
            tgt - lerp1(lerp1(p, tgt, t), tgt, t),
        ) < fx_abs(tgt - lerp1(p, tgt, t)),
{
    let p1 = lerp1(p, tgt, t);
    lemma_smoothing_monotone(p1, tgt, t);
    if fx_abs(tgt - p1) * t >= FX_ONE {
        lemma_smoothing_strict(p1, tgt, t);
    }
}

/// `r` is the integer square root of `n`, rounded down.
pub open spec fn is_sqrt_floor(n: int, r: int) -> bool {
    0 <= r && r * r <= n && n < (r + 1) * (r + 1)
}

/// The integer square root, rounded down.
pub open spec fn sqrt_floor(n: int) -> int {
    choose|r: int| is_sqrt_floor(n, r)
}

/// Every non-negative integer has an integer square root.
pub proof fn lemma_sqrt_floor_exists(n: int)
    requires
        0 <= n,
    ensures
        is_sqrt_floor(n, sqrt_floor(n)),
    decreases n,
{
    if n == 0 {
        assert(is_sqrt_floor(0, 0));
    } else {
        lemma_sqrt_floor_exists(n - 1);
        let r = sqrt_floor(n - 1);
        if n < (r + 1) * (r + 1) {
            assert(is_sqrt_floor(n, r));
        } else {
            assert(n == (r + 1) * (r + 1));
            assert(is_sqrt_floor(n, r + 1)) by (nonlinear_arith)
                requires
                    n == (r + 1) * (r + 1),
                    r >= 0,
            ;
        }
    }
}

/// The integer square root is unique.
pub proof fn lemma_sqrt_floor_unique(n: int, r: int)
    requires
        is_sqrt_floor(n, r),
    ensures
        r == sqrt_floor(n),
{
    assert(r * r >= 0) by (nonlinear_arith)
        requires
            r >= 0,
    ;
    lemma_sqrt_floor_exists(n);
    let s = sqrt_floor(n);
    if r < s {
        assert((r + 1) * (r + 1) <= s * s) by (nonlinear_arith)
            requires
                0 <= r,
                r < s,
        ;
        assert(false);
    } else if s < r {
        assert((s + 1) * (s + 1) <= r * r) by (nonlinear_arith)
            requires
                0 <= s,
                s < r,
        ;
        assert(false);
    }
}

/// Larger numbers have no smaller square root.
pub proof fn lemma_sqrt_floor_mono(a: int, b: int)
    requires
        0 <= a <= b,
    ensures
        sqrt_floor(a) <= sqrt_floor(b),
{
    lemma_sqrt_floor_exists(a);
    lemma_sqrt_floor_exists(b);
    let ra = sqrt_floor(a);
    let rb = sqrt_floor(b);
    if rb < ra {
        assert((rb + 1) * (rb + 1) <= ra * ra) by (nonlinear_arith)
            requires
                0 <= rb,
                rb < ra,
        ;
        assert(false);
    }
}

/// Integer square root of `n`, rounded down.
pub fn isqrt(n: u128) -> (r: u64)
    ensures
        r == sqrt_floor(n as int),
        is_sqrt_floor(n as int, r as int),
{
    let mut lo: u128 = 0;
    let mut hi: u128 = 0x10000000000000000;
    proof {
        assert(n < 0x10000000000000000 * 0x10000000000000000);
    }
    while lo + 1 < hi
        invariant
            lo < hi <= 0x10000000000000000,
            lo * lo <= n,
            n < hi * hi,
        decreases hi - lo,
    {
        let mid: u128 = lo + (hi - lo) / 2;
        proof {
            assert(0xffffffffffffffff * 0xffffffffffffffff < 0x100000000000000000000000000000000);
            assert(mid * mid <= 0xffffffffffffffff * 0xffffffffffffffff) by (nonlinear_arith)
                requires
                    0 <= mid <= 0xffffffffffffffff,
            ;
        }
        let sq: u128 = mid * mid;
        if sq <= n {
            lo = mid;
        } else {
            hi = mid;
        }
    }
    proof {
        assert(is_sqrt_floor(n as int, lo as int));
        lemma_sqrt_floor_unique(n as int, lo as int);
    }
    lo as u64
}

} // verus!
