//! Exact-value checks of the fixed-point scalar and vector arithmetic.

use handfield::fixed::{FX_ONE, fx_lerp, fx_mul, isqrt, mul_div};
use handfield::vec3::Vec3x;

#[test]
fn isqrt_small_values() {
    assert_eq!(isqrt(0), 0);
    assert_eq!(isqrt(1), 1);
    assert_eq!(isqrt(3), 1);
    assert_eq!(isqrt(4), 2);
    assert_eq!(isqrt(99), 9);
    assert_eq!(isqrt(100), 10);
}

#[test]
fn isqrt_large_values() {
    assert_eq!(isqrt(1_000_000_000_000), 1_000_000);
    assert_eq!(isqrt(u128::MAX), u64::MAX);
    let n: u128 = (1u128 << 64) - 1;
    assert_eq!(isqrt(n * n), n as u64);
}

#[test]
fn fx_mul_scales_by_one_million() {
    assert_eq!(FX_ONE, 1_000_000);
    assert_eq!(fx_mul(2_000_000, 3_000_000), 6_000_000);
    assert_eq!(fx_mul(-2_000_000, 3_000_000), -6_000_000);
    assert_eq!(fx_mul(500_000, 500_000), 250_000);
}

#[test]
fn division_truncates_toward_zero() {
    assert_eq!(mul_div(7, 1, 2), 3);
    assert_eq!(mul_div(-7, 1, 2), -3);
    assert_eq!(fx_mul(-1, 1), 0);
    assert_eq!(fx_mul(1, -1), 0);
}

#[test]
fn lerp_midpoint_and_endpoints() {
    assert_eq!(fx_lerp(0, 10_000_000, 500_000), 5_000_000);
    assert_eq!(fx_lerp(0, 10_000_000, 0), 0);
    assert_eq!(fx_lerp(0, 10_000_000, FX_ONE), 10_000_000);
}

#[test]
fn lerp_never_overshoots() {
    let r = fx_lerp(0, 10, 999_999);
    assert!(0 <= r && r <= 10);
    assert_eq!(r, 9);
    let r2 = fx_lerp(10, 0, 999_999);
    assert!(0 <= r2 && r2 <= 10);
    assert_eq!(r2, 1);
}

#[test]
fn vector_cross_product() {
    let x = Vec3x::new(1_000_000, 0, 0);
    let y = Vec3x::new(0, 1_000_000, 0);
    assert_eq!(x.cross(y), Vec3x::new(0, 0, 1_000_000_000_000));
    assert_eq!(y.cross(x), Vec3x::new(0, 0, -1_000_000_000_000));
}

#[test]
fn vector_normalize() {
    let v = Vec3x::new(3_000_000, 4_000_000, 0);
    assert_eq!(v.normalize_or_zero(), Vec3x::new(600_000, 800_000, 0));
    assert_eq!(Vec3x::zero().normalize_or_zero(), Vec3x::zero());
}

#[test]
fn vector_dot_product() {
    let a = Vec3x::new(1_000_000, 0, 0);
    let b = Vec3x::new(707_107, 707_107, 0);
    assert_eq!(a.dot(b), 707_107_000_000);
}
