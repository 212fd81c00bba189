//! Fixed-point arithmetic, vectors and angles.

use shooter_core::angle::{Angle, HALF_PI_M, PI_M};
use shooter_core::fx::{abs_i, clamp_i, div_m, isqrt, lerp_m, max_i, min_i, mul_m};
use shooter_core::vec::Vec2;

#[test]
fn milli_products_truncate_toward_zero() {
    assert_eq!(mul_m(1500, 2000), 3000);
    assert_eq!(mul_m(-1500, 2000), -3000);
    assert_eq!(mul_m(999, 1), 0);
    assert_eq!(mul_m(-999, 1), 0);
    assert_eq!(div_m(2999), 2);
    assert_eq!(div_m(-2999), -2);
}

#[test]
fn interpolation_endpoints_are_exact() {
    assert_eq!(lerp_m(100, 900, 0), 100);
    assert_eq!(lerp_m(100, 900, 1000), 900);
    assert_eq!(lerp_m(100, 900, 500), 500);
    assert_eq!(lerp_m(0, 1000, 250), 250);
}

#[test]
fn clamp_min_max_abs() {
    assert_eq!(clamp_i(5, 0, 3), 3);
    assert_eq!(clamp_i(-5, 0, 3), 0);
    assert_eq!(clamp_i(2, 0, 3), 2);
    assert_eq!(min_i(2, 3), 2);
    assert_eq!(max_i(2, 3), 3);
    assert_eq!(abs_i(-7), 7);
}

#[test]
fn integer_square_roots_round_down() {
    assert_eq!(isqrt(0), 0);
    assert_eq!(isqrt(1), 1);
    assert_eq!(isqrt(3), 1);
    assert_eq!(isqrt(4), 2);
    assert_eq!(isqrt(999_999), 999);
    assert_eq!(isqrt(1_000_000), 1000);
    assert_eq!(isqrt(2_000_000), 1414);
}

#[test]
fn vector_length_and_distance() {
    let v = Vec2(3000, 4000);
    assert_eq!(v.len(), 5000);
    assert_eq!(v.len_sq(), 25_000_000);
    assert_eq!(Vec2(0, 0).len(), 0);
    assert_eq!(Vec2(10_000, 0).distance(Vec2(0, 0)), 10_000);
    assert_eq!(Vec2(1000, 1000).distance(Vec2(0, 0)), 1414);
}

#[test]
fn vector_normals_and_rescaling() {
    let v = Vec2(3000, 4000);
    assert_eq!(v.left(), Vec2(-4000, 3000));
    assert_eq!(v.right(), Vec2(4000, -3000));
    let unitized = v.normalize_to(1000);
    assert_eq!(unitized, Vec2(600, 800));
    assert_eq!(Vec2(0, 0).normalize_to(1000), Vec2(0, 0));
}

#[test]
fn angle_of_axis_vectors() {
    assert_eq!(Angle::from_vec(Vec2(1000, 0)).0, 0);
    assert_eq!(Angle::from_vec(Vec2(0, 1000)).0, HALF_PI_M);
    assert_eq!(Angle::from_vec(Vec2(-1000, 0)).0, PI_M);
    assert_eq!(Angle::from_vec(Vec2(0, -1000)).0, -HALF_PI_M);
    assert_eq!(Angle::from_vec(Vec2(0, 0)).0, 0);
}

#[test]
fn angle_normalization_wraps_into_half_turn() {
    assert_eq!(Angle(0).normalize().0, 0);
    assert_eq!(Angle(2 * PI_M + 100).normalize().0, 100);
    assert_eq!(Angle(-2 * PI_M - 100).normalize().0, -100);
    let n = Angle(PI_M + 1).normalize().0;
    assert!((-PI_M..PI_M).contains(&n));
}

#[test]
fn unit_vectors_stay_within_one() {
    let u0 = Angle(0).unit();
    assert_eq!(u0, Vec2(1000, 0));
    let uq = Angle(HALF_PI_M).unit();
    assert_eq!(uq.0, 0);
    assert_eq!(uq.1, 1000);
    for a in [-3142, -2000, -700, 0, 555, 1571, 2500, 3141] {
        let u = Angle(a).unit();
        assert!(u.0 * u.0 + u.1 * u.1 <= 1_000_000);
    }
}

#[test]
fn rotation_by_quarter_turn() {
    let v = Vec2(1000, 0);
    let r = v.rotate(Angle(HALF_PI_M));
    assert_eq!(r.0, 0);
    assert_eq!(r.1, 1000);
}
