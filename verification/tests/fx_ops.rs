use sdf_volume::analytic::{analytic_eval, AnalyticSdf};
use sdf_volume::fx::{
    fx_acos, fx_add, fx_clamp, fx_div, fx_mul, fx_neg, fx_sqrt, fx_sub, FX_ONE, FX_PI,
};
use sdf_volume::order::sort3;
use sdf_volume::vec3::{v3_cross, v3_dot, v3_length, v3_length_sq, v3_sub, V3};

fn fx(v: f64) -> i64 {
    (v * 65536.0).round() as i64
}

fn v(x: f64, y: f64, z: f64) -> V3 {
    V3 { x: fx(x), y: fx(y), z: fx(z) }
}

#[test]
fn add_sub_neg_exact() {
    assert_eq!(fx_add(fx(1.5), fx(2.25)), fx(3.75));
    assert_eq!(fx_sub(fx(1.0), fx(3.0)), fx(-2.0));
    assert_eq!(fx_neg(fx(-4.5)), fx(4.5));
}

#[test]
fn add_saturates() {
    assert_eq!(fx_add(i64::MAX, 1), i64::MAX);
    assert_eq!(fx_sub(i64::MIN, 1), i64::MIN);
    assert_eq!(fx_neg(i64::MIN), i64::MAX);
}

#[test]
fn mul_exact_and_truncating() {
    assert_eq!(fx_mul(fx(1.5), fx(2.0)), fx(3.0));
    assert_eq!(fx_mul(fx(-1.5), fx(2.0)), fx(-3.0));
    // 1 raw unit times 1 raw unit truncates toward zero.
    assert_eq!(fx_mul(1, 1), 0);
    assert_eq!(fx_mul(-1, 1), 0);
}

#[test]
fn div_exact_and_by_zero() {
    assert_eq!(fx_div(fx(3.0), fx(2.0)), fx(1.5));
    assert_eq!(fx_div(fx(-3.0), fx(2.0)), fx(-1.5));
    assert_eq!(fx_div(fx(1.0), 0), i64::MAX);
    assert_eq!(fx_div(fx(-1.0), 0), i64::MIN);
    assert_eq!(fx_div(0, 0), 0);
}

#[test]
fn sqrt_exact() {
    assert_eq!(fx_sqrt(fx(4.0)), fx(2.0));
    assert_eq!(fx_sqrt(fx(9.0)), fx(3.0));
    assert_eq!(fx_sqrt(0), 0);
    assert_eq!(fx_sqrt(-5), 0);
    // floor(sqrt(2) * 65536) = 92681
    assert_eq!(fx_sqrt(fx(2.0)), 92681);
}

#[test]
fn clamp_works() {
    assert_eq!(fx_clamp(5, 0, 10), 5);
    assert_eq!(fx_clamp(-5, 0, 10), 0);
    assert_eq!(fx_clamp(15, 0, 10), 10);
}

#[test]
fn acos_endpoints() {
    // acos(1) = 0 exactly in this approximation.
    assert_eq!(fx_acos(FX_ONE), 0);
    // acos(0) = pi/2: the polynomial's constant term.
    assert_eq!(fx_acos(0), 102939);
    // acos(-1) = pi.
    assert_eq!(fx_acos(-FX_ONE), FX_PI);
    // Out-of-range inputs clamp.
    assert_eq!(fx_acos(10 * FX_ONE), 0);
    assert_eq!(fx_acos(-10 * FX_ONE), FX_PI);
}

#[test]
fn acos_midpoint_accuracy() {
    // acos(0.5) = pi/3; the polynomial approximation stays within a few
    // raw units of 1.0471976 * 65536.
    let expected = (std::f64::consts::PI / 3.0 * 65536.0).round() as i64;
    assert!((fx_acos(fx(0.5)) - expected).abs() <= 20);
    let expected_neg = (2.0 * std::f64::consts::PI / 3.0 * 65536.0).round() as i64;
    assert!((fx_acos(fx(-0.5)) - expected_neg).abs() <= 20);
}

#[test]
fn vector_ops_exact() {
    let a = v(1.0, 2.0, 3.0);
    let b = v(0.5, -1.0, 2.0);
    assert_eq!(v3_dot(a, b), fx(1.0 * 0.5 - 2.0 + 6.0));
    let c = v3_cross(v(1.0, 0.0, 0.0), v(0.0, 1.0, 0.0));
    assert_eq!(c, v(0.0, 0.0, 1.0));
    assert_eq!(v3_length_sq(v(3.0, 4.0, 0.0)), fx(25.0));
    assert_eq!(v3_length(v(3.0, 4.0, 0.0)), fx(5.0));
    assert_eq!(v3_sub(a, b), v(0.5, 3.0, 1.0));
}

#[test]
fn analytic_sphere_and_union() {
    let s1 = AnalyticSdf::Sphere { origin: v(0.0, 0.0, 0.0), radius: fx(2.0) };
    let s2 = AnalyticSdf::Sphere { origin: v(10.0, 0.0, 0.0), radius: fx(1.0) };
    assert_eq!(analytic_eval(&s1, v(5.0, 0.0, 0.0)), fx(3.0));
    assert_eq!(analytic_eval(&s1, v(0.0, 1.0, 0.0)), fx(-1.0));
    let u = AnalyticSdf::Union(Box::new(s1), Box::new(s2));
    // Nearer to the second sphere: the union takes the minimum.
    assert_eq!(analytic_eval(&u, v(8.0, 0.0, 0.0)), fx(1.0));
    assert_eq!(analytic_eval(&u, v(1.0, 0.0, 0.0)), fx(-1.0));
}

#[test]
fn sort3_is_permutation_independent() {
    let a = v(0.0, 0.0, 0.0);
    let b = v(1.0, -2.0, 0.5);
    let c = v(-1.0, 5.0, 2.0);
    let base = sort3(a, b, c);
    assert_eq!(base, sort3(a, c, b));
    assert_eq!(base, sort3(b, a, c));
    assert_eq!(base, sort3(b, c, a));
    assert_eq!(base, sort3(c, a, b));
    assert_eq!(base, sort3(c, b, a));
    // Sorted lexicographically: c < a < b on x.
    assert_eq!(base.0, c);
    assert_eq!(base.1, a);
    assert_eq!(base.2, b);
}
