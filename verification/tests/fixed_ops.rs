//! Exact-value tests of the fixed-point scalar operations and the
//! transcendental kernels.

use dynsat::fixed::{fx_abs, fx_add, fx_div, fx_divn, fx_mul, fx_sub, FX_MAX, FX_ONE};
use dynsat::math::{exp_fx, ln_fx, pow_fx, tan_fx, tanh_fx, LN2_FX};

fn to_f(x: i64) -> f64 {
    x as f64 / 4294967296.0
}

fn from_f(x: f64) -> i64 {
    (x * 4294967296.0) as i64
}

#[test]
fn mul_exact_values() {
    // 1.5 * 2.0 == 3.0 exactly.
    assert_eq!(fx_mul(6442450944, 8589934592), 12884901888);
    // Multiplying by one is the identity.
    assert_eq!(fx_mul(123456789, FX_ONE), 123456789);
    assert_eq!(fx_mul(-123456789, FX_ONE), -123456789);
    // Truncation is toward zero for both signs.
    assert_eq!(fx_mul(3, 3), 0);
    assert_eq!(fx_mul(-3, 3), 0);
}

#[test]
fn div_exact_values() {
    // 1.0 / 2.0 == 0.5 exactly.
    assert_eq!(fx_div(FX_ONE, 8589934592), 2147483648);
    // Dividing by one is the identity.
    assert_eq!(fx_div(-987654321, FX_ONE), -987654321);
    // Integer-count division truncates toward zero.
    assert_eq!(fx_divn(7, 2), 3);
    assert_eq!(fx_divn(-7, 2), -3);
}

#[test]
fn add_saturates_at_range_edge() {
    assert_eq!(fx_add(FX_MAX, FX_MAX), FX_MAX);
    assert_eq!(fx_sub(-FX_MAX, FX_MAX), -FX_MAX);
    assert_eq!(fx_add(FX_MAX, -FX_MAX), 0);
}

#[test]
fn abs_rectifies() {
    assert_eq!(fx_abs(-5), 5);
    assert_eq!(fx_abs(5), 5);
    assert_eq!(fx_abs(0), 0);
    assert_eq!(fx_abs(i64::MIN), FX_MAX);
}

#[test]
fn exp_of_zero_is_one() {
    assert_eq!(exp_fx(0), FX_ONE);
}

#[test]
fn exp_matches_reference() {
    // exp(ln 2) is 2, exp(1) is e, exp(-1) is 1/e, within kernel tolerance.
    assert!((to_f(exp_fx(LN2_FX)) - 2.0).abs() < 1e-6);
    assert!((to_f(exp_fx(FX_ONE)) - 1.0f64.exp()).abs() < 1e-6);
    assert!((to_f(exp_fx(-FX_ONE)) - (-1.0f64).exp()).abs() < 1e-6);
    assert!((to_f(exp_fx(from_f(6.907755))) - 999.99).abs() < 0.1);
}

#[test]
fn ln_matches_reference() {
    assert_eq!(ln_fx(FX_ONE), 0);
    assert!((to_f(ln_fx(8589934592)) - 2.0f64.ln()).abs() < 1e-6);
    assert!((to_f(ln_fx(from_f(1234.5))) - 1234.5f64.ln()).abs() < 1e-6);
}

#[test]
fn pow_matches_reference() {
    // 4.0 ^ 0.5 == 2.0.
    assert!((to_f(pow_fx(from_f(4.0), from_f(0.5))) - 2.0).abs() < 1e-6);
    // x ^ 0 == 1 exactly: the law behind ratio-one compression.
    assert_eq!(pow_fx(from_f(7.25), 0), FX_ONE);
    // 2.0 ^ -0.8, the compressor shape for ratio 5.
    assert!((to_f(pow_fx(from_f(2.0), from_f(-0.8))) - 2.0f64.powf(-0.8)).abs() < 1e-6);
}

#[test]
fn tanh_matches_reference() {
    assert_eq!(tanh_fx(0), 0);
    assert!((to_f(tanh_fx(FX_ONE)) - 1.0f64.tanh()).abs() < 1e-6);
    assert!((to_f(tanh_fx(-FX_ONE)) + 1.0f64.tanh()).abs() < 1e-6);
    // Saturates toward but never reaches full scale.
    assert!(tanh_fx(from_f(30.0)) < FX_ONE);
    assert!(to_f(tanh_fx(from_f(30.0))) > 0.999);
    assert!(tanh_fx(-from_f(30.0)) > -FX_ONE);
}

#[test]
fn tanh_is_nearly_identity_for_small_input() {
    for k in 1..50i64 {
        let x = k * 429497; // about 0.0001 .. 0.005
        let y = tanh_fx(x);
        assert!((to_f(y) - to_f(x)).abs() < 1e-5);
        assert!(y.abs() <= x.abs());
    }
}

#[test]
fn tan_matches_reference() {
    let theta = from_f(std::f64::consts::PI * 1000.0 / 48000.0);
    let g = tan_fx(theta).unwrap();
    assert!((to_f(g) - (std::f64::consts::PI * 1000.0 / 48000.0).tan()).abs() < 1e-6);
    let theta2 = from_f(1.0);
    assert!((to_f(tan_fx(theta2).unwrap()) - 1.0f64.tan()).abs() < 1e-4);
    // Past a quarter turn the cosine goes negative and the warp is refused.
    assert!(tan_fx(from_f(2.0)).is_none());
}
