use platformer_control::fx::{fx_div, fx_mul, fx_pow, fx_sqrt, isqrt, FX_ONE};

fn fx(v: f64) -> i64 {
    (v * 65536.0).round() as i64
}

fn to_f64(v: i64) -> f64 {
    v as f64 / 65536.0
}

#[test]
fn fx_mul_exact_values() {
    assert_eq!(fx_mul(3, FX_ONE), 3);
    assert_eq!(fx_mul(FX_ONE, FX_ONE), FX_ONE);
    assert_eq!(fx_mul(fx(0.5), fx(0.5)), fx(0.25));
    assert_eq!(fx_mul(fx(-2.0), fx(3.0)), fx(-6.0));
    assert_eq!(fx_mul(0, 123456), 0);
}

#[test]
fn fx_mul_rounds_toward_zero() {
    // 1.5 * 0.5 == 0.75 exactly; (1/65536) * 0.5 truncates to zero.
    assert_eq!(fx_mul(fx(1.5), fx(0.5)), fx(0.75));
    assert_eq!(fx_mul(1, fx(0.5)), 0);
    assert_eq!(fx_mul(-1, fx(0.5)), 0);
    assert_eq!(fx_mul(-65537, fx(0.5)), -32768);
}

#[test]
fn fx_div_exact_values() {
    assert_eq!(fx_div(FX_ONE, 2 * FX_ONE), fx(0.5));
    assert_eq!(fx_div(fx(-1.0), 2 * FX_ONE), fx(-0.5));
    assert_eq!(fx_div(0, 7 * FX_ONE), 0);
    assert_eq!(fx_div(fx(10.0), fx(10.0)), FX_ONE);
}

#[test]
fn isqrt_exact_squares_and_floors() {
    assert_eq!(isqrt(0), 0);
    assert_eq!(isqrt(1), 1);
    assert_eq!(isqrt(15), 3);
    assert_eq!(isqrt(16), 4);
    assert_eq!(isqrt(0x1_0000_0000), 65536);
    assert_eq!(isqrt(u64::MAX), 0xFFFF_FFFF);
}

#[test]
fn fx_sqrt_values() {
    assert_eq!(fx_sqrt(FX_ONE), FX_ONE);
    assert_eq!(fx_sqrt(fx(0.25)), fx(0.5));
    assert_eq!(fx_sqrt(0), 0);
    // The square root of two, rounded down.
    assert_eq!(fx_sqrt(2 * FX_ONE), 92681);
}

#[test]
fn fx_pow_whole_exponents() {
    // 0.5 ^ 2 == 0.25 exactly.
    assert_eq!(fx_pow(fx(0.5), 2 * FX_ONE), fx(0.25));
    // 1 ^ 10 == 1 exactly.
    assert_eq!(fx_pow(FX_ONE, 10 * FX_ONE), FX_ONE);
    // 0 ^ 1 == 0.
    assert_eq!(fx_pow(0, FX_ONE), 0);
}

#[test]
fn fx_pow_fractional_exponents() {
    // 0.25 ^ 0.5 == 0.5 exactly.
    assert_eq!(fx_pow(fx(0.25), fx(0.5)), fx(0.5));
    // A boost factor: 1.06 ^ 0.016, close to its real value.
    let r = to_f64(fx_pow(fx(1.06), fx(0.016)));
    let dt = to_f64(fx(0.016));
    let expected = 1.06f64.powf(dt);
    assert!((r - expected).abs() < 0.001, "got {r}, expected about {expected}");
    // A brake factor: 0.05 ^ 0.016.
    let r = to_f64(fx_pow(fx(0.05), fx(0.016)));
    let expected = 0.05f64.powf(dt);
    assert!((r - expected).abs() < 0.001, "got {r}, expected about {expected}");
}

#[test]
fn fx_pow_zero_base_fractional_exponent() {
    assert_eq!(fx_pow(0, fx(0.5)), 0);
    assert_eq!(fx_pow(0, fx(7.25)), 0);
}
