//! The fixed-point scalar operations on concrete values.

use pixrium::fixed::{absf, clamp_mag, fdiv, fmul, idiv, isqrt, ONE, HALF, PI_FX};
use pixrium::state::{normalize_wheel_delta, ScrollDelta};

#[test]
fn fmul_rescales_products() {
    assert_eq!(fmul(2 * ONE, 3 * ONE), 6 * ONE);
    assert_eq!(fmul(1_500_000, 1_500_000), 2_250_000);
    assert_eq!(fmul(-1_500_000, 1_500_000), -2_250_000);
    assert_eq!(fmul(HALF, HALF), 250_000);
}

#[test]
fn fmul_truncates_toward_zero() {
    assert_eq!(fmul(1, 1), 0);
    assert_eq!(fmul(-3, 500_000), -1);
    assert_eq!(fmul(3, 500_000), 1);
}

#[test]
fn fdiv_rescales_quotients() {
    assert_eq!(fdiv(ONE, 2 * ONE), HALF);
    assert_eq!(fdiv(-ONE, 3 * ONE), -333_333);
    assert_eq!(fdiv(ONE, 3 * ONE), 333_333);
    assert_eq!(fdiv(6 * ONE, -3 * ONE), -2 * ONE);
}

#[test]
fn idiv_truncates_toward_zero() {
    assert_eq!(idiv(7, 2), 3);
    assert_eq!(idiv(-7, 2), -3);
    assert_eq!(idiv(0, 5), 0);
}

#[test]
fn isqrt_rounds_down() {
    assert_eq!(isqrt(0), 0);
    assert_eq!(isqrt(1), 1);
    assert_eq!(isqrt(3), 1);
    assert_eq!(isqrt(4), 2);
    assert_eq!(isqrt(999_999), 999);
    assert_eq!(isqrt(1_000_000_000_000), 1_000_000);
    assert_eq!(isqrt(1_000_000_000_001), 1_000_000);
    assert_eq!(isqrt(4_000_000_000_000_000_000), 2_000_000_000);
}

#[test]
fn magnitude_and_clamp() {
    assert_eq!(absf(-5), 5);
    assert_eq!(absf(5), 5);
    assert_eq!(clamp_mag(2 * PI_FX, PI_FX), PI_FX);
    assert_eq!(clamp_mag(-2 * PI_FX, PI_FX), -PI_FX);
    assert_eq!(clamp_mag(123, PI_FX), 123);
}

#[test]
fn wheel_lines_count_directly() {
    assert_eq!(normalize_wheel_delta(ScrollDelta::Lines { y: 3 * ONE }), 3 * ONE);
    assert_eq!(normalize_wheel_delta(ScrollDelta::Lines { y: -ONE }), -ONE);
}

#[test]
fn wheel_pixels_count_one_fifth() {
    assert_eq!(normalize_wheel_delta(ScrollDelta::Pixels { y: 10 * ONE }), 2 * ONE);
    assert_eq!(normalize_wheel_delta(ScrollDelta::Pixels { y: -7 }), -1);
}
