//! The fixed-point trigonometry against the floating-point reference.

use pixrium::fixed::{ONE, PI_FX, HALF_PI_FX, QUARTER_PI_FX};
use pixrium::trig::{atan2_fx, cos_fx, sin_fx};

fn to_f(v: i64) -> f64 {
    v as f64 / ONE as f64
}

#[test]
fn sine_and_cosine_of_zero_are_exact() {
    assert_eq!(sin_fx(0), 0);
    assert_eq!(cos_fx(0), ONE);
}

#[test]
fn sine_tracks_the_reference() {
    let mut x: i64 = -PI_FX;
    while x <= PI_FX {
        let got = to_f(sin_fx(x));
        let want = to_f(x).sin();
        assert!(
            (got - want).abs() < 5e-5,
            "sin({}) = {} vs {}",
            to_f(x),
            got,
            want
        );
        x += 13_571;
    }
}

#[test]
fn cosine_tracks_the_reference() {
    let mut x: i64 = -PI_FX;
    while x <= PI_FX {
        let got = to_f(cos_fx(x));
        let want = to_f(x).cos();
        assert!(
            (got - want).abs() < 5e-5,
            "cos({}) = {} vs {}",
            to_f(x),
            got,
            want
        );
        x += 13_571;
    }
}

#[test]
fn arc_tangent_axes_are_exact_or_near() {
    assert_eq!(atan2_fx(0, ONE), 0);
    assert_eq!(atan2_fx(0, 123), 0);
    assert_eq!(atan2_fx(0, -ONE), PI_FX);
    assert!((atan2_fx(ONE, 0) - HALF_PI_FX).abs() <= 2);
    assert!((atan2_fx(-ONE, 0) + HALF_PI_FX).abs() <= 2);
}

#[test]
fn arc_tangent_diagonal_is_a_quarter_turn() {
    assert!((atan2_fx(ONE, ONE) - QUARTER_PI_FX).abs() < 30);
    assert!((atan2_fx(-ONE, ONE) + QUARTER_PI_FX).abs() < 30);
    assert!((atan2_fx(ONE, -ONE) - 3 * QUARTER_PI_FX).abs() < 30);
}

#[test]
fn arc_tangent_tracks_the_reference() {
    let mut y: i64 = -2_000_000;
    while y <= 2_000_000 {
        let mut x: i64 = -2_000_000;
        while x <= 2_000_000 {
            if x != 0 || y != 0 {
                let got = to_f(atan2_fx(y, x));
                let want = to_f(y).atan2(to_f(x));
                assert!(
                    (got - want).abs() < 3e-5,
                    "atan2({}, {}) = {} vs {}",
                    to_f(y),
                    to_f(x),
                    got,
                    want
                );
            }
            x += 204_443;
        }
        y += 204_443;
    }
}
