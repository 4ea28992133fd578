//! Vectors and quaternions on concrete values.

use pixrium::fixed::{ONE, PI_FX, HALF_PI_FX};
use pixrium::quat::{quat_from_axis_angle, quat_mul, quat_rotate};
use pixrium::vec3::{normalize_or, vadd, vcross, vdot, vnorm2, vscale, vsub, Vec3Fx};

fn v(x: i64, y: i64, z: i64) -> Vec3Fx {
    Vec3Fx { x, y, z }
}

#[test]
fn componentwise_arithmetic() {
    assert_eq!(vadd(v(1, 2, 3), v(4, 5, 6)), v(5, 7, 9));
    assert_eq!(vsub(v(4, 5, 6), v(1, 2, 3)), v(3, 3, 3));
    assert_eq!(vscale(2 * ONE, v(ONE, -ONE, 0)), v(2 * ONE, -2 * ONE, 0));
}

#[test]
fn dot_and_cross_of_the_axes() {
    let x = v(ONE, 0, 0);
    let y = v(0, ONE, 0);
    let z = v(0, 0, ONE);
    assert_eq!(vdot(x, x), ONE);
    assert_eq!(vdot(x, y), 0);
    assert_eq!(vcross(x, y), z);
    assert_eq!(vcross(y, z), x);
    assert_eq!(vcross(z, x), y);
    assert_eq!(vcross(y, x), v(0, 0, -ONE));
}

#[test]
fn squared_length_is_raw_scaled() {
    assert_eq!(vnorm2(v(ONE, 0, 0)), ONE * ONE);
    assert_eq!(vnorm2(v(3, 4, 0)), 25);
}

#[test]
fn normalize_scales_to_unit_length() {
    let r = normalize_or(v(3 * ONE, 4 * ONE, 0), v(ONE, 0, 0));
    assert_eq!(r, v(600_000, 800_000, 0));
    let n2 = vnorm2(r);
    assert!((n2 - ONE * ONE).abs() <= 6 * ONE + 3);
}

#[test]
fn normalize_falls_back_on_a_short_vector() {
    let fallback = v(ONE, 0, 0);
    assert_eq!(normalize_or(v(3, 4, 0), fallback), fallback);
    assert_eq!(normalize_or(v(0, 0, 0), fallback), fallback);
}

#[test]
fn a_quarter_turn_about_the_vertical_axis_swings_x_to_z() {
    let q = quat_from_axis_angle(v(0, ONE, 0), HALF_PI_FX);
    let r = quat_rotate(q, v(ONE, 0, 0));
    // Rotating +x about +y by a quarter turn gives -z.
    assert!(r.x.abs() < 3_000, "{:?}", r);
    assert!((r.z + ONE).abs() < 3_000, "{:?}", r);
    assert!(r.y.abs() < 3_000, "{:?}", r);
}

#[test]
fn a_half_turn_reverses_the_vector() {
    let q = quat_from_axis_angle(v(0, ONE, 0), PI_FX);
    let r = quat_rotate(q, v(ONE, 0, 0));
    assert!((r.x + ONE).abs() < 3_000, "{:?}", r);
    assert!(r.z.abs() < 3_000, "{:?}", r);
}

#[test]
fn composed_rotations_multiply() {
    let qy = quat_from_axis_angle(v(0, ONE, 0), 300_000);
    let qz = quat_from_axis_angle(v(0, 0, ONE), -200_000);
    let q = quat_mul(qy, qz);
    let direct = quat_rotate(q, v(ONE, 0, 0));
    let stepwise = quat_rotate(qy, quat_rotate(qz, v(ONE, 0, 0)));
    // The two ways around the square agree to fixed-point noise.
    assert!((direct.x - stepwise.x).abs() < 3_000);
    assert!((direct.y - stepwise.y).abs() < 3_000);
    assert!((direct.z - stepwise.z).abs() < 3_000);
}
