//! The spherical projection: centre exactness, the described scenario, and
//! round trips over a sample of views and cameras.

use pixrium::fixed::{ONE, HALF};
use pixrium::pan::PanTool;
use pixrium::projection::{look_at_to_latlng, rad_to_degree, SphereProjection};
use pixrium::state::{MouseButton, SphereCanvasState, Vec2Fx, RectFx};
use pixrium::vec3::Vec3Fx;

fn default_projection(aov: i64) -> SphereProjection {
    SphereProjection::new(
        aov,
        Vec3Fx { x: ONE, y: 0, z: 0 },
        Vec3Fx { x: 0, y: ONE, z: 0 },
        Vec3Fx { x: 0, y: 0, z: ONE },
    )
}

#[test]
fn centre_projects_to_centre() {
    let p = default_projection(ONE);
    assert_eq!(p.proj(HALF, HALF), (HALF, HALF));
}

#[test]
fn scenario_full_offset_lands_where_the_formula_says() {
    // aov = 1, look_at = +x, up = +y, right = +z.  The view offset of one
    // half gives a yaw of half a radian, so the azimuth is atan(0.5) and
    // tex_u = atan(0.5) / (2 pi) + 0.5, about 0.573792.
    let p = default_projection(ONE);
    let (u, v) = p.proj(ONE, HALF);
    assert!((u - 573_792).abs() <= 60, "u = {}", u);
    assert_eq!(v, HALF);
}

#[test]
fn yaw_of_a_full_radian_lands_at_the_quarter_turn_mark() {
    // At the view offset that makes the yaw one full radian the direction
    // has equal x and z, the azimuth is pi / 4, and
    // tex_u = (pi / 4) / (2 pi) + 0.5 = 0.625.
    let p = default_projection(ONE);
    let (u, v) = p.proj(HALF + ONE, HALF);
    assert!((u - 625_000).abs() <= 60, "u = {}", u);
    assert_eq!(v, HALF);
}

#[test]
fn round_trip_at_the_centre_is_exact() {
    for aov in [300_000i64, ONE, 1_900_000, 3_000_000] {
        let p = default_projection(aov);
        let (u, v) = p.proj(HALF, HALF);
        assert_eq!(p.unproj(u, v), (HALF, HALF));
    }
}

/// Cameras reached by panning from the default orientation.
fn panned_states() -> Vec<SphereCanvasState> {
    let pan = PanTool::new();
    let mut out: Vec<SphereCanvasState> = Vec::new();
    let mut s = SphereCanvasState::default();
    s.viewport_bounds = RectFx { x: 0, y: 0, width: 800 * ONE, height: 600 * ONE };
    s.mouse_button = Some(MouseButton::Middle);
    out.push(clone_orientation(&s));
    let drags: [(i64, i64); 6] = [
        (40 * ONE, -25 * ONE),
        (-160 * ONE, 80 * ONE),
        (300 * ONE, 120 * ONE),
        (-90 * ONE, -210 * ONE),
        (500 * ONE, 40 * ONE),
        (-20 * ONE, 330 * ONE),
    ];
    for (dx, dy) in drags {
        s.mouse_delta = Vec2Fx { x: dx, y: dy };
        let _ = pan.on_mouse_moved(&mut s);
        out.push(clone_orientation(&s));
    }
    out
}

fn clone_orientation(s: &SphereCanvasState) -> SphereCanvasState {
    let mut c = SphereCanvasState::default();
    c.aov = s.aov;
    c.look_at = s.look_at;
    c.up = s.up;
    c.right = s.right;
    c
}

#[test]
fn round_trip_recovers_interior_views() {
    for st in panned_states() {
        for aov in [300_000i64, ONE, 1_900_000] {
            let p = SphereProjection::new(aov, st.look_at, st.up, st.right);
            for xi in 0..5u32 {
                for yi in 0..5u32 {
                    let x = 200_000 + (xi as i64) * 150_000;
                    let y = 200_000 + (yi as i64) * 150_000;
                    let (u, v) = p.proj(x, y);
                    assert!((0..=ONE).contains(&u) && (0..=ONE).contains(&v));
                    let (bx, by) = p.unproj(u, v);
                    assert!(
                        (bx - x).abs() <= 1000 && (by - y).abs() <= 1000,
                        "round trip ({}, {}) -> ({}, {}) aov {}",
                        x,
                        y,
                        bx,
                        by,
                        aov
                    );
                }
            }
        }
    }
}

#[test]
fn unprojection_is_total_even_behind_the_camera() {
    let p = default_projection(ONE);
    // The point diametrically opposite the look direction.
    let (x0, y0) = p.unproj(0, HALF);
    let (x1, y1) = p.unproj(ONE, HALF);
    // No particular values are promised there, only totality and bounds.
    for v in [x0, y0, x1, y1] {
        assert!(v.abs() <= 2_000_000_000_000_000 + ONE);
    }
}

#[test]
fn latlng_of_the_default_look_direction_is_zero() {
    let la = Vec3Fx { x: ONE, y: 0, z: 0 };
    assert_eq!(look_at_to_latlng(la), (0, 0));
}

#[test]
fn latlng_follows_the_axes() {
    let east = Vec3Fx { x: 0, y: 0, z: ONE };
    let (lng, lat) = look_at_to_latlng(east);
    assert!((lng - 1_570_796).abs() <= 2);
    assert_eq!(lat, 0);
    let upward = Vec3Fx { x: 0, y: ONE, z: 0 };
    let (_, lat2) = look_at_to_latlng(upward);
    assert!((lat2 - 1_570_796).abs() <= 2);
}

#[test]
fn radians_become_degrees() {
    assert_eq!(rad_to_degree(3_141_593), 180_000_000);
    assert_eq!(rad_to_degree(0), 0);
    assert_eq!(rad_to_degree(-3_141_593), -180_000_000);
}
