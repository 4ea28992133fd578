//! The pen tool and the flood fill: termination, containment, idempotence,
//! and the guards around degenerate inputs.

use pixrium::canvas::{read_pixel, texture_size, Color, Texture};
use pixrium::fixed::{ONE, HALF};
use pixrium::pen::{flood_fill, PenTool};
use pixrium::projection::SphereProjection;
use pixrium::state::{MouseButton, RectFx, SphereCanvasState, Status, Vec2Fx};
use pixrium::vec3::Vec3Fx;

const W: u32 = 64;
const H: u32 = 32;

fn bound_state() -> SphereCanvasState {
    let mut s = SphereCanvasState::default();
    s.viewport_bounds = RectFx { x: 0, y: 0, width: 800 * ONE, height: 600 * ONE };
    let ok = s.bind_image(W, H, vec![0u8; (4 * W * H) as usize]);
    assert!(ok);
    s
}

fn default_projection() -> SphereProjection {
    SphereProjection::new(
        ONE,
        Vec3Fx { x: ONE, y: 0, z: 0 },
        Vec3Fx { x: 0, y: ONE, z: 0 },
        Vec3Fx { x: 0, y: 0, z: ONE },
    )
}

fn white() -> Color {
    Color { r: 255, g: 255, b: 255, a: 255 }
}

fn snapshot(t: &Texture) -> Vec<Color> {
    let (w, h) = texture_size(t);
    let mut out = Vec::new();
    for y in 0..h {
        for x in 0..w {
            out.push(read_pixel(t, x, y).unwrap());
        }
    }
    out
}

#[test]
fn bind_image_validates_its_inputs() {
    let mut s = SphereCanvasState::default();
    assert!(!s.bind_image(0, 8, vec![0u8; 0]));
    assert!(!s.bind_image(8, 8, vec![0u8; 7]));
    assert!(!s.bind_image(20_000, 1, vec![0u8; 80_000]));
    assert!(s.image.is_none());
    assert!(s.bind_image(8, 8, vec![0u8; 256]));
    assert!(s.image.is_some());
}

#[test]
fn read_pixel_is_bounds_checked() {
    let mut s = SphereCanvasState::default();
    assert!(s.bind_image(8, 8, vec![9u8; 256]));
    let t = s.image.take().unwrap();
    assert_eq!(read_pixel(&t, 0, 0), Some(Color { r: 9, g: 9, b: 9, a: 9 }));
    assert_eq!(read_pixel(&t, 8, 0), None);
    assert_eq!(read_pixel(&t, 0, 8), None);
}

#[test]
fn bound_bytes_come_back_in_row_major_order() {
    let mut s = SphereCanvasState::default();
    let mut bytes = vec![0u8; 256];
    // Texel (2, 1) starts at byte 4 * (1 * 8 + 2).
    let off = 4 * (8 + 2);
    bytes[off] = 1;
    bytes[off + 1] = 2;
    bytes[off + 2] = 3;
    bytes[off + 3] = 4;
    assert!(s.bind_image(8, 8, bytes));
    let t = s.image.take().unwrap();
    assert_eq!(read_pixel(&t, 2, 1), Some(Color { r: 1, g: 2, b: 3, a: 4 }));
    assert_eq!(read_pixel(&t, 1, 2), Some(Color { r: 0, g: 0, b: 0, a: 0 }));
}

#[test]
fn fill_paints_the_centre_and_stays_in_its_bounds() {
    let mut s = bound_state();
    let mut tex = s.image.take().unwrap();
    let p = default_projection();
    let radius2 = 90_000;
    let (painted, bounds) = flood_fill(&p, &mut tex, 32, 16, radius2, white());
    assert!(!painted.is_empty());
    assert_eq!(painted[0], (32, 16));
    assert!(bounds.min_x <= 32 && 32 <= bounds.max_x);
    assert!(bounds.min_y <= 16 && 16 <= bounds.max_y);
    for &(x, y) in &painted {
        assert!(x < W && y < H);
        assert!(bounds.min_x <= x && x <= bounds.max_x);
        assert!(bounds.min_y <= y && y <= bounds.max_y);
    }
    // Exactly the painted texels are white.
    for y in 0..H {
        for x in 0..W {
            let c = read_pixel(&tex, x, y).unwrap();
            let in_list = painted.iter().any(|&t| t == (x, y));
            if in_list {
                assert_eq!(c, white());
            } else {
                assert_eq!(c, Color { r: 0, g: 0, b: 0, a: 0 });
            }
        }
    }
}

#[test]
fn fill_is_idempotent_on_a_static_canvas() {
    let mut s = bound_state();
    let mut tex = s.image.take().unwrap();
    let p = default_projection();
    let (first, bounds1) = flood_fill(&p, &mut tex, 20, 10, 90_000, white());
    let after_first = snapshot(&tex);
    let (second, bounds2) = flood_fill(&p, &mut tex, 20, 10, 90_000, white());
    let after_second = snapshot(&tex);
    assert_eq!(first, second);
    assert_eq!(bounds1, bounds2);
    assert_eq!(after_first, after_second);
}

#[test]
fn fill_handles_the_texture_corner() {
    let mut s = bound_state();
    let mut tex = s.image.take().unwrap();
    let p = default_projection();
    let (painted, _) = flood_fill(&p, &mut tex, 0, 0, 90_000, white());
    assert_eq!(painted[0], (0, 0));
    for &(x, y) in &painted {
        assert!(x < W && y < H);
    }
}

#[test]
fn a_zero_radius_still_paints_the_centre() {
    let mut s = bound_state();
    let mut tex = s.image.take().unwrap();
    let p = default_projection();
    let (painted, _) = flood_fill(&p, &mut tex, 5, 5, 0, white());
    assert!(painted.contains(&(5, 5)));
    assert_eq!(read_pixel(&tex, 5, 5).unwrap(), white());
}

#[test]
fn pen_paints_under_the_pointer() {
    let pen = PenTool::new();
    let mut s = bound_state();
    s.mouse_button = Some(MouseButton::Left);
    s.mouse_point = Vec2Fx { x: 400 * ONE, y: 300 * ONE };
    assert_eq!(pen.on_mouse_moved(&mut s), Status::Captured);
    assert!(s.modified_area.is_some());
    let tex = s.image.take().unwrap();
    // The pointer sits at the view centre, which lands at the texture
    // centre texel (32, 16).
    assert_eq!(read_pixel(&tex, 32, 16).unwrap(), white());
}

#[test]
fn pen_reports_a_normalized_modified_area() {
    let pen = PenTool::new();
    let mut s = bound_state();
    s.mouse_button = Some(MouseButton::Left);
    s.mouse_point = Vec2Fx { x: 400 * ONE, y: 300 * ONE };
    pen.on_mouse_moved(&mut s);
    let area = s.modified_area.unwrap();
    assert!(0 <= area.x && area.x <= ONE);
    assert!(0 <= area.y && area.y <= ONE);
    assert!(0 < area.width && area.width <= ONE);
    assert!(0 < area.height && area.height <= ONE);
}

#[test]
fn pen_needs_the_left_button() {
    let pen = PenTool::new();
    let mut s = bound_state();
    s.mouse_button = Some(MouseButton::Middle);
    s.mouse_point = Vec2Fx { x: 400 * ONE, y: 300 * ONE };
    assert_eq!(pen.on_mouse_moved(&mut s), Status::Ignored);
}

#[test]
fn pen_needs_an_image() {
    let pen = PenTool::new();
    let mut s = SphereCanvasState::default();
    s.viewport_bounds = RectFx { x: 0, y: 0, width: 800 * ONE, height: 600 * ONE };
    s.mouse_button = Some(MouseButton::Left);
    s.mouse_point = Vec2Fx { x: 400 * ONE, y: 300 * ONE };
    assert_eq!(pen.on_mouse_moved(&mut s), Status::Ignored);
}

#[test]
fn pen_ignores_a_degenerate_viewport() {
    let pen = PenTool::new();
    let mut s = bound_state();
    s.viewport_bounds = RectFx { x: 0, y: 0, width: 0, height: 0 };
    s.mouse_button = Some(MouseButton::Left);
    assert_eq!(pen.on_mouse_moved(&mut s), Status::Ignored);
}

#[test]
fn pen_ignores_a_pointer_outside_the_viewport() {
    let pen = PenTool::new();
    let mut s = bound_state();
    s.mouse_button = Some(MouseButton::Left);
    s.mouse_point = Vec2Fx { x: 2000 * ONE, y: 300 * ONE };
    assert_eq!(pen.on_mouse_moved(&mut s), Status::Ignored);
}

#[test]
fn pen_ignores_a_degenerate_angle_of_view() {
    let pen = PenTool::new();
    let mut s = bound_state();
    s.mouse_button = Some(MouseButton::Left);
    s.mouse_point = Vec2Fx { x: 400 * ONE, y: 300 * ONE };
    s.aov = 0;
    assert_eq!(pen.on_mouse_moved(&mut s), Status::Ignored);
    s.aov = -ONE;
    assert_eq!(pen.on_mouse_moved(&mut s), Status::Ignored);
}

#[test]
fn painting_leaves_the_camera_alone() {
    let pen = PenTool::new();
    let mut s = bound_state();
    s.mouse_button = Some(MouseButton::Left);
    s.mouse_point = Vec2Fx { x: 430 * ONE, y: 280 * ONE };
    pen.on_mouse_moved(&mut s);
    assert_eq!(s.aov, ONE);
    assert_eq!(s.look_at, Vec3Fx { x: ONE, y: 0, z: 0 });
    assert_eq!(s.up, Vec3Fx { x: 0, y: ONE, z: 0 });
    assert_eq!(s.right, Vec3Fx { x: 0, y: 0, z: ONE });
}

#[test]
fn centre_texel_view_point_matches_half_half() {
    // The pointer at the viewport centre projects to the texture centre;
    // painting there and at a nearby pointer position gives different
    // centre texels, showing the projection really steers the fill.
    let pen = PenTool::new();
    let mut s = bound_state();
    s.mouse_button = Some(MouseButton::Left);
    s.mouse_point = Vec2Fx { x: 700 * ONE, y: 300 * ONE };
    pen.on_mouse_moved(&mut s);
    let tex = s.image.take().unwrap();
    // A pointer well right of centre lands east of the texture centre.
    assert_eq!(read_pixel(&tex, 32, 16).unwrap(), Color { r: 0, g: 0, b: 0, a: 0 });
    let mut any_east = false;
    for x in 33..W {
        if read_pixel(&tex, x, 16).unwrap() == white() {
            any_east = true;
        }
    }
    assert!(any_east);
}
