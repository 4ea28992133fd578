//! The tools and the dispatch chain: zoom arithmetic, the pan basis
//! invariant, and the fallback order.

use pixrium::fixed::ONE;
use pixrium::dispatch::{ToolDispatch, ToolHandle, ToolKind};
use pixrium::pan::PanTool;
use pixrium::state::{MouseButton, RectFx, SphereCanvasMessage, SphereCanvasState, Status, Vec2Fx};
use pixrium::vec3::{vdot, vnorm2, Vec3Fx};
use pixrium::zoom::ZoomTool;

fn live_state() -> SphereCanvasState {
    let mut s = SphereCanvasState::default();
    s.viewport_bounds = RectFx { x: 0, y: 0, width: 800 * ONE, height: 600 * ONE };
    s
}

#[test]
fn tool_names_and_icons() {
    assert_eq!(PanTool::new().name(), "Pan");
    assert_eq!(PanTool::new().icon(), '\u{ec2e}');
    assert_eq!(ZoomTool::new().name(), "Zoom");
    assert_eq!(ZoomTool::new().icon(), '\u{fdaa}');
    assert_eq!(pixrium::pen::PenTool::new().name(), "Pen");
    assert_eq!(pixrium::pen::PenTool::new().icon(), '\u{eb04}');
}

#[test]
fn tool_handles_compare_by_identity() {
    assert_eq!(ToolHandle { kind: ToolKind::Pan }, ToolHandle { kind: ToolKind::Pan });
    assert_ne!(ToolHandle { kind: ToolKind::Pan }, ToolHandle { kind: ToolKind::Zoom });
}

#[test]
fn zoom_subtracts_a_tenth_of_the_wheel_delta() {
    let zoom = ZoomTool::new();
    let mut s = live_state();
    s.mouse_wheel_delta = 100_000;
    assert_eq!(zoom.on_wheel(&mut s), Status::Captured);
    assert_eq!(s.aov, ONE - 10_000);
}

#[test]
fn zoom_is_strictly_monotone_and_exactly_invertible() {
    let zoom = ZoomTool::new();
    for delta in [10i64, 123, 100_000, 999_999_999] {
        let mut s = live_state();
        let before = s.aov;
        s.mouse_wheel_delta = delta;
        zoom.on_wheel(&mut s);
        assert!(s.aov < before, "delta {} did not shrink the angle", delta);
        s.mouse_wheel_delta = -delta;
        zoom.on_wheel(&mut s);
        assert_eq!(s.aov, before, "delta {} was not undone exactly", delta);
    }
}

#[test]
fn zoom_ignores_deltas_under_ten_millionths() {
    // The update is an integer tenth; a delta below ten units moves nothing,
    // and its opposite moves nothing either, so exact inversion still holds.
    let zoom = ZoomTool::new();
    let mut s = live_state();
    s.mouse_wheel_delta = 5;
    zoom.on_wheel(&mut s);
    assert_eq!(s.aov, ONE);
}

#[test]
fn pan_requires_the_middle_button() {
    let pan = PanTool::new();
    let mut s = live_state();
    s.mouse_delta = Vec2Fx { x: 10 * ONE, y: 0 };
    assert_eq!(pan.on_mouse_moved(&mut s), Status::Ignored);
    assert_eq!(s.look_at, Vec3Fx { x: ONE, y: 0, z: 0 });
}

#[test]
fn pan_ignores_a_degenerate_viewport() {
    let pan = PanTool::new();
    let mut s = SphereCanvasState::default();
    s.mouse_button = Some(MouseButton::Middle);
    s.mouse_delta = Vec2Fx { x: 10 * ONE, y: 0 };
    assert_eq!(pan.on_mouse_moved(&mut s), Status::Ignored);
}

#[test]
fn pan_moves_the_look_direction() {
    let pan = PanTool::new();
    let mut s = live_state();
    s.mouse_button = Some(MouseButton::Middle);
    s.mouse_delta = Vec2Fx { x: 200 * ONE, y: -80 * ONE };
    assert_eq!(pan.on_mouse_moved(&mut s), Status::Captured);
    assert_ne!(s.look_at, Vec3Fx { x: ONE, y: 0, z: 0 });
}

#[test]
fn pan_keeps_the_basis_orthonormal() {
    let pan = PanTool::new();
    let mut s = live_state();
    s.mouse_button = Some(MouseButton::Middle);
    let mut seed: i64 = 0x2545_f491;
    for _ in 0..60 {
        seed = seed.wrapping_mul(6_364_136_223_846_793_005).wrapping_add(1_442_695_040_888_963_407);
        let dx = (seed >> 33) % (400 * ONE);
        let dy = (seed >> 13) % (400 * ONE);
        s.mouse_delta = Vec2Fx { x: dx, y: dy };
        assert_eq!(pan.on_mouse_moved(&mut s), Status::Captured);
        // Unit lengths within 1e-5: squared lengths within 2e7 of ONE^2.
        for v in [s.look_at, s.up, s.right] {
            let n2 = vnorm2(v);
            assert!(
                (n2 - ONE * ONE).abs() <= 20_000_000,
                "basis vector left the unit sphere: {:?} {}",
                v,
                n2
            );
        }
        // Pairwise perpendicular within 1e-4: dot products within 100 units.
        assert!(vdot(s.look_at, s.up).abs() <= 150);
        assert!(vdot(s.look_at, s.right).abs() <= 150);
        assert!(vdot(s.up, s.right).abs() <= 150);
    }
}

#[test]
fn dispatch_updates_pointer_state() {
    let d = ToolDispatch::new();
    let mut s = live_state();
    d.dispatch_event(
        &mut s,
        SphereCanvasMessage::MouseMoved { position: Vec2Fx { x: 5 * ONE, y: 7 * ONE } },
    );
    assert_eq!(s.mouse_point, Vec2Fx { x: 5 * ONE, y: 7 * ONE });
    assert_eq!(s.mouse_delta, Vec2Fx { x: 5 * ONE, y: 7 * ONE });
    d.dispatch_event(
        &mut s,
        SphereCanvasMessage::MousePressed { button: MouseButton::Left, position: None },
    );
    assert_eq!(s.mouse_button, Some(MouseButton::Left));
    assert_eq!(s.mouse_delta, Vec2Fx { x: 0, y: 0 });
    d.dispatch_event(
        &mut s,
        SphereCanvasMessage::MouseReleased { button: MouseButton::Left, position: None },
    );
    assert_eq!(s.mouse_button, None);
    let r = RectFx { x: ONE, y: ONE, width: 400 * ONE, height: 300 * ONE };
    d.dispatch_event(&mut s, SphereCanvasMessage::BoundsChanged(r));
    assert_eq!(s.viewport_bounds, r);
}

#[test]
fn wheel_falls_through_the_active_pan_tool_to_zoom() {
    // The active tool and the pan fallback both ignore a wheel event, so the
    // zoom tool receives it.
    let d = ToolDispatch::new();
    assert_eq!(d.current.kind, ToolKind::Pan);
    let mut s = live_state();
    let r = d.dispatch_event(&mut s, SphereCanvasMessage::MouseWheel { delta: 100_000 });
    assert_eq!(r, Status::Captured);
    assert_eq!(s.aov, ONE - 10_000);
}

#[test]
fn a_move_the_pen_ignores_falls_through_to_pan() {
    // With the pen active but the middle button held, the pen ignores the
    // move and the pan tool captures it.
    let mut d = ToolDispatch::new();
    d.current = ToolHandle { kind: ToolKind::Pen };
    let mut s = live_state();
    s.mouse_point_prev = Vec2Fx { x: 0, y: 0 };
    s.mouse_button = Some(MouseButton::Middle);
    let r = d.dispatch_event(
        &mut s,
        SphereCanvasMessage::MouseMoved { position: Vec2Fx { x: 120 * ONE, y: 40 * ONE } },
    );
    assert_eq!(r, Status::Captured);
    assert_ne!(s.look_at, Vec3Fx { x: ONE, y: 0, z: 0 });
}

#[test]
fn a_move_the_active_pan_tool_captures_reaches_no_fallback() {
    let d = ToolDispatch::new();
    let mut s = live_state();
    s.mouse_button = Some(MouseButton::Middle);
    let aov_before = s.aov;
    let r = d.dispatch_event(
        &mut s,
        SphereCanvasMessage::MouseMoved { position: Vec2Fx { x: 90 * ONE, y: 10 * ONE } },
    );
    assert_eq!(r, Status::Captured);
    // The zoom tool never saw the event: the angle of view is untouched.
    assert_eq!(s.aov, aov_before);
}

#[test]
fn an_event_every_tool_ignores_is_reported_ignored() {
    let d = ToolDispatch::new();
    let mut s = live_state();
    let r = d.dispatch_event(
        &mut s,
        SphereCanvasMessage::MouseMoved { position: Vec2Fx { x: ONE, y: ONE } },
    );
    assert_eq!(r, Status::Ignored);
    assert_eq!(s.look_at, Vec3Fx { x: ONE, y: 0, z: 0 });
    assert_eq!(s.aov, ONE);
}
