//! The pan tool: pointer drags with the middle button held rotate the
//! camera, and the basis is re-derived from the new look direction so that
//! no skew accumulates over a long drag.

use vstd::prelude::*;
use crate::fixed::{clamp_mag, clamp_mag_spec, fdiv, tquot, ONE, PI_FX};
use crate::quat::{quat_from_axis_angle, quat_mul, quat_rotate, from_axis_angle_spec, quat_mul_spec, rotate_spec};
use crate::state::{MouseButton, SphereCanvasState, Status};
use crate::trig::{sin_fx, cos_fx, sin_spec, cos_spec, atan2_fx, atan2_spec};
use crate::vec3::{
    Vec3Fx, bounded, cross_spec, near_unit, norm2_spec, normalize_or_spec, vcross, normalize_or,
    lemma_normalize_near_unit, MIN_NORM2,
};

verus! {

/// The pan tool.
#[derive(Debug)]
pub struct PanTool {
    pub name: String,
    pub icon: char,
}

/// Whether a pointer move pans the camera: the middle button is held and
/// the viewport has width to divide by.
pub open spec fn pan_captures_spec(s: SphereCanvasState) -> bool {
    &&& s.mouse_button == Some(MouseButton::Middle)
    &&& s.viewport_bounds.width >= 1
}

/// The camera after a pan step.  The pointer delta, as a fraction of the
/// viewport width, gives a yaw about `up` and a pitch about `right` (both
/// clamped to a half turn); the composed rotation moves `look_at`, and
/// `right` and `up` are re-derived: `right` horizontal, tangent to the look
/// direction's meridian, `up` completing the basis.
pub open spec fn pan_effect_spec(s: SphereCanvasState) -> SphereCanvasState {
    let yaw: int = clamp_mag_spec(
        tquot(s.mouse_delta.x as int, s.viewport_bounds.width as int),
        PI_FX as int,
    );
    let pitch: int = clamp_mag_spec(
        -tquot(s.mouse_delta.y as int, s.viewport_bounds.width as int),
        PI_FX as int,
    );
    let q = quat_mul_spec(
        from_axis_angle_spec(s.up, yaw),
        from_axis_angle_spec(s.right, -pitch),
    );
    let la = normalize_or_spec(rotate_spec(q, s.look_at), s.look_at);
    let phi: int = atan2_spec(la.z as int, la.x as int);
    let right = normalize_or_spec(
        Vec3Fx { x: (-sin_spec(phi)) as i64, y: 0, z: cos_spec(phi) as i64 },
        s.right,
    );
    let up = normalize_or_spec(cross_spec(right, la), s.up);
    SphereCanvasState { look_at: la, up, right, ..s }
}

/// The basis stays near unit length under panning: each camera vector a pan
/// step produces has a squared length within six millionths of one, as long
/// as the vectors it started from did.  Applied step by step, this holds
/// after any sequence of pan operations from the default camera, whose
/// basis is exactly unit.
pub proof fn lemma_pan_keeps_near_unit(s: SphereCanvasState)
    requires
        near_unit(s.look_at),
        near_unit(s.up),
        near_unit(s.right),
    ensures
        near_unit(pan_effect_spec(s).look_at),
        near_unit(pan_effect_spec(s).up),
        near_unit(pan_effect_spec(s).right),
{
    let e = pan_effect_spec(s);
    let yaw: int = clamp_mag_spec(
        tquot(s.mouse_delta.x as int, s.viewport_bounds.width as int),
        PI_FX as int,
    );
    let pitch: int = clamp_mag_spec(
        -tquot(s.mouse_delta.y as int, s.viewport_bounds.width as int),
        PI_FX as int,
    );
    let q = quat_mul_spec(
        from_axis_angle_spec(s.up, yaw),
        from_axis_angle_spec(s.right, -pitch),
    );
    let rot = rotate_spec(q, s.look_at);
    if norm2_spec(rot) >= MIN_NORM2 {
        lemma_normalize_near_unit(rot, s.look_at);
    }
    let la = normalize_or_spec(rot, s.look_at);
    let phi: int = crate::trig::atan2_spec(la.z as int, la.x as int);
    let r0 = Vec3Fx { x: (-sin_spec(phi)) as i64, y: 0, z: cos_spec(phi) as i64 };
    if norm2_spec(r0) >= MIN_NORM2 {
        lemma_normalize_near_unit(r0, s.right);
    }
    let right = normalize_or_spec(r0, s.right);
    let u0 = cross_spec(right, la);
    if norm2_spec(u0) >= MIN_NORM2 {
        lemma_normalize_near_unit(u0, s.up);
    }
}

impl PanTool {
    /// A pan tool, with its display name and icon.
    pub fn new() -> (t: PanTool)
        ensures
            t.name@ == "Pan"@,
            t.icon == '\u{ec2e}',
    {
        PanTool { name: "Pan".to_owned(), icon: '\u{ec2e}' }
    }

    /// The tool's display name.
    pub fn name(&self) -> (r: &str)
        ensures
            r@ == self.name@,
    {
        self.name.as_str()
    }

    /// The tool's icon.
    pub fn icon(&self) -> (r: char)
        ensures
            r == self.icon,
    {
        self.icon
    }

    /// Pans the camera by the pending pointer delta while the middle button
    /// is held; otherwise, or while the viewport is degenerate, the event
    /// falls through.
    pub fn on_mouse_moved(&self, state: &mut SphereCanvasState) -> (r: Status)
        requires
            old(state).wf(),
        ensures
            pan_captures_spec(*old(state)) ==> r == Status::Captured && *final(state)
                == pan_effect_spec(*old(state)),
            !pan_captures_spec(*old(state)) ==> r == Status::Ignored && *final(state) == *old(
                state,
            ),
            final(state).wf(),
    {
        let held_middle: bool = match state.mouse_button {
            Some(MouseButton::Middle) => true,
            _ => false,
        };
        if held_middle && state.viewport_bounds.width >= 1 {
            let yaw: i64 = clamp_mag(
                fdiv(state.mouse_delta.x, state.viewport_bounds.width),
                PI_FX,
            );
            let pitch: i64 = clamp_mag(
                -fdiv(state.mouse_delta.y, state.viewport_bounds.width),
                PI_FX,
            );
            let q = quat_mul(
                quat_from_axis_angle(state.up, yaw),
                quat_from_axis_angle(state.right, -pitch),
            );
            let la = normalize_or(quat_rotate(q, state.look_at), state.look_at);
            proof {
                assert(bounded(la, ONE as int));
            }
            let phi: i64 = atan2_fx(la.z, la.x);
            let right = normalize_or(
                Vec3Fx { x: -sin_fx(phi), y: 0, z: cos_fx(phi) },
                state.right,
            );
            proof {
                assert(bounded(right, ONE as int));
            }
            let up = normalize_or(vcross(right, la), state.up);
            proof {
                assert(bounded(up, ONE as int));
            }
            state.look_at = la;
            state.right = right;
            state.up = up;
            Status::Captured
        } else {
            Status::Ignored
        }
    }
}

} // verus!
