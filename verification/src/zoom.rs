//! The zoom tool: wheel input narrows or widens the angle of view.

use vstd::prelude::*;
use crate::fixed::{
    absi, clamp_mag, clamp_mag_spec, idiv, tdiv, lemma_tdiv_neg, lemma_tdiv_large, lemma_tdiv_mag,
};
use crate::state::{SphereCanvasState, Status};

verus! {

/// The magnitude cap on the angle of view.  The update itself stays a pure
/// subtraction; this cap only keeps the scalar far from the integer limits,
/// at about a hundred thousand radians.
pub const AOV_LIMIT: i64 = 100_000_000_000;

/// The zoom tool.
#[derive(Debug)]
pub struct ZoomTool {
    pub name: String,
    pub icon: char,
}

/// The state after a wheel event: a tenth of the wheel delta is taken off
/// the angle of view, and everything else stays.
pub open spec fn zoom_effect_spec(s: SphereCanvasState) -> SphereCanvasState {
    SphereCanvasState {
        aov: clamp_mag_spec(s.aov - tdiv(s.mouse_wheel_delta as int, 10), AOV_LIMIT as int) as i64,
        ..s
    }
}

impl ZoomTool {
    /// A zoom tool, with its display name and icon.
    pub fn new() -> (t: ZoomTool)
        ensures
            t.name@ == "Zoom"@,
            t.icon == '\u{fdaa}',
    {
        ZoomTool { name: "Zoom".to_owned(), icon: '\u{fdaa}' }
    }

    /// The tool's display name.
    pub fn name(&self) -> (r: &str)
        ensures
            r@ == self.name@,
    {
        self.name.as_str()
    }

    /// The tool's icon.
    pub fn icon(&self) -> (r: char)
        ensures
            r == self.icon,
    {
        self.icon
    }

    /// Takes a tenth of the pending wheel delta off the angle of view.
    /// Always captures the event.
    pub fn on_wheel(&self, state: &mut SphereCanvasState) -> (r: Status)
        requires
            old(state).wf(),
        ensures
            r == Status::Captured,
            *final(state) == zoom_effect_spec(*old(state)),
            final(state).wf(),
    {
        let step: i64 = idiv(state.mouse_wheel_delta, 10);
        state.aov = clamp_mag(state.aov - step, AOV_LIMIT);
        Status::Captured
    }
}

/// Zoom monotonicity and exactness: away from the magnitude cap, a wheel
/// delta of at least ten millionths strictly decreases the angle of view,
/// and the opposite delta restores it exactly.
pub proof fn lemma_zoom_monotone_and_inverse(s: SphereCanvasState, delta: i64)
    requires
        absi(s.aov as int) <= 99_000_000_000,
        absi(delta as int) <= 1_000_000_000,
    ensures
        delta >= 10 ==> zoom_effect_spec(
            SphereCanvasState { mouse_wheel_delta: delta, ..s },
        ).aov < s.aov,
        delta <= -10 ==> zoom_effect_spec(
            SphereCanvasState { mouse_wheel_delta: delta, ..s },
        ).aov > s.aov,
        zoom_effect_spec(
            SphereCanvasState {
                mouse_wheel_delta: (-delta) as i64,
                ..zoom_effect_spec(SphereCanvasState { mouse_wheel_delta: delta, ..s })
            },
        ).aov == s.aov,
{
    lemma_tdiv_mag(delta as int, 10);
    lemma_tdiv_neg(delta as int, 10);
    if delta >= 10 {
        lemma_tdiv_large(delta as int, 10);
    }
    if delta <= -10 {
        lemma_tdiv_large(-(delta as int), 10);
    }
}

} // verus!
