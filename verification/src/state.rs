//! The canvas state shared by the tools: pointer, viewport, camera
//! orientation and the texture being painted.

use vstd::prelude::*;
use crate::canvas::Texture;
use crate::fixed::absi;
use crate::projection::SphereProjection;
use crate::vec3::{Vec3Fx, bounded};

verus! {

/// Whether a tool consumed an event or let it fall through.
#[derive(Clone, Copy, PartialEq, Eq, Structural, Debug)]
pub enum Status {
    Captured,
    Ignored,
}

/// A pointer button.
#[derive(Clone, Copy, PartialEq, Eq, Structural, Debug)]
pub enum MouseButton {
    Left,
    Right,
    Middle,
    Other,
}

/// A point or offset in screen pixels, as fixed-point scalars.
#[derive(Clone, Copy, PartialEq, Eq, Structural, Debug)]
pub struct Vec2Fx {
    pub x: i64,
    pub y: i64,
}

/// An axis-aligned rectangle, as fixed-point scalars.
#[derive(Clone, Copy, PartialEq, Eq, Structural, Debug)]
pub struct RectFx {
    pub x: i64,
    pub y: i64,
    pub width: i64,
    pub height: i64,
}

/// An input event, already carried to plain values: what the dispatch layer
/// receives from the window system.
#[derive(Clone, Copy, Debug)]
pub enum SphereCanvasMessage {
    MousePressed { button: MouseButton, position: Option<Vec2Fx> },
    MouseReleased { button: MouseButton, position: Option<Vec2Fx> },
    MouseMoved { position: Vec2Fx },
    MouseWheel { delta: i64 },
    BoundsChanged(RectFx),
}

/// A raw wheel movement: whole lines, or pixels of smooth scrolling.
#[derive(Clone, Copy, PartialEq, Eq, Structural, Debug)]
pub enum ScrollDelta {
    Lines { y: i64 },
    Pixels { y: i64 },
}

/// A raw wheel movement as one wheel delta: lines count as they are, and
/// five pixels of smooth scrolling count as one line.
pub fn normalize_wheel_delta(d: ScrollDelta) -> (r: i64)
    requires
        match d {
            ScrollDelta::Lines { y } => true,
            ScrollDelta::Pixels { y } => y > i64::MIN,
        },
    ensures
        r == match d {
            ScrollDelta::Lines { y } => y as int,
            ScrollDelta::Pixels { y } => crate::fixed::tdiv(y as int, 5),
        },
{
    match d {
        ScrollDelta::Lines { y } => y,
        ScrollDelta::Pixels { y } => crate::fixed::idiv(y, 5),
    }
}

/// The mutable state of the sphere canvas: the pointer, the viewport, the
/// camera and the texture.
pub struct SphereCanvasState {
    pub mouse_button: Option<MouseButton>,
    pub mouse_point: Vec2Fx,
    pub mouse_point_prev: Vec2Fx,
    pub mouse_delta: Vec2Fx,
    pub mouse_wheel_delta: i64,
    pub viewport_bounds: RectFx,
    pub aov: i64,
    pub look_at: Vec3Fx,
    pub up: Vec3Fx,
    pub right: Vec3Fx,
    pub image: Option<Texture>,
    pub modified_area: Option<RectFx>,
}

impl SphereCanvasState {
    /// What every tool assumes and preserves: a basis of near-unit vectors
    /// and pointer and viewport scalars far from the integer limits.  The
    /// angle of view is only magnitude-capped; tools that project check its
    /// sign and size themselves and ignore the event when it is degenerate.
    pub open spec fn wf(self) -> bool {
        &&& bounded(self.look_at, crate::fixed::ONE as int)
        &&& bounded(self.up, crate::fixed::ONE as int)
        &&& bounded(self.right, crate::fixed::ONE as int)
        &&& absi(self.aov as int) <= 100_000_000_000
        &&& absi(self.mouse_wheel_delta as int) <= 1_000_000_000
        &&& absi(self.mouse_point.x as int) <= 1_000_000_000_000
        &&& absi(self.mouse_point.y as int) <= 1_000_000_000_000
        &&& absi(self.mouse_point_prev.x as int) <= 1_000_000_000_000
        &&& absi(self.mouse_point_prev.y as int) <= 1_000_000_000_000
        &&& absi(self.mouse_delta.x as int) <= 2_000_000_000_000
        &&& absi(self.mouse_delta.y as int) <= 2_000_000_000_000
        &&& absi(self.viewport_bounds.x as int) <= 1_000_000_000_000
        &&& absi(self.viewport_bounds.y as int) <= 1_000_000_000_000
        &&& absi(self.viewport_bounds.width as int) <= 1_000_000_000_000
        &&& absi(self.viewport_bounds.height as int) <= 1_000_000_000_000
    }

    /// Snapshots the camera for a projection call.
    pub fn projection_snapshot(&self) -> (p: SphereProjection)
        ensures
            p.aov == self.aov,
            p.look_at == self.look_at,
            p.up == self.up,
            p.right == self.right,
    {
        SphereProjection::new(self.aov, self.look_at, self.up, self.right)
    }

    /// Binds a decoded RGBA image as the paint target.  The buffer is
    /// row-major, four bytes per texel; dimensions outside `1..=16384` or a
    /// buffer of the wrong length are rejected and the state is unchanged.
    pub fn bind_image(&mut self, width: u32, height: u32, bytes: Vec<u8>) -> (ok: bool)
        ensures
            ok <==> (1 <= width <= 16384 && 1 <= height <= 16384 && bytes@.len() == 4 * width
                * height),
            !ok ==> *final(self) == *old(self),
            ok ==> *final(self) == (SphereCanvasState {
                image: final(self).image,
                ..*old(self)
            }),
            ok ==> final(self).image is Some,
            ok ==> crate::canvas::texture_width(final(self).image->Some_0) == width,
            ok ==> crate::canvas::texture_height(final(self).image->Some_0) == height,
            ok ==> forall|x: int, y: int|
                0 <= x < width && 0 <= y < height ==> crate::canvas::texture_pixel(
                    final(self).image->Some_0,
                    x,
                    y,
                ) == (
                    bytes@[4 * (y * width + x)],
                    bytes@[4 * (y * width + x) + 1],
                    bytes@[4 * (y * width + x) + 2],
                    bytes@[4 * (y * width + x) + 3],
                ),
    {
        if !(1 <= width && width <= 16384 && 1 <= height && height <= 16384) {
            return false;
        }
        proof {
            assert(4 * (width as int) * (height as int) <= 1_073_741_824) by (nonlinear_arith)
                requires
                    width <= 16384,
                    height <= 16384,
            ;
        }
        let need: usize = 4 * (width as usize) * (height as usize);
        if bytes.len() != need {
            return false;
        }
        let tex = crate::canvas::texture_from_bytes(width, height, bytes);
        match tex {
            Some(t) => {
                self.image = Some(t);
                true
            },
            None => false,
        }
    }

    /// The pointer position as normalized view coordinates, or nothing while
    /// the viewport is degenerate.
    pub open spec fn mouse_coord_in_view_spec(self) -> Option<Vec2Fx> {
        if self.viewport_bounds.width >= 1 && self.viewport_bounds.height >= 1 {
            Some(
                Vec2Fx {
                    x: crate::fixed::tquot(
                        self.mouse_point.x - self.viewport_bounds.x,
                        self.viewport_bounds.width as int,
                    ) as i64,
                    y: crate::fixed::tquot(
                        self.mouse_point.y - self.viewport_bounds.y,
                        self.viewport_bounds.height as int,
                    ) as i64,
                },
            )
        } else {
            None
        }
    }

    /// The pointer position as normalized view coordinates: its offset into
    /// the viewport over the viewport's extent.
    pub fn get_mouse_coord_in_view(&self) -> (r: Option<Vec2Fx>)
        requires
            self.wf(),
        ensures
            r == self.mouse_coord_in_view_spec(),
    {
        if self.viewport_bounds.width >= 1 && self.viewport_bounds.height >= 1 {
            Some(
                Vec2Fx {
                    x: crate::fixed::fdiv(
                        self.mouse_point.x - self.viewport_bounds.x,
                        self.viewport_bounds.width,
                    ),
                    y: crate::fixed::fdiv(
                        self.mouse_point.y - self.viewport_bounds.y,
                        self.viewport_bounds.height,
                    ),
                },
            )
        } else {
            None
        }
    }
}

impl Default for SphereCanvasState {
    /// The initial state: no pointer activity, the default camera looking
    /// along the positive `x` axis with an angle of view of one radian, and
    /// no texture bound yet.
    fn default() -> (s: SphereCanvasState)
        ensures
            s.mouse_button is None,
            s.mouse_point == (Vec2Fx { x: 0, y: 0 }),
            s.mouse_point_prev == (Vec2Fx { x: 0, y: 0 }),
            s.mouse_delta == (Vec2Fx { x: 0, y: 0 }),
            s.mouse_wheel_delta == 0,
            s.viewport_bounds == (RectFx { x: 0, y: 0, width: 0, height: 0 }),
            s.aov == crate::fixed::ONE,
            s.look_at == (Vec3Fx { x: crate::fixed::ONE, y: 0, z: 0 }),
            s.up == (Vec3Fx { x: 0, y: crate::fixed::ONE, z: 0 }),
            s.right == (Vec3Fx { x: 0, y: 0, z: crate::fixed::ONE }),
            s.image is None,
            s.modified_area is None,
            s.wf(),
    {
        SphereCanvasState {
            mouse_button: None,
            mouse_point: Vec2Fx { x: 0, y: 0 },
            mouse_point_prev: Vec2Fx { x: 0, y: 0 },
            mouse_delta: Vec2Fx { x: 0, y: 0 },
            mouse_wheel_delta: 0,
            viewport_bounds: RectFx { x: 0, y: 0, width: 0, height: 0 },
            aov: crate::fixed::ONE,
            look_at: Vec3Fx { x: crate::fixed::ONE, y: 0, z: 0 },
            up: Vec3Fx { x: 0, y: crate::fixed::ONE, z: 0 },
            right: Vec3Fx { x: 0, y: 0, z: crate::fixed::ONE },
            image: None,
            modified_area: None,
        }
    }
}

} // verus!
