//! Tool dispatch: events go to the active tool first, then fall through to
//! the always-available pan and zoom tools, stopping at the first tool that
//! captures.  The dispatcher also folds each event into the pointer state
//! before any tool sees it.

use vstd::prelude::*;
use crate::fixed::absi;
use crate::pan::{PanTool, pan_captures_spec, pan_effect_spec};
use crate::pen::{PenTool, pen_captures_spec, pen_post, pen_tool_wf};
use crate::state::{SphereCanvasMessage, SphereCanvasState, Status, Vec2Fx};
use crate::zoom::{ZoomTool, zoom_effect_spec};

verus! {

/// The kinds of tool the dispatcher knows.
#[derive(Clone, Copy, PartialEq, Eq, Structural, Debug)]
pub enum ToolKind {
    Pan,
    Zoom,
    Pen,
}

/// A selectable reference to a tool, compared by identity.
#[derive(Clone, Copy, PartialEq, Eq, Structural, Debug)]
pub struct ToolHandle {
    pub kind: ToolKind,
}

/// The dispatcher: the active tool and the tool instances themselves.
#[derive(Debug)]
pub struct ToolDispatch {
    pub current: ToolHandle,
    pub pan: PanTool,
    pub zoom: ZoomTool,
    pub pen: PenTool,
}

/// Event payloads small enough for the pointer arithmetic.
pub open spec fn msg_wf(msg: SphereCanvasMessage) -> bool {
    match msg {
        SphereCanvasMessage::MouseMoved { position } => absi(position.x as int)
            <= 1_000_000_000_000 && absi(position.y as int) <= 1_000_000_000_000,
        SphereCanvasMessage::MouseWheel { delta } => absi(delta as int) <= 1_000_000_000,
        SphereCanvasMessage::BoundsChanged(r) => absi(r.x as int) <= 1_000_000_000_000 && absi(
            r.y as int,
        ) <= 1_000_000_000_000 && absi(r.width as int) <= 1_000_000_000_000 && absi(
            r.height as int,
        ) <= 1_000_000_000_000,
        _ => true,
    }
}

/// The pointer state after an event is folded in, before any tool runs:
/// presses record the button and clear the delta, releases clear the
/// button, moves update point, previous point and delta, wheel events
/// record their delta, and viewport changes record the new bounds.
pub open spec fn pointer_update_spec(s: SphereCanvasState, msg: SphereCanvasMessage)
    -> SphereCanvasState {
    match msg {
        SphereCanvasMessage::MousePressed { button, position } => SphereCanvasState {
            mouse_button: Some(button),
            mouse_delta: Vec2Fx { x: 0, y: 0 },
            ..s
        },
        SphereCanvasMessage::MouseReleased { button, position } => SphereCanvasState {
            mouse_button: None,
            ..s
        },
        SphereCanvasMessage::MouseMoved { position } => SphereCanvasState {
            mouse_delta: Vec2Fx {
                x: (position.x - s.mouse_point_prev.x) as i64,
                y: (position.y - s.mouse_point_prev.y) as i64,
            },
            mouse_point_prev: position,
            mouse_point: position,
            ..s
        },
        SphereCanvasMessage::MouseWheel { delta } => SphereCanvasState {
            mouse_wheel_delta: delta,
            ..s
        },
        SphereCanvasMessage::BoundsChanged(r) => SphereCanvasState { viewport_bounds: r, ..s },
    }
}

/// Whether a tool captures an event, given the state the tools see.
pub open spec fn tool_captures_spec(
    kind: ToolKind,
    s: SphereCanvasState,
    msg: SphereCanvasMessage,
) -> bool {
    match kind {
        ToolKind::Pan => (msg matches SphereCanvasMessage::MouseMoved { .. })
            && pan_captures_spec(s),
        ToolKind::Zoom => msg matches SphereCanvasMessage::MouseWheel { .. },
        ToolKind::Pen => (msg matches SphereCanvasMessage::MouseMoved { .. })
            && pen_captures_spec(s),
    }
}

/// What a capturing tool did to the state.
pub open spec fn tool_post_spec(
    kind: ToolKind,
    pen_width: int,
    pen_color: crate::canvas::Color,
    s: SphereCanvasState,
    s_new: SphereCanvasState,
) -> bool {
    match kind {
        ToolKind::Pan => s_new == pan_effect_spec(s),
        ToolKind::Zoom => s_new == zoom_effect_spec(s),
        ToolKind::Pen => pen_post(pen_width, pen_color, s, s_new),
    }
}

/// Which tool, if any, captures an event: the active tool first, then the
/// pan tool, then the zoom tool.
pub open spec fn dispatch_captured_by(
    current: ToolKind,
    s: SphereCanvasState,
    msg: SphereCanvasMessage,
) -> Option<ToolKind> {
    if tool_captures_spec(current, s, msg) {
        Some(current)
    } else if tool_captures_spec(ToolKind::Pan, s, msg) {
        Some(ToolKind::Pan)
    } else if tool_captures_spec(ToolKind::Zoom, s, msg) {
        Some(ToolKind::Zoom)
    } else {
        None
    }
}

impl ToolDispatch {
    /// A dispatcher with all three tools, the pan tool active, matching the
    /// initial state of the application.
    pub fn new() -> (d: ToolDispatch)
        ensures
            d.current.kind == ToolKind::Pan,
            pen_tool_wf(d.pen.width as int),
    {
        ToolDispatch {
            current: ToolHandle { kind: ToolKind::Pan },
            pan: PanTool::new(),
            zoom: ZoomTool::new(),
            pen: PenTool::new(),
        }
    }

    /// Runs one tool's handler for one event.
    fn run_tool(&self, kind: ToolKind, state: &mut SphereCanvasState, msg: SphereCanvasMessage)
        -> (r: Status)
        requires
            old(state).wf(),
            pen_tool_wf(self.pen.width as int),
        ensures
            tool_captures_spec(kind, *old(state), msg) ==> r == Status::Captured
                && tool_post_spec(
                kind,
                self.pen.width as int,
                self.pen.color,
                *old(state),
                *final(state),
            ),
            !tool_captures_spec(kind, *old(state), msg) ==> r == Status::Ignored && *final(state)
                == *old(state),
            final(state).wf(),
    {
        match kind {
            ToolKind::Pan => match msg {
                SphereCanvasMessage::MouseMoved { .. } => self.pan.on_mouse_moved(state),
                _ => Status::Ignored,
            },
            ToolKind::Zoom => match msg {
                SphereCanvasMessage::MouseWheel { .. } => self.zoom.on_wheel(state),
                _ => Status::Ignored,
            },
            ToolKind::Pen => match msg {
                SphereCanvasMessage::MouseMoved { .. } => self.pen.on_mouse_moved(state),
                _ => Status::Ignored,
            },
        }
    }

    /// Folds the event into the pointer state, then offers it to the active
    /// tool, the pan tool and the zoom tool in turn, stopping at the first
    /// capture.  An event the active tool captures is never offered to the
    /// fallback tools; one every tool ignores leaves the state as the
    /// pointer update made it.
    pub fn dispatch_event(
        &self,
        state: &mut SphereCanvasState,
        msg: SphereCanvasMessage,
    ) -> (r: Status)
        requires
            old(state).wf(),
            msg_wf(msg),
            pen_tool_wf(self.pen.width as int),
        ensures
            ({
                let s1 = pointer_update_spec(*old(state), msg);
                match dispatch_captured_by(self.current.kind, s1, msg) {
                    Some(kind) => r == Status::Captured && tool_post_spec(
                        kind,
                        self.pen.width as int,
                        self.pen.color,
                        s1,
                        *final(state),
                    ),
                    None => r == Status::Ignored && *final(state) == s1,
                }
            }),
            final(state).wf(),
    {
        match msg {
            SphereCanvasMessage::MousePressed { button, position: _ } => {
                state.mouse_button = Some(button);
                state.mouse_delta = Vec2Fx { x: 0, y: 0 };
            },
            SphereCanvasMessage::MouseReleased { button: _, position: _ } => {
                state.mouse_button = None;
            },
            SphereCanvasMessage::MouseMoved { position } => {
                state.mouse_delta = Vec2Fx {
                    x: position.x - state.mouse_point_prev.x,
                    y: position.y - state.mouse_point_prev.y,
                };
                state.mouse_point_prev = position;
                state.mouse_point = position;
            },
            SphereCanvasMessage::MouseWheel { delta } => {
                state.mouse_wheel_delta = delta;
            },
            SphereCanvasMessage::BoundsChanged(r) => {
                state.viewport_bounds = r;
            },
        }
        let mut status: Status = self.run_tool(self.current.kind, state, msg);
        if matches!(status, Status::Ignored) {
            status = self.run_tool(ToolKind::Pan, state, msg);
        }
        if matches!(status, Status::Ignored) {
            status = self.run_tool(ToolKind::Zoom, state, msg);
        }
        status
    }
}

/// The fallback order of the dispatch chain: the active tool sees an event
/// first; one it ignores goes to the pan tool, then to the zoom tool; one
/// it captures is never offered to either fallback.
pub proof fn lemma_dispatch_fallback(
    current: ToolKind,
    s: SphereCanvasState,
    msg: SphereCanvasMessage,
)
    ensures
        tool_captures_spec(current, s, msg) ==> dispatch_captured_by(current, s, msg) == Some(
            current,
        ),
        !tool_captures_spec(current, s, msg) && !tool_captures_spec(ToolKind::Pan, s, msg)
            && tool_captures_spec(ToolKind::Zoom, s, msg) ==> dispatch_captured_by(current, s, msg)
            == Some(ToolKind::Zoom),
        !tool_captures_spec(current, s, msg) && !tool_captures_spec(ToolKind::Pan, s, msg)
            && !tool_captures_spec(ToolKind::Zoom, s, msg) ==> dispatch_captured_by(
            current,
            s,
            msg,
        ) is None,
{
}

} // verus!
