//! The pen tool: a circular brush stroke, measured in view space, painted
//! onto the equirectangular texture by a breadth-first flood fill.
//!
//! Each candidate texel is carried back to view space through the inverse
//! projection and kept when its squared distance to the stroke's reference
//! point is within the brush radius; painting spreads to the four
//! axis-neighbours of every kept texel.  A visited bitmap bounds the work,
//! so the fill terminates on every input.

use vstd::prelude::*;
use crate::canvas::{Color, Texture, texture_width, texture_height, texture_pixel, tex_width, tex_height, tex_put};
use crate::fixed::{absi, absf, clamp_mag, clamp_mag_spec, fdiv, fmul, idiv, tdiv, tmul, tquot, lemma_mag_product, ONE, HALF, TAU_FX};
use crate::projection::SphereProjection;
use crate::state::{MouseButton, RectFx, SphereCanvasState, Status};

verus! {

/// View-space offsets larger than this are out of any brush without further
/// arithmetic; squared distances are computed only below it.
pub const BRUSH_DIST_CAP: i64 = 16_000_000;

/// The largest squared brush radius a fill accepts: the square of four view
/// widths, at the fixed-point scale of squared view offsets.
pub const BRUSH_RADIUS2_MAX: i64 = 16_000_000;

/// The number of true entries in a bitmap.
pub open spec fn count_true(s: Seq<bool>) -> int
    decreases s.len(),
{
    if s.len() == 0 {
        0
    } else {
        count_true(s.drop_last()) + if s.last() {
            1int
        } else {
            0int
        }
    }
}

proof fn lemma_count_true_le(s: Seq<bool>)
    ensures
        0 <= count_true(s) <= s.len(),
    decreases s.len(),
{
    if s.len() > 0 {
        lemma_count_true_le(s.drop_last());
    }
}

proof fn lemma_count_true_update(s: Seq<bool>, i: int)
    requires
        0 <= i < s.len(),
        !s[i],
    ensures
        count_true(s.update(i, true)) == count_true(s) + 1,
    decreases s.len(),
{
    let t = s.update(i, true);
    if i == s.len() - 1 {
        assert(t.drop_last() =~= s.drop_last());
    } else {
        assert(t.drop_last() =~= s.drop_last().update(i, true));
        assert(t.last() == s.last());
        lemma_count_true_update(s.drop_last(), i);
    }
}

proof fn lemma_grid_index(nx: int, ny: int, w: int, h: int)
    by (nonlinear_arith)
    requires
        0 <= nx < w,
        0 <= ny < h,
    ensures
        0 <= ny * w + nx < w * h,
{
}

/// The view-space point of a texel: its normalized texture coordinate
/// carried back through the inverse projection.
pub open spec fn texel_view_spec(p: SphereProjection, w: int, h: int, px: int, py: int) -> (
    int,
    int,
) {
    p.unproj_spec(tquot(px, w), tquot(py, h))
}

/// Whether the texel `(px, py)` lies within the brush: its view-space point
/// is within the squared radius of the reference point `(cvx, cvy)`.
#[verifier::opaque]
pub open spec fn within_brush_spec(
    p: SphereProjection,
    w: int,
    h: int,
    cvx: int,
    cvy: int,
    radius2: int,
    px: int,
    py: int,
) -> bool {
    let vp = texel_view_spec(p, w, h, px, py);
    let dx = vp.0 - cvx;
    let dy = vp.1 - cvy;
    &&& absi(dx) <= BRUSH_DIST_CAP
    &&& absi(dy) <= BRUSH_DIST_CAP
    &&& tmul(dx, dx) + tmul(dy, dy) <= radius2
}

/// Whether a texel occurs in a painted list.
pub open spec fn painted_contains(s: Seq<(u32, u32)>, px: int, py: int) -> bool {
    exists|j: int| 0 <= j < s.len() && s[j].0 == px && s[j].1 == py
}

/// Whether two texels are four-neighbours.
pub open spec fn adjacent(tx: int, ty: int, nx: int, ny: int) -> bool {
    ||| nx == tx + 1 && ny == ty
    ||| nx == tx - 1 && ny == ty
    ||| nx == tx && ny == ty + 1
    ||| nx == tx && ny == ty - 1
}

/// The painted list swallows its whole brush component: every in-bounds
/// four-neighbour of a painted texel that is itself within the brush is
/// painted too.
#[verifier::opaque]
pub open spec fn brush_closed(
    p: SphereProjection,
    w: int,
    h: int,
    cvx: int,
    cvy: int,
    radius2: int,
    s: Seq<(u32, u32)>,
) -> bool {
    forall|j: int, nx: int, ny: int|
        0 <= j < s.len() && #[trigger] adjacent(s[j].0 as int, s[j].1 as int, nx, ny) && 0 <= nx
            < w && 0 <= ny < h && within_brush_spec(p, w, h, cvx, cvy, radius2, nx, ny)
            ==> painted_contains(s, nx, ny)
}

/// A walk from the stroke's centre texel: on the grid throughout, each step
/// to a four-neighbour, and every texel before the last within the brush.
#[verifier::opaque]
pub open spec fn is_brush_path(
    p: SphereProjection,
    w: int,
    h: int,
    cvx: int,
    cvy: int,
    radius2: int,
    cx: int,
    cy: int,
    path: Seq<(u32, u32)>,
) -> bool {
    &&& path.len() >= 1
    &&& path[0].0 == cx && path[0].1 == cy
    &&& forall|k: int| 0 <= k < path.len() ==> (#[trigger] path[k]).0 < w && path[k].1 < h
    &&& forall|k: int|
        0 <= k < path.len() - 1 ==> adjacent(
            (#[trigger] path[k]).0 as int,
            path[k].1 as int,
            path[k + 1].0 as int,
            path[k + 1].1 as int,
        )
    &&& forall|k: int|
        0 <= k < path.len() - 1 ==> within_brush_spec(
            p,
            w,
            h,
            cvx,
            cvy,
            radius2,
            (#[trigger] path[k]).0 as int,
            path[k].1 as int,
        )
}

/// Whether a texel can be walked to from the centre through the brush.
#[verifier::opaque]
pub open spec fn brush_reachable(
    p: SphereProjection,
    w: int,
    h: int,
    cvx: int,
    cvy: int,
    radius2: int,
    cx: int,
    cy: int,
    nx: int,
    ny: int,
) -> bool {
    exists|path: Seq<(u32, u32)>|
        is_brush_path(p, w, h, cvx, cvy, radius2, cx, cy, path) && path.last().0 == nx
            && path.last().1 == ny
}

proof fn lemma_reach_centre(
    p: SphereProjection,
    w: int,
    h: int,
    cvx: int,
    cvy: int,
    radius2: int,
    cx: u32,
    cy: u32,
)
    requires
        cx < w,
        cy < h,
    ensures
        brush_reachable(p, w, h, cvx, cvy, radius2, cx as int, cy as int, cx as int, cy as int),
{
    reveal(is_brush_path);
    reveal(brush_reachable);
    let path: Seq<(u32, u32)> = seq![(cx, cy)];
    assert(is_brush_path(p, w, h, cvx, cvy, radius2, cx as int, cy as int, path));
    assert(path.last() == (cx, cy));
}

proof fn lemma_reach_step(
    p: SphereProjection,
    w: int,
    h: int,
    cvx: int,
    cvy: int,
    radius2: int,
    cx: int,
    cy: int,
    tx: int,
    ty: int,
    n: (u32, u32),
)
    requires
        brush_reachable(p, w, h, cvx, cvy, radius2, cx, cy, tx, ty),
        within_brush_spec(p, w, h, cvx, cvy, radius2, tx, ty),
        adjacent(tx, ty, n.0 as int, n.1 as int),
        n.0 < w,
        n.1 < h,
    ensures
        brush_reachable(p, w, h, cvx, cvy, radius2, cx, cy, n.0 as int, n.1 as int),
{
    reveal(is_brush_path);
    reveal(brush_reachable);
    let path = choose|path: Seq<(u32, u32)>|
        is_brush_path(p, w, h, cvx, cvy, radius2, cx, cy, path) && path.last().0 == tx
            && path.last().1 == ty;
    let p2 = path.push(n);
    assert(p2.last() == n);
    assert(p2[0] == path[0]);
    assert forall|k: int| 0 <= k < p2.len() implies (#[trigger] p2[k]).0 < w && p2[k].1 < h by {
        if k < path.len() {
            assert(p2[k] == path[k]);
        }
    }
    assert forall|k: int|
        0 <= k < p2.len() - 1 implies adjacent(
        (#[trigger] p2[k]).0 as int,
        p2[k].1 as int,
        p2[k + 1].0 as int,
        p2[k + 1].1 as int,
    ) by {
        if k < path.len() - 1 {
            assert(p2[k] == path[k] && p2[k + 1] == path[k + 1]);
        } else {
            assert(p2[k] == path.last() && p2[k + 1] == n);
        }
    }
    assert forall|k: int|
        0 <= k < p2.len() - 1 implies within_brush_spec(
        p,
        w,
        h,
        cvx,
        cvy,
        radius2,
        (#[trigger] p2[k]).0 as int,
        p2[k].1 as int,
    ) by {
        if k < path.len() - 1 {
            assert(p2[k] == path[k]);
        } else {
            assert(p2[k] == path.last());
        }
    }
    assert(is_brush_path(p, w, h, cvx, cvy, radius2, cx, cy, p2));
}

/// A set that holds the centre and swallows neighbours holds the end of
/// every brush walk whose end is itself within the brush.
proof fn lemma_path_in_closed(
    p: SphereProjection,
    w: int,
    h: int,
    cvx: int,
    cvy: int,
    radius2: int,
    cx: int,
    cy: int,
    path: Seq<(u32, u32)>,
    s: Seq<(u32, u32)>,
)
    requires
        is_brush_path(p, w, h, cvx, cvy, radius2, cx, cy, path),
        painted_contains(s, cx, cy),
        brush_closed(p, w, h, cvx, cvy, radius2, s),
        within_brush_spec(p, w, h, cvx, cvy, radius2, path.last().0 as int, path.last().1 as int),
    ensures
        painted_contains(s, path.last().0 as int, path.last().1 as int),
    decreases path.len(),
{
    reveal(is_brush_path);
    reveal(brush_closed);
    if path.len() == 1 {
        assert(path.last() == path[0]);
    } else {
        let pre = path.drop_last();
        assert(pre.len() == path.len() - 1);
        assert forall|k: int| 0 <= k < pre.len() implies (#[trigger] pre[k]).0 < w && pre[k].1
            < h by {
            assert(pre[k] == path[k]);
        }
        assert forall|k: int|
            0 <= k < pre.len() - 1 implies adjacent(
            (#[trigger] pre[k]).0 as int,
            pre[k].1 as int,
            pre[k + 1].0 as int,
            pre[k + 1].1 as int,
        ) by {
            assert(pre[k] == path[k] && pre[k + 1] == path[k + 1]);
        }
        assert forall|k: int|
            0 <= k < pre.len() - 1 implies within_brush_spec(
            p,
            w,
            h,
            cvx,
            cvy,
            radius2,
            (#[trigger] pre[k]).0 as int,
            pre[k].1 as int,
        ) by {
            assert(pre[k] == path[k]);
        }
        assert(pre[0] == path[0]);
        assert(is_brush_path(p, w, h, cvx, cvy, radius2, cx, cy, pre));
        assert(pre.last() == path[path.len() - 2]);
        assert(within_brush_spec(
            p,
            w,
            h,
            cvx,
            cvy,
            radius2,
            pre.last().0 as int,
            pre.last().1 as int,
        ));
        lemma_path_in_closed(p, w, h, cvx, cvy, radius2, cx, cy, pre, s);
        let j = choose|j: int|
            0 <= j < s.len() && s[j].0 == pre.last().0 as int && s[j].1 == pre.last().1 as int;
        assert(adjacent(
            s[j].0 as int,
            s[j].1 as int,
            path.last().0 as int,
            path.last().1 as int,
        )) by {
            assert(adjacent(
                path[path.len() - 2].0 as int,
                path[path.len() - 2].1 as int,
                path.last().0 as int,
                path.last().1 as int,
            ));
        }
        assert(painted_contains(s, path.last().0 as int, path.last().1 as int));
    }
}

/// The painted set is determined: any two lists that hold the centre, stay
/// sound for the brush, and swallow their neighbours hold exactly the same
/// texels.
pub proof fn lemma_fill_component_unique(
    p: SphereProjection,
    w: int,
    h: int,
    cvx: int,
    cvy: int,
    radius2: int,
    cx: int,
    cy: int,
    s1: Seq<(u32, u32)>,
    s2: Seq<(u32, u32)>,
)
    requires
        painted_contains(s1, cx, cy),
        painted_contains(s2, cx, cy),
        brush_closed(p, w, h, cvx, cvy, radius2, s1),
        brush_closed(p, w, h, cvx, cvy, radius2, s2),
        forall|j: int|
            0 <= j < s1.len() ==> within_brush_spec(
                p,
                w,
                h,
                cvx,
                cvy,
                radius2,
                (#[trigger] s1[j]).0 as int,
                s1[j].1 as int,
            ) && brush_reachable(
                p,
                w,
                h,
                cvx,
                cvy,
                radius2,
                cx,
                cy,
                s1[j].0 as int,
                s1[j].1 as int,
            ),
        forall|j: int|
            0 <= j < s2.len() ==> within_brush_spec(
                p,
                w,
                h,
                cvx,
                cvy,
                radius2,
                (#[trigger] s2[j]).0 as int,
                s2[j].1 as int,
            ) && brush_reachable(
                p,
                w,
                h,
                cvx,
                cvy,
                radius2,
                cx,
                cy,
                s2[j].0 as int,
                s2[j].1 as int,
            ),
    ensures
        forall|px: int, py: int| painted_contains(s1, px, py) <==> painted_contains(s2, px, py),
{
    reveal(brush_reachable);
    assert forall|px: int, py: int|
        painted_contains(s1, px, py) implies painted_contains(s2, px, py) by {
        let j = choose|j: int| 0 <= j < s1.len() && s1[j].0 == px && s1[j].1 == py;
        let path = choose|path: Seq<(u32, u32)>|
            is_brush_path(p, w, h, cvx, cvy, radius2, cx, cy, path) && path.last().0
                == s1[j].0 as int && path.last().1 == s1[j].1 as int;
        lemma_path_in_closed(p, w, h, cvx, cvy, radius2, cx, cy, path, s2);
    }
    assert forall|px: int, py: int|
        painted_contains(s2, px, py) implies painted_contains(s1, px, py) by {
        let j = choose|j: int| 0 <= j < s2.len() && s2[j].0 == px && s2[j].1 == py;
        let path = choose|path: Seq<(u32, u32)>|
            is_brush_path(p, w, h, cvx, cvy, radius2, cx, cy, path) && path.last().0
                == s2[j].0 as int && path.last().1 == s2[j].1 as int;
        lemma_path_in_closed(p, w, h, cvx, cvy, radius2, cx, cy, path, s1);
    }
}

/// Running the fill again over its own output changes nothing: the second
/// run's painted set is the same component, and repainting it with the same
/// color is the identity on every texel.
pub proof fn lemma_fill_idempotent(
    p: SphereProjection,
    w: int,
    h: int,
    cvx: int,
    cvy: int,
    radius2: int,
    cx: int,
    cy: int,
    color: Color,
    t1: Texture,
    t2: Texture,
    s1: Seq<(u32, u32)>,
    s2: Seq<(u32, u32)>,
)
    requires
        painted_contains(s1, cx, cy),
        painted_contains(s2, cx, cy),
        brush_closed(p, w, h, cvx, cvy, radius2, s1),
        brush_closed(p, w, h, cvx, cvy, radius2, s2),
        forall|j: int|
            0 <= j < s1.len() ==> within_brush_spec(
                p,
                w,
                h,
                cvx,
                cvy,
                radius2,
                (#[trigger] s1[j]).0 as int,
                s1[j].1 as int,
            ) && brush_reachable(
                p,
                w,
                h,
                cvx,
                cvy,
                radius2,
                cx,
                cy,
                s1[j].0 as int,
                s1[j].1 as int,
            ),
        forall|j: int|
            0 <= j < s2.len() ==> within_brush_spec(
                p,
                w,
                h,
                cvx,
                cvy,
                radius2,
                (#[trigger] s2[j]).0 as int,
                s2[j].1 as int,
            ) && brush_reachable(
                p,
                w,
                h,
                cvx,
                cvy,
                radius2,
                cx,
                cy,
                s2[j].0 as int,
                s2[j].1 as int,
            ),
        // the first run painted s1 onto some canvas, giving t1
        forall|px: int, py: int|
            0 <= px < w && 0 <= py < h && painted_contains(s1, px, py) ==> texture_pixel(
                t1,
                px,
                py,
            ) == color.channels(),
        // the second run painted s2 over t1, giving t2
        forall|px: int, py: int|
            0 <= px < w && 0 <= py < h ==> texture_pixel(t2, px, py) == (if painted_contains(
                s2,
                px,
                py,
            ) {
                color.channels()
            } else {
                texture_pixel(t1, px, py)
            }),
    ensures
        forall|px: int, py: int|
            0 <= px < w && 0 <= py < h ==> texture_pixel(t2, px, py) == texture_pixel(t1, px, py),
{
    lemma_fill_component_unique(p, w, h, cvx, cvy, radius2, cx, cy, s1, s2);
}

/// The row-major position of a texel in the visited bitmap.
pub open spec fn grid_idx(nx: int, ny: int, w: int) -> int {
    ny * w + nx
}

proof fn lemma_grid_idx_inj(ax: int, ay: int, bx: int, by: int, w: int)
    by (nonlinear_arith)
    requires
        0 <= ax < w,
        0 <= bx < w,
        0 <= ay,
        0 <= by,
        grid_idx(ax, ay, w) == grid_idx(bx, by, w),
    ensures
        ax == bx && ay == by,
{
}

/// A texel is in each of the four one-step directions that stay on the
/// grid.
spec fn neighbors_enqueued(q: Seq<(u32, u32)>, tx: int, ty: int, w: int, h: int) -> bool {
    &&& tx + 1 < w ==> painted_contains(q, tx + 1, ty)
    &&& tx - 1 >= 0 ==> painted_contains(q, tx - 1, ty)
    &&& ty + 1 < h ==> painted_contains(q, tx, ty + 1)
    &&& ty - 1 >= 0 ==> painted_contains(q, tx, ty - 1)
}

/// A texel index as a normalized texture coordinate.
fn texel_to_uv(px: u32, w: u32) -> (r: i64)
    requires
        1 <= w <= 16384,
        px <= w,
    ensures
        r == tquot(px as int, w as int),
        0 <= r <= ONE,
{
    let r: i64 = fdiv(px as i64, w as i64);
    proof {
        assert(r <= ONE) by (nonlinear_arith)
            requires
                absi(r as int) * absi(w as int) <= absi(px as int) * (ONE as int),
                0 <= px <= w,
                w >= 1,
                r >= 0,
        ;
    }
    r
}

/// Decides [`within_brush_spec`] for one texel.
fn within_check(
    p: &SphereProjection,
    w: u32,
    h: u32,
    cvx: i64,
    cvy: i64,
    radius2: i64,
    px: u32,
    py: u32,
) -> (b: bool)
    requires
        p.wf(),
        1 <= w <= 16384,
        1 <= h <= 16384,
        px < w,
        py < h,
        absi(cvx as int) <= 2_000_000_000_000_000,
        absi(cvy as int) <= 2_000_000_000_000_000,
    ensures
        b == within_brush_spec(
            *p,
            w as int,
            h as int,
            cvx as int,
            cvy as int,
            radius2 as int,
            px as int,
            py as int,
        ),
{
    proof {
        reveal(within_brush_spec);
    }
    let u: i64 = texel_to_uv(px, w);
    let v: i64 = texel_to_uv(py, h);
    let vp: (i64, i64) = p.unproj(u, v);
    let dx: i64 = vp.0 - cvx;
    let dy: i64 = vp.1 - cvy;
    if absf(dx) > BRUSH_DIST_CAP || absf(dy) > BRUSH_DIST_CAP {
        false
    } else {
        fmul(dx, dx) + fmul(dy, dy) <= radius2
    }
}

proof fn lemma_painted_contains_push(s: Seq<(u32, u32)>, t: (u32, u32), px: int, py: int)
    ensures
        painted_contains(s.push(t), px, py) <==> (painted_contains(s, px, py) || (t.0 == px
            && t.1 == py)),
{
    let sp = s.push(t);
    if painted_contains(s, px, py) {
        let j = choose|j: int| 0 <= j < s.len() && s[j].0 == px && s[j].1 == py;
        assert(sp[j].0 == px && sp[j].1 == py);
    }
    if t.0 == px && t.1 == py {
        assert(sp[s.len() as int].0 == px && sp[s.len() as int].1 == py);
    }
    if painted_contains(sp, px, py) && !(t.0 == px && t.1 == py) {
        let j = choose|j: int| 0 <= j < sp.len() && sp[j].0 == px && sp[j].1 == py;
        assert(j < s.len());
        assert(s[j].0 == px && s[j].1 == py);
    }
}

/// The bounding box of the texels a fill visited, in texel indices.
#[derive(Clone, Copy, PartialEq, Eq, Structural, Debug)]
pub struct FillBounds {
    pub min_x: u32,
    pub min_y: u32,
    pub max_x: u32,
    pub max_y: u32,
}

/// Membership survives extension: a texel found in a prefix is in the
/// whole.
proof fn lemma_contains_prefix(q1: Seq<(u32, u32)>, q2: Seq<(u32, u32)>, px: int, py: int)
    requires
        q1.is_prefix_of(q2),
        painted_contains(q1, px, py),
    ensures
        painted_contains(q2, px, py),
{
    let j = choose|j: int| 0 <= j < q1.len() && q1[j].0 == px && q1[j].1 == py;
    assert(q2.subrange(0, q1.len() as int)[j] == q2[j]);
    assert(q2[j].0 == px && q2[j].1 == py);
}

/// Elements of a prefix read the same in the whole.
proof fn lemma_prefix_index(q1: Seq<(u32, u32)>, q2: Seq<(u32, u32)>, i: int)
    requires
        q1.is_prefix_of(q2),
        0 <= i < q1.len(),
    ensures
        q1[i] == q2[i],
{
    assert(q2.subrange(0, q1.len() as int)[i] == q2[i]);
}

/// Every visited texel has been put in the queue.
spec fn visited_covered(vis: Seq<bool>, q: Seq<(u32, u32)>, w: int, h: int) -> bool {
    forall|ax: int, ay: int|
        0 <= ax < w && 0 <= ay < h && vis[#[trigger] grid_idx(ax, ay, w)] ==> painted_contains(
            q,
            ax,
            ay,
        )
}

/// Offers one neighbour to the pending queue: an in-bounds texel not yet
/// visited is marked and enqueued; anything else changes nothing.  Either
/// way the in-bounds neighbour ends up somewhere in the queue.
fn visit_neighbor(
    queue: &mut Vec<(u32, u32)>,
    visited: &mut Vec<bool>,
    vcount: &mut usize,
    nx: u32,
    ny: u32,
    w: u32,
    h: u32,
)
    requires
        1 <= w <= 16384,
        1 <= h <= 16384,
        old(visited)@.len() == w * h,
        *old(vcount) == count_true(old(visited)@),
        old(queue)@.len() == 1 + *old(vcount),
        visited_covered(old(visited)@, old(queue)@, w as int, h as int),
        forall|i: int|
            0 <= i < old(queue)@.len() ==> (#[trigger] old(queue)@[i]).0 < w && old(queue)@[i].1
                < h,
    ensures
        final(visited)@.len() == w * h,
        *final(vcount) == count_true(final(visited)@),
        final(queue)@.len() == 1 + *final(vcount),
        *final(vcount) <= w * h,
        visited_covered(final(visited)@, final(queue)@, w as int, h as int),
        forall|i: int|
            0 <= i < final(queue)@.len() ==> (#[trigger] final(queue)@[i]).0 < w
                && final(queue)@[i].1 < h,
        old(queue)@.is_prefix_of(final(queue)@),
        final(queue)@ == old(queue)@ || final(queue)@ == old(queue)@.push((nx, ny)),
        nx < w && ny < h ==> painted_contains(final(queue)@, nx as int, ny as int),
{
    proof {
        lemma_count_true_le(old(visited)@);
    }
    if nx < w && ny < h {
        proof {
            lemma_grid_index(nx as int, ny as int, w as int, h as int);
            assert((ny as int) * (w as int) + (nx as int) < 268_435_456 && (w as int) * (
            h as int) <= 268_435_456) by (nonlinear_arith)
                requires
                    nx < w,
                    ny < h,
                    1 <= w <= 16384,
                    1 <= h <= 16384,
            ;
        }
        let idx: usize = (ny as usize) * (w as usize) + (nx as usize);
        proof {
            assert(idx == grid_idx(nx as int, ny as int, w as int));
        }
        if !visited[idx] {
            proof {
                lemma_count_true_update(visited@, idx as int);
                lemma_count_true_le(visited@.update(idx as int, true));
            }
            let ghost q0 = queue@;
            visited.set(idx, true);
            *vcount = *vcount + 1;
            queue.push((nx, ny));
            proof {
                assert(queue@ =~= q0.push((nx, ny)));
                assert(q0.is_prefix_of(queue@)) by {
                    assert(q0 =~= queue@.subrange(0, q0.len() as int));
                }
                assert(painted_contains(queue@, nx as int, ny as int)) by {
                    assert(queue@[q0.len() as int] == (nx, ny));
                }
                assert(visited@ =~= old(visited)@.update(idx as int, true));
                assert forall|ax: int, ay: int|
                    0 <= ax < w && 0 <= ay < h && visited@[#[trigger] grid_idx(
                        ax,
                        ay,
                        w as int,
                    )] implies painted_contains(queue@, ax, ay) by {
                    lemma_grid_index(ax, ay, w as int, h as int);
                    if grid_idx(ax, ay, w as int) == idx {
                        lemma_grid_idx_inj(ax, ay, nx as int, ny as int, w as int);
                    } else {
                        assert(old(visited)@[grid_idx(ax, ay, w as int)]);
                        assert(painted_contains(q0, ax, ay));
                        lemma_contains_prefix(q0, queue@, ax, ay);
                    }
                }
            }
        } else {
            proof {
                assert(queue@.is_prefix_of(queue@)) by {
                    assert(queue@ =~= queue@.subrange(0, queue@.len() as int));
                }
            }
        }
    } else {
        proof {
            assert(queue@.is_prefix_of(queue@)) by {
                assert(queue@ =~= queue@.subrange(0, queue@.len() as int));
            }
        }
    }
}

/// Queue growth keeps every entry reachable: a pushed neighbour of a
/// reachable, within-brush texel is itself reachable.
proof fn lemma_queue_reach_push(
    p: SphereProjection,
    w: int,
    h: int,
    cvx: int,
    cvy: int,
    radius2: int,
    cx: int,
    cy: int,
    q1: Seq<(u32, u32)>,
    q2: Seq<(u32, u32)>,
    tx: int,
    ty: int,
    n: (u32, u32),
)
    requires
        q2 == q1 || (q2 == q1.push(n) && adjacent(tx, ty, n.0 as int, n.1 as int) && n.0 < w
            && n.1 < h),
        forall|i: int|
            0 <= i < q1.len() ==> brush_reachable(
                p,
                w,
                h,
                cvx,
                cvy,
                radius2,
                cx,
                cy,
                (#[trigger] q1[i]).0 as int,
                q1[i].1 as int,
            ),
        brush_reachable(p, w, h, cvx, cvy, radius2, cx, cy, tx, ty),
        within_brush_spec(p, w, h, cvx, cvy, radius2, tx, ty),
    ensures
        forall|i: int|
            0 <= i < q2.len() ==> brush_reachable(
                p,
                w,
                h,
                cvx,
                cvy,
                radius2,
                cx,
                cy,
                (#[trigger] q2[i]).0 as int,
                q2[i].1 as int,
            ),
{
    if q2 != q1 {
        assert forall|i: int|
            0 <= i < q2.len() implies brush_reachable(
            p,
            w,
            h,
            cvx,
            cvy,
            radius2,
            cx,
            cy,
            (#[trigger] q2[i]).0 as int,
            q2[i].1 as int,
        ) by {
            if i < q1.len() {
                assert(q2[i] == q1[i]);
            } else {
                assert(q2[i] == n);
                lemma_reach_step(p, w, h, cvx, cvy, radius2, cx, cy, tx, ty, n);
            }
        }
    }
}

/// The two facts the fill's loop maintains combine into closure: painted
/// texels have their neighbours in the queue, and every queue entry within
/// the brush is painted.
proof fn lemma_closure_from_invariants(
    p: SphereProjection,
    w: int,
    h: int,
    cvx: int,
    cvy: int,
    radius2: int,
    painted: Seq<(u32, u32)>,
    q: Seq<(u32, u32)>,
)
    requires
        forall|j: int|
            0 <= j < painted.len() ==> neighbors_enqueued(
                q,
                (#[trigger] painted[j]).0 as int,
                painted[j].1 as int,
                w,
                h,
            ),
        forall|i: int|
            0 <= i < q.len() ==> (within_brush_spec(
                p,
                w,
                h,
                cvx,
                cvy,
                radius2,
                (#[trigger] q[i]).0 as int,
                q[i].1 as int,
            ) ==> painted_contains(painted, q[i].0 as int, q[i].1 as int)),
    ensures
        brush_closed(p, w, h, cvx, cvy, radius2, painted),
{
    reveal(brush_closed);
    assert forall|j: int, nx: int, ny: int|
        0 <= j < painted.len() && #[trigger] adjacent(painted[j].0 as int, painted[j].1 as int, nx, ny)
            && 0 <= nx < w && 0 <= ny < h && within_brush_spec(
            p,
            w,
            h,
            cvx,
            cvy,
            radius2,
            nx,
            ny,
        ) implies painted_contains(painted, nx, ny) by {
        assert(neighbors_enqueued(q, painted[j].0 as int, painted[j].1 as int, w, h));
        assert(painted_contains(q, nx, ny));
        let i = choose|i: int| 0 <= i < q.len() && q[i].0 == nx && q[i].1 == ny;
        assert(within_brush_spec(p, w, h, cvx, cvy, radius2, q[i].0 as int, q[i].1 as int));
        assert(painted_contains(painted, q[i].0 as int, q[i].1 as int));
    }
}

/// Paints every texel connected to the centre texel through the brush disk,
/// and reports the painted texels and the bounding box of all texels
/// visited.
///
/// The reference view point is the centre texel's own view-space point, so
/// the centre is always within the brush and is painted first.  The painted
/// list holds exactly the texels whose color changed: each lies within the
/// brush and the bounding box, the list swallows its whole brush component
/// ([`brush_closed`]), and every other texel keeps its old color.
#[verifier::rlimit(100)]
pub fn flood_fill(
    p: &SphereProjection,
    img: &mut Texture,
    cx: u32,
    cy: u32,
    radius2: i64,
    color: Color,
) -> (out: (Vec<(u32, u32)>, FillBounds))
    requires
        p.wf(),
        1 <= texture_width(*old(img)) <= 16384,
        1 <= texture_height(*old(img)) <= 16384,
        cx < texture_width(*old(img)),
        cy < texture_height(*old(img)),
        0 <= radius2 <= BRUSH_RADIUS2_MAX,
    ensures
        texture_width(*final(img)) == texture_width(*old(img)),
        texture_height(*final(img)) == texture_height(*old(img)),
        out.0@.len() >= 1,
        out.0@[0] == (cx, cy),
        forall|j: int|
            0 <= j < out.0@.len() ==> (#[trigger] out.0@[j]).0 < texture_width(*old(img))
                && out.0@[j].1 < texture_height(*old(img)),
        forall|j: int|
            0 <= j < out.0@.len() ==> within_brush_spec(
                *p,
                texture_width(*old(img)) as int,
                texture_height(*old(img)) as int,
                texel_view_spec(
                    *p,
                    texture_width(*old(img)) as int,
                    texture_height(*old(img)) as int,
                    cx as int,
                    cy as int,
                ).0,
                texel_view_spec(
                    *p,
                    texture_width(*old(img)) as int,
                    texture_height(*old(img)) as int,
                    cx as int,
                    cy as int,
                ).1,
                radius2 as int,
                out.0@[j].0 as int,
                out.0@[j].1 as int,
            ),
        brush_closed(
            *p,
            texture_width(*old(img)) as int,
            texture_height(*old(img)) as int,
            texel_view_spec(
                *p,
                texture_width(*old(img)) as int,
                texture_height(*old(img)) as int,
                cx as int,
                cy as int,
            ).0,
            texel_view_spec(
                *p,
                texture_width(*old(img)) as int,
                texture_height(*old(img)) as int,
                cx as int,
                cy as int,
            ).1,
            radius2 as int,
            out.0@,
        ),
        forall|j: int|
            0 <= j < out.0@.len() ==> brush_reachable(
                *p,
                texture_width(*old(img)) as int,
                texture_height(*old(img)) as int,
                texel_view_spec(
                    *p,
                    texture_width(*old(img)) as int,
                    texture_height(*old(img)) as int,
                    cx as int,
                    cy as int,
                ).0,
                texel_view_spec(
                    *p,
                    texture_width(*old(img)) as int,
                    texture_height(*old(img)) as int,
                    cx as int,
                    cy as int,
                ).1,
                radius2 as int,
                cx as int,
                cy as int,
                (#[trigger] out.0@[j]).0 as int,
                out.0@[j].1 as int,
            ),
        forall|j: int|
            0 <= j < out.0@.len() ==> out.1.min_x <= (#[trigger] out.0@[j]).0 <= out.1.max_x
                && out.1.min_y <= out.0@[j].1 <= out.1.max_y,
        out.1.min_x <= cx <= out.1.max_x,
        out.1.min_y <= cy <= out.1.max_y,
        forall|px: int, py: int|
            0 <= px < texture_width(*old(img)) && 0 <= py < texture_height(*old(img))
                ==> texture_pixel(*final(img), px, py) == if painted_contains(out.0@, px, py) {
                color.channels()
            } else {
                texture_pixel(*old(img), px, py)
            },
{
    let ghost img0: Texture = *old(img);
    let w: u32 = tex_width(img);
    let h: u32 = tex_height(img);
    let cu: i64 = texel_to_uv(cx, w);
    let cv: i64 = texel_to_uv(cy, h);
    let centre: (i64, i64) = p.unproj(cu, cv);
    proof {
        assert(texel_view_spec(*p, w as int, h as int, cx as int, cy as int).0
            == centre.0 as int);
        assert(texel_view_spec(*p, w as int, h as int, cx as int, cy as int).1
            == centre.1 as int);
        assert(within_brush_spec(
            *p,
            w as int,
            h as int,
            centre.0 as int,
            centre.1 as int,
            radius2 as int,
            cx as int,
            cy as int,
        )) by {
            reveal(within_brush_spec);
            assert(tmul(0, 0) == 0);
        }
    }

    proof {
        assert((w as int) * (h as int) <= 268_435_456 && (w as int) * (h as int) >= 1)
            by (nonlinear_arith)
            requires
                1 <= w <= 16384,
                1 <= h <= 16384,
        ;
    }
    let wh: usize = (w as usize) * (h as usize);
    let mut visited: Vec<bool> = Vec::new();
    let mut fill_i: usize = 0;
    while fill_i < wh
        invariant
            fill_i <= wh,
            visited@.len() == fill_i,
            forall|k: int| 0 <= k < visited@.len() ==> !visited@[k],
        decreases wh - fill_i,
    {
        visited.push(false);
        fill_i = fill_i + 1;
    }
    proof {
        assert(count_true(visited@) == 0) by {
            lemma_count_all_false(visited@);
        }
    }

    let mut vcount: usize = 0;
    let mut queue: Vec<(u32, u32)> = Vec::new();
    let mut head: usize = 0;
    let mut painted: Vec<(u32, u32)> = Vec::new();

    queue.push((cx, cy));
    let mut min_x: u32 = cx;
    let mut max_x: u32 = cx;
    let mut min_y: u32 = cy;
    let mut max_y: u32 = cy;
    proof {
        assert forall|ax: int, ay: int|
            0 <= ax < w && 0 <= ay < h implies !visited@[#[trigger] grid_idx(
                ax,
                ay,
                w as int,
            )] by {
            lemma_grid_index(ax, ay, w as int, h as int);
        }
        lemma_reach_centre(
            *p,
            w as int,
            h as int,
            centre.0 as int,
            centre.1 as int,
            radius2 as int,
            cx,
            cy,
        );
        assert forall|i: int|
            0 <= i < queue@.len() implies brush_reachable(
            *p,
            w as int,
            h as int,
            centre.0 as int,
            centre.1 as int,
            radius2 as int,
            cx as int,
            cy as int,
            (#[trigger] queue@[i]).0 as int,
            queue@[i].1 as int,
        ) by {
            assert(queue@[i] == (cx, cy));
        }
    }

    while head < queue.len()
        invariant
            p.wf(),
            1 <= w <= 16384,
            1 <= h <= 16384,
            texture_width(img0) == w,
            texture_height(img0) == h,
            cx < w,
            cy < h,
            0 <= radius2 <= BRUSH_RADIUS2_MAX,
            absi(centre.0 as int) <= 2_000_000_000_000_000,
            absi(centre.1 as int) <= 2_000_000_000_000_000,
            within_brush_spec(
                *p,
                w as int,
                h as int,
                centre.0 as int,
                centre.1 as int,
                radius2 as int,
                cx as int,
                cy as int,
            ),
            wh == (w as int) * (h as int),
            texture_width(*img) == w,
            texture_height(*img) == h,
            visited@.len() == wh,
            vcount == count_true(visited@),
            vcount <= wh,
            head <= queue@.len(),
            queue@.len() == 1 + vcount,
            queue@[0] == (cx, cy),
            forall|i: int| 0 <= i < queue@.len() ==> (#[trigger] queue@[i]).0 < w && queue@[i].1 < h,
            head == 0 ==> painted@.len() == 0,
            head >= 1 ==> painted@.len() >= 1 && painted@[0] == (cx, cy),
            forall|j: int|
                0 <= j < painted@.len() ==> (#[trigger] painted@[j]).0 < w && painted@[j].1 < h,
            forall|j: int|
                0 <= j < painted@.len() ==> within_brush_spec(
                    *p,
                    w as int,
                    h as int,
                    centre.0 as int,
                    centre.1 as int,
                    radius2 as int,
                    (#[trigger] painted@[j]).0 as int,
                    painted@[j].1 as int,
                ),
            forall|i: int|
                0 <= i < queue@.len() ==> brush_reachable(
                    *p,
                    w as int,
                    h as int,
                    centre.0 as int,
                    centre.1 as int,
                    radius2 as int,
                    cx as int,
                    cy as int,
                    (#[trigger] queue@[i]).0 as int,
                    queue@[i].1 as int,
                ),
            forall|j: int|
                0 <= j < painted@.len() ==> brush_reachable(
                    *p,
                    w as int,
                    h as int,
                    centre.0 as int,
                    centre.1 as int,
                    radius2 as int,
                    cx as int,
                    cy as int,
                    (#[trigger] painted@[j]).0 as int,
                    painted@[j].1 as int,
                ),
            forall|j: int|
                0 <= j < painted@.len() ==> min_x <= (#[trigger] painted@[j]).0 <= max_x && min_y
                    <= painted@[j].1 <= max_y,
            min_x <= cx <= max_x,
            min_y <= cy <= max_y,
            visited_covered(visited@, queue@, w as int, h as int),
            forall|j: int|
                0 <= j < painted@.len() ==> neighbors_enqueued(
                    queue@,
                    (#[trigger] painted@[j]).0 as int,
                    painted@[j].1 as int,
                    w as int,
                    h as int,
                ),
            forall|i: int|
                0 <= i < head ==> (within_brush_spec(
                    *p,
                    w as int,
                    h as int,
                    centre.0 as int,
                    centre.1 as int,
                    radius2 as int,
                    (#[trigger] queue@[i]).0 as int,
                    queue@[i].1 as int,
                ) ==> painted_contains(painted@, queue@[i].0 as int, queue@[i].1 as int)),
            forall|px: int, py: int|
                0 <= px < w && 0 <= py < h ==> texture_pixel(*img, px, py) == if painted_contains(
                    painted@,
                    px,
                    py,
                ) {
                    color.channels()
                } else {
                    texture_pixel(img0, px, py)
                },
        decreases (wh - vcount) + (queue@.len() - head),
    {
        let t: (u32, u32) = queue[head];
        head = head + 1;
        if t.0 < min_x {
            min_x = t.0;
        }
        if t.0 > max_x {
            max_x = t.0;
        }
        if t.1 < min_y {
            min_y = t.1;
        }
        if t.1 > max_y {
            max_y = t.1;
        }
        let is_in: bool = within_check(p, w, h, centre.0, centre.1, radius2, t.0, t.1);
        if is_in {
            tex_put(img, t.0, t.1, color);

            let ghost q_a = queue@;
            visit_neighbor(&mut queue, &mut visited, &mut vcount, t.0 + 1, t.1, w, h);
            let ghost q_b = queue@;
            visit_neighbor(
                &mut queue,
                &mut visited,
                &mut vcount,
                if t.0 == 0 { w } else { t.0 - 1 },
                t.1,
                w,
                h,
            );
            let ghost q_c = queue@;
            visit_neighbor(&mut queue, &mut visited, &mut vcount, t.0, t.1 + 1, w, h);
            let ghost q_d = queue@;
            visit_neighbor(
                &mut queue,
                &mut visited,
                &mut vcount,
                t.0,
                if t.1 == 0 { h } else { t.1 - 1 },
                w,
                h,
            );
            proof {
                assert(brush_reachable(
                    *p,
                    w as int,
                    h as int,
                    centre.0 as int,
                    centre.1 as int,
                    radius2 as int,
                    cx as int,
                    cy as int,
                    t.0 as int,
                    t.1 as int,
                )) by {
                    assert(q_a[head - 1] == t);
                }
                assert(q_b == q_a || (q_b == q_a.push((((t.0 + 1) as u32, t.1)))
                    && adjacent(t.0 as int, t.1 as int, (t.0 + 1) as int, t.1 as int)
                    && t.0 + 1 < w && t.1 < h)) by {
                    if q_b != q_a {
                        assert(q_b[q_a.len() as int] == ((t.0 + 1) as u32, t.1));
                    }
                }
                lemma_queue_reach_push(
                    *p,
                    w as int,
                    h as int,
                    centre.0 as int,
                    centre.1 as int,
                    radius2 as int,
                    cx as int,
                    cy as int,
                    q_a,
                    q_b,
                    t.0 as int,
                    t.1 as int,
                    ((t.0 + 1) as u32, t.1),
                );
                let ghost n2: (u32, u32) = (if t.0 == 0 { w } else { (t.0 - 1) as u32 }, t.1);
                assert(q_c == q_b || (q_c == q_b.push(n2)
                    && adjacent(t.0 as int, t.1 as int, n2.0 as int, n2.1 as int)
                    && n2.0 < w && n2.1 < h)) by {
                    if q_c != q_b {
                        assert(q_c[q_b.len() as int] == n2);
                        assert(n2.0 < w);
                        assert(t.0 != 0);
                    }
                }
                lemma_queue_reach_push(
                    *p,
                    w as int,
                    h as int,
                    centre.0 as int,
                    centre.1 as int,
                    radius2 as int,
                    cx as int,
                    cy as int,
                    q_b,
                    q_c,
                    t.0 as int,
                    t.1 as int,
                    n2,
                );
                assert(q_d == q_c || (q_d == q_c.push(((t.0, (t.1 + 1) as u32)))
                    && adjacent(t.0 as int, t.1 as int, t.0 as int, (t.1 + 1) as int)
                    && t.0 < w && t.1 + 1 < h)) by {
                    if q_d != q_c {
                        assert(q_d[q_c.len() as int] == (t.0, (t.1 + 1) as u32));
                    }
                }
                lemma_queue_reach_push(
                    *p,
                    w as int,
                    h as int,
                    centre.0 as int,
                    centre.1 as int,
                    radius2 as int,
                    cx as int,
                    cy as int,
                    q_c,
                    q_d,
                    t.0 as int,
                    t.1 as int,
                    (t.0, (t.1 + 1) as u32),
                );
                let ghost n4: (u32, u32) = (t.0, if t.1 == 0 { h } else { (t.1 - 1) as u32 });
                assert(queue@ == q_d || (queue@ == q_d.push(n4)
                    && adjacent(t.0 as int, t.1 as int, n4.0 as int, n4.1 as int)
                    && n4.0 < w && n4.1 < h)) by {
                    if queue@ != q_d {
                        assert(queue@[q_d.len() as int] == n4);
                        assert(n4.1 < h);
                        assert(t.1 != 0);
                    }
                }
                lemma_queue_reach_push(
                    *p,
                    w as int,
                    h as int,
                    centre.0 as int,
                    centre.1 as int,
                    radius2 as int,
                    cx as int,
                    cy as int,
                    q_d,
                    queue@,
                    t.0 as int,
                    t.1 as int,
                    n4,
                );
                assert(q_a.is_prefix_of(queue@) && q_b.is_prefix_of(queue@) && q_c.is_prefix_of(
                    queue@,
                )) by {
                    assert(q_a.is_prefix_of(q_b) && q_b.is_prefix_of(q_c) && q_c.is_prefix_of(
                        q_d,
                    ) && q_d.is_prefix_of(queue@));
                    assert(q_a =~= queue@.subrange(0, q_a.len() as int));
                    assert(q_b =~= queue@.subrange(0, q_b.len() as int));
                    assert(q_c =~= queue@.subrange(0, q_c.len() as int));
                }
                assert(neighbors_enqueued(queue@, t.0 as int, t.1 as int, w as int, h as int))
                    by {
                    if t.0 + 1 < w {
                        lemma_contains_prefix(q_b, queue@, t.0 + 1, t.1 as int);
                    }
                    if t.0 >= 1 {
                        lemma_contains_prefix(q_c, queue@, t.0 - 1, t.1 as int);
                    }
                    if t.1 + 1 < h {
                        lemma_contains_prefix(q_d, queue@, t.0 as int, t.1 + 1);
                    }
                }
                assert forall|j: int|
                    0 <= j < painted@.len() implies neighbors_enqueued(
                    queue@,
                    (#[trigger] painted@[j]).0 as int,
                    painted@[j].1 as int,
                    w as int,
                    h as int,
                ) by {
                    let tx = painted@[j].0 as int;
                    let ty = painted@[j].1 as int;
                    if tx + 1 < w {
                        lemma_contains_prefix(q_a, queue@, tx + 1, ty);
                    }
                    if tx - 1 >= 0 {
                        lemma_contains_prefix(q_a, queue@, tx - 1, ty);
                    }
                    if ty + 1 < h {
                        lemma_contains_prefix(q_a, queue@, tx, ty + 1);
                    }
                    if ty - 1 >= 0 {
                        lemma_contains_prefix(q_a, queue@, tx, ty - 1);
                    }
                }
                assert forall|i: int| 0 <= i < head implies q_a[i] == queue@[i] by {
                    lemma_prefix_index(q_a, queue@, i);
                }
            }

            let ghost painted_before = painted@;
            painted.push(t);
            proof {
                assert(painted@ =~= painted_before.push(t));
                assert(painted_contains(painted@, t.0 as int, t.1 as int)) by {
                    assert(painted@[painted_before.len() as int] == t);
                }
                assert forall|j: int|
                    0 <= j < painted@.len() implies brush_reachable(
                    *p,
                    w as int,
                    h as int,
                    centre.0 as int,
                    centre.1 as int,
                    radius2 as int,
                    cx as int,
                    cy as int,
                    (#[trigger] painted@[j]).0 as int,
                    painted@[j].1 as int,
                ) by {
                    if j < painted@.len() - 1 {
                        assert(painted@[j] == painted_before[j]);
                    } else {
                        assert(painted@[j] == t);
                    }
                }
                assert forall|px: int, py: int|
                    0 <= px < w && 0 <= py < h implies texture_pixel(*img, px, py)
                    == if painted_contains(painted@, px, py) {
                    color.channels()
                } else {
                    texture_pixel(img0, px, py)
                } by {
                    lemma_painted_contains_push(painted_before, t, px, py);
                }
                assert forall|i: int|
                    0 <= i < head && within_brush_spec(
                        *p,
                        w as int,
                        h as int,
                        centre.0 as int,
                        centre.1 as int,
                        radius2 as int,
                        (#[trigger] queue@[i]).0 as int,
                        queue@[i].1 as int,
                    ) implies painted_contains(
                    painted@,
                    queue@[i].0 as int,
                    queue@[i].1 as int,
                ) by {
                    if i < head - 1 {
                        lemma_prefix_index(q_a, queue@, i);
                        assert(q_a[i] == queue@[i]);
                        assert(painted_contains(painted_before, q_a[i].0 as int, q_a[i].1 as int));
                        lemma_painted_contains_push(
                            painted_before,
                            t,
                            queue@[i].0 as int,
                            queue@[i].1 as int,
                        );
                    } else {
                        lemma_prefix_index(q_a, queue@, i);
                        assert(queue@[i] == t);
                        assert(painted_contains(painted@, t.0 as int, t.1 as int));
                    }
                }
            }
        }
    }
    proof {
        assert(head >= 1);
        lemma_closure_from_invariants(
            *p,
            w as int,
            h as int,
            centre.0 as int,
            centre.1 as int,
            radius2 as int,
            painted@,
            queue@,
        );
    }
    (
        painted,
        FillBounds { min_x, min_y, max_x, max_y },
    )
}

proof fn lemma_count_all_false(s: Seq<bool>)
    requires
        forall|k: int| 0 <= k < s.len() ==> !s[k],
    ensures
        count_true(s) == 0,
    decreases s.len(),
{
    if s.len() > 0 {
        lemma_count_all_false(s.drop_last());
    }
}

/// The pen tool: a brush width in screen pixels and a paint color.
#[derive(Debug)]
pub struct PenTool {
    pub name: String,
    pub icon: char,
    pub width: i64,
    pub color: Color,
}

/// A brush width that the stroke arithmetic accepts.
pub open spec fn pen_tool_wf(width: int) -> bool {
    0 <= width <= 2_000_000_000_000
}

/// The texel index nearest a normalized texture coordinate, kept on the
/// grid.
pub open spec fn round_px_spec(u: int, w: int) -> int {
    let c: int = tdiv(u * w + HALF, ONE as int);
    if c >= w {
        w - 1
    } else {
        c
    }
}

/// The squared brush radius in view space: the screen-pixel width over the
/// texture's pixel scale, capped at four view widths, squared.
pub open spec fn pen_radius2_spec(width: int, aov: int, w: int) -> int {
    let ps: int = tquot(aov, TAU_FX as int) * w;
    let r: int = clamp_mag_spec(tquot(width, ps), 4_000_000);
    tmul(r, r)
}

/// Whether a pointer move paints: the left button is held over a live
/// viewport with the pointer inside it, a texture of workable size is
/// bound, and the angle of view gives a positive pixel scale.
pub open spec fn pen_captures_spec(s: SphereCanvasState) -> bool {
    &&& s.mouse_button == Some(MouseButton::Left)
    &&& s.image is Some
    &&& s.mouse_coord_in_view_spec() is Some
    &&& 0 <= s.mouse_coord_in_view_spec()->Some_0.x <= ONE
    &&& 0 <= s.mouse_coord_in_view_spec()->Some_0.y <= ONE
    &&& 1 <= s.aov <= 8_000_000
    &&& 1 <= texture_width(s.image->Some_0) <= 16384
    &&& 1 <= texture_height(s.image->Some_0) <= 16384
    &&& tquot(s.aov as int, TAU_FX as int) * (texture_width(s.image->Some_0) as int) >= 1
}

/// One painted list and bounding box witnessing a paint stroke: the list is
/// led by the stroke's centre texel, stays within the brush, its bounding
/// box and the texture, swallows its whole brush component and only reaches
/// walkable texels; exactly its members took the brush color, and the
/// normalized bounding box was recorded.
pub open spec fn pen_fill_witness(
    width: int,
    color: Color,
    s_old: SphereCanvasState,
    s_new: SphereCanvasState,
    painted: Seq<(u32, u32)>,
    bx: FillBounds,
) -> bool {
    let p = SphereProjection {
        aov: s_old.aov,
        look_at: s_old.look_at,
        up: s_old.up,
        right: s_old.right,
    };
    let view = s_old.mouse_coord_in_view_spec()->Some_0;
    let uv = p.proj_spec(view.x as int, view.y as int);
    let w: int = texture_width(s_old.image->Some_0) as int;
    let h: int = texture_height(s_old.image->Some_0) as int;
    let cx: int = round_px_spec(uv.0, w);
    let cy: int = round_px_spec(uv.1, h);
    let cvp = texel_view_spec(p, w, h, cx, cy);
    let radius2: int = pen_radius2_spec(width, s_old.aov as int, w);
    &&& painted.len() >= 1
    &&& painted[0].0 == cx && painted[0].1 == cy
    &&& forall|j: int|
        0 <= j < painted.len() ==> (#[trigger] painted[j]).0 < w && painted[j].1 < h
    &&& forall|j: int|
        0 <= j < painted.len() ==> within_brush_spec(
            p,
            w,
            h,
            cvp.0,
            cvp.1,
            radius2,
            (#[trigger] painted[j]).0 as int,
            painted[j].1 as int,
        )
    &&& brush_closed(p, w, h, cvp.0, cvp.1, radius2, painted)
    &&& forall|j: int|
        0 <= j < painted.len() ==> brush_reachable(
            p,
            w,
            h,
            cvp.0,
            cvp.1,
            radius2,
            cx,
            cy,
            (#[trigger] painted[j]).0 as int,
            painted[j].1 as int,
        )
    &&& forall|j: int|
        0 <= j < painted.len() ==> bx.min_x <= (#[trigger] painted[j]).0 <= bx.max_x
            && bx.min_y <= painted[j].1 <= bx.max_y
    &&& bx.min_x <= cx <= bx.max_x
    &&& bx.min_y <= cy <= bx.max_y
    &&& forall|px: int, py: int|
        0 <= px < w && 0 <= py < h ==> texture_pixel(s_new.image->Some_0, px, py) == (
        if painted_contains(painted, px, py) {
            color.channels()
        } else {
            texture_pixel(s_old.image->Some_0, px, py)
        })
    &&& s_new.modified_area == Some(
        RectFx {
            x: tquot(bx.min_x as int, w) as i64,
            y: tquot(bx.min_y as int, h) as i64,
            width: tquot(bx.max_x - bx.min_x + 1, w) as i64,
            height: tquot(bx.max_y - bx.min_y + 1, h) as i64,
        },
    )
}

/// What a captured paint event did: everything but the texture and the
/// modified area is untouched, and some painted list and bounding box
/// witness the stroke ([`pen_fill_witness`]).
pub open spec fn pen_post(
    width: int,
    color: Color,
    s_old: SphereCanvasState,
    s_new: SphereCanvasState,
) -> bool {
    &&& s_new.image is Some
    &&& texture_width(s_new.image->Some_0) == texture_width(s_old.image->Some_0)
    &&& texture_height(s_new.image->Some_0) == texture_height(s_old.image->Some_0)
    &&& s_new == SphereCanvasState {
        image: s_new.image,
        modified_area: s_new.modified_area,
        ..s_old
    }
    &&& exists|painted: Seq<(u32, u32)>, bx: FillBounds|
        pen_fill_witness(width, color, s_old, s_new, painted, bx)
}

impl PenTool {
    /// A pen tool: a three-pixel white brush.
    pub fn new() -> (t: PenTool)
        ensures
            t.name@ == "Pen"@,
            t.icon == '\u{eb04}',
            t.width == 3 * ONE,
            t.color == (Color { r: 255, g: 255, b: 255, a: 255 }),
            pen_tool_wf(t.width as int),
    {
        PenTool {
            name: "Pen".to_owned(),
            icon: '\u{eb04}',
            width: 3 * ONE,
            color: Color { r: 255, g: 255, b: 255, a: 255 },
        }
    }

    /// The tool's display name.
    pub fn name(&self) -> (r: &str)
        ensures
            r@ == self.name@,
    {
        self.name.as_str()
    }

    /// The tool's icon.
    pub fn icon(&self) -> (r: char)
        ensures
            r == self.icon,
    {
        self.icon
    }

    /// Paints a brush stroke at the pointer while the left button is held
    /// over a bound texture; otherwise the event falls through.
    pub fn on_mouse_moved(&self, state: &mut SphereCanvasState) -> (r: Status)
        requires
            old(state).wf(),
            pen_tool_wf(self.width as int),
        ensures
            pen_captures_spec(*old(state)) ==> r == Status::Captured && pen_post(
                self.width as int,
                self.color,
                *old(state),
                *final(state),
            ),
            !pen_captures_spec(*old(state)) ==> r == Status::Ignored && *final(state) == *old(
                state,
            ),
            final(state).wf(),
    {
        let held_left: bool = match state.mouse_button {
            Some(MouseButton::Left) => true,
            _ => false,
        };
        if !held_left {
            return Status::Ignored;
        }
        let view_opt: Option<crate::state::Vec2Fx> = state.get_mouse_coord_in_view();
        let view: crate::state::Vec2Fx = match view_opt {
            Some(v) => v,
            None => {
                return Status::Ignored;
            },
        };
        if !(0 <= view.x && view.x <= ONE && 0 <= view.y && view.y <= ONE) {
            return Status::Ignored;
        }
        if !(1 <= state.aov && state.aov <= 8_000_000) {
            return Status::Ignored;
        }
        let t: i64 = fdiv(state.aov, TAU_FX);
        let p: SphereProjection = state.projection_snapshot();
        let taken: Option<Texture> = state.image.take();
        let mut tex: Texture = match taken {
            Some(tx) => tx,
            None => {
                return Status::Ignored;
            },
        };
        let w: u32 = tex_width(&tex);
        let h: u32 = tex_height(&tex);
        if !(1 <= w && w <= 16384 && 1 <= h && h <= 16384) {
            state.image = Some(tex);
            return Status::Ignored;
        }
        proof {
            assert(t <= 1_280_000);
            assert(t as int * w as int <= 20_971_520_000 && (t >= 1 && w >= 1 ==> t as int
                * w as int >= 1) && (t as int * w as int >= 0)) by (nonlinear_arith)
                requires
                    0 <= t <= 1_280_000,
                    1 <= w <= 16384,
            ;
        }
        let ps: i64 = t * (w as i64);
        if ps < 1 {
            state.image = Some(tex);
            return Status::Ignored;
        }
        let radius: i64 = clamp_mag(fdiv(self.width, ps), 4_000_000);
        let radius2: i64 = fmul(radius, radius);
        proof {
            lemma_mag_product(radius2 as int, radius as int, radius as int, 4_000_000, 4_000_000);
        }
        let uv: (i64, i64) = p.proj(view.x, view.y);
        proof {
            assert(0 <= uv.0 as int * w as int <= 16_384_000_000 && 0 <= uv.1 as int
                * h as int <= 16_384_000_000) by (nonlinear_arith)
                requires
                    0 <= uv.0 <= ONE,
                    0 <= uv.1 <= ONE,
                    1 <= w <= 16384,
                    1 <= h <= 16384,
            ;
        }
        let tpx: i64 = uv.0 * (w as i64);
        let tpy: i64 = uv.1 * (h as i64);
        let mut cx_i: i64 = idiv(tpx + HALF, ONE);
        if cx_i >= w as i64 {
            cx_i = w as i64 - 1;
        }
        let mut cy_i: i64 = idiv(tpy + HALF, ONE);
        if cy_i >= h as i64 {
            cy_i = h as i64 - 1;
        }
        let cx: u32 = cx_i as u32;
        let cy: u32 = cy_i as u32;
        let out: (Vec<(u32, u32)>, FillBounds) = flood_fill(&p, &mut tex, cx, cy, radius2, self.color);
        let rect: RectFx = RectFx {
            x: fdiv(out.1.min_x as i64, w as i64),
            y: fdiv(out.1.min_y as i64, h as i64),
            width: fdiv(out.1.max_x as i64 - out.1.min_x as i64 + 1, w as i64),
            height: fdiv(out.1.max_y as i64 - out.1.min_y as i64 + 1, h as i64),
        };
        state.image = Some(tex);
        state.modified_area = Some(rect);
        proof {
            let pp = out.0@;
            let bb = out.1;
            assert(pen_fill_witness(self.width as int, self.color, *old(state), *state, pp, bb))
                by {
                assert(painted_contains(pp, cx as int, cy as int)) by {
                    assert(pp[0].0 == cx && pp[0].1 == cy);
                }
            }
            assert(pen_post(self.width as int, self.color, *old(state), *state));
        }
        Status::Captured
    }
}

} // verus!
