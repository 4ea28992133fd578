//! Fixed-point quaternions, used by the pan tool to rotate the camera.

use vstd::prelude::*;
use crate::fixed::{absi, fmul, idiv, tdiv, tmul, lemma_mag_product, ONE, PI_FX};
use crate::trig::{sin_fx, cos_fx, sin_spec, cos_spec};
use crate::vec3::{Vec3Fx, bounded, cross_spec, vadd, vcross, vscale, scale_spec, add_spec};

verus! {

/// A rotation quaternion in fixed point.
#[derive(Clone, Copy, PartialEq, Eq, Structural, Debug)]
pub struct QuatFx {
    pub w: i64,
    pub x: i64,
    pub y: i64,
    pub z: i64,
}

/// All four components are at most `m` in magnitude.
pub open spec fn qbounded(q: QuatFx, m: int) -> bool {
    &&& absi(q.w as int) <= m
    &&& absi(q.x as int) <= m
    &&& absi(q.y as int) <= m
    &&& absi(q.z as int) <= m
}

/// The rotation of `angle` about `axis`: cosine of the half angle, sine of
/// the half angle along the axis.
pub open spec fn from_axis_angle_spec(axis: Vec3Fx, angle: int) -> QuatFx {
    let half: int = tdiv(angle, 2);
    let s: int = sin_spec(half);
    QuatFx {
        w: cos_spec(half) as i64,
        x: tmul(s, axis.x as int) as i64,
        y: tmul(s, axis.y as int) as i64,
        z: tmul(s, axis.z as int) as i64,
    }
}

/// The Hamilton product of two quaternions.
pub open spec fn quat_mul_spec(a: QuatFx, b: QuatFx) -> QuatFx {
    QuatFx {
        w: (tmul(a.w as int, b.w as int) - tmul(a.x as int, b.x as int) - tmul(
            a.y as int,
            b.y as int,
        ) - tmul(a.z as int, b.z as int)) as i64,
        x: (tmul(a.w as int, b.x as int) + tmul(a.x as int, b.w as int) + tmul(
            a.y as int,
            b.z as int,
        ) - tmul(a.z as int, b.y as int)) as i64,
        y: (tmul(a.w as int, b.y as int) - tmul(a.x as int, b.z as int) + tmul(
            a.y as int,
            b.w as int,
        ) + tmul(a.z as int, b.x as int)) as i64,
        z: (tmul(a.w as int, b.z as int) + tmul(a.x as int, b.y as int) - tmul(
            a.y as int,
            b.x as int,
        ) + tmul(a.z as int, b.w as int)) as i64,
    }
}

/// The image of `v` under the rotation `q`, by the doubled-cross-product
/// form `v + w * t + q.xyz x t` with `t = 2 (q.xyz x v)`.
pub open spec fn rotate_spec(q: QuatFx, v: Vec3Fx) -> Vec3Fx {
    let qv: Vec3Fx = Vec3Fx { x: q.x, y: q.y, z: q.z };
    let c: Vec3Fx = cross_spec(qv, v);
    let t: Vec3Fx = Vec3Fx { x: (2 * c.x) as i64, y: (2 * c.y) as i64, z: (2 * c.z) as i64 };
    add_spec(add_spec(v, scale_spec(q.w as int, t)), cross_spec(qv, t))
}

/// The rotation of `angle` about `axis`.
pub fn quat_from_axis_angle(axis: Vec3Fx, angle: i64) -> (q: QuatFx)
    requires
        bounded(axis, ONE as int),
        absi(angle as int) <= 2 * PI_FX,
    ensures
        q == from_axis_angle_spec(axis, angle as int),
        qbounded(q, ONE as int),
{
    let half: i64 = idiv(angle, 2);
    let c: i64 = cos_fx(half);
    let s: i64 = sin_fx(half);
    let x: i64 = fmul(s, axis.x);
    let y: i64 = fmul(s, axis.y);
    let z: i64 = fmul(s, axis.z);
    proof {
        lemma_mag_product(x as int, s as int, axis.x as int, ONE as int, ONE as int);
        lemma_mag_product(y as int, s as int, axis.y as int, ONE as int, ONE as int);
        lemma_mag_product(z as int, s as int, axis.z as int, ONE as int, ONE as int);
    }
    QuatFx { w: c, x, y, z }
}

/// The Hamilton product.
pub fn quat_mul(a: QuatFx, b: QuatFx) -> (r: QuatFx)
    requires
        qbounded(a, ONE as int),
        qbounded(b, ONE as int),
    ensures
        r == quat_mul_spec(a, b),
        qbounded(r, 4 * ONE as int),
{
    let ww: i64 = fmul(a.w, b.w);
    let xx: i64 = fmul(a.x, b.x);
    let yy: i64 = fmul(a.y, b.y);
    let zz: i64 = fmul(a.z, b.z);
    let wx: i64 = fmul(a.w, b.x);
    let xw: i64 = fmul(a.x, b.w);
    let yz: i64 = fmul(a.y, b.z);
    let zy: i64 = fmul(a.z, b.y);
    let wy: i64 = fmul(a.w, b.y);
    let xz: i64 = fmul(a.x, b.z);
    let yw: i64 = fmul(a.y, b.w);
    let zx: i64 = fmul(a.z, b.x);
    let wz: i64 = fmul(a.w, b.z);
    let xy: i64 = fmul(a.x, b.y);
    let yx: i64 = fmul(a.y, b.x);
    let zw: i64 = fmul(a.z, b.w);
    proof {
        lemma_mag_product(ww as int, a.w as int, b.w as int, ONE as int, ONE as int);
        lemma_mag_product(xx as int, a.x as int, b.x as int, ONE as int, ONE as int);
        lemma_mag_product(yy as int, a.y as int, b.y as int, ONE as int, ONE as int);
        lemma_mag_product(zz as int, a.z as int, b.z as int, ONE as int, ONE as int);
        lemma_mag_product(wx as int, a.w as int, b.x as int, ONE as int, ONE as int);
        lemma_mag_product(xw as int, a.x as int, b.w as int, ONE as int, ONE as int);
        lemma_mag_product(yz as int, a.y as int, b.z as int, ONE as int, ONE as int);
        lemma_mag_product(zy as int, a.z as int, b.y as int, ONE as int, ONE as int);
        lemma_mag_product(wy as int, a.w as int, b.y as int, ONE as int, ONE as int);
        lemma_mag_product(xz as int, a.x as int, b.z as int, ONE as int, ONE as int);
        lemma_mag_product(yw as int, a.y as int, b.w as int, ONE as int, ONE as int);
        lemma_mag_product(zx as int, a.z as int, b.x as int, ONE as int, ONE as int);
        lemma_mag_product(wz as int, a.w as int, b.z as int, ONE as int, ONE as int);
        lemma_mag_product(xy as int, a.x as int, b.y as int, ONE as int, ONE as int);
        lemma_mag_product(yx as int, a.y as int, b.x as int, ONE as int, ONE as int);
        lemma_mag_product(zw as int, a.z as int, b.w as int, ONE as int, ONE as int);
    }
    QuatFx {
        w: ww - xx - yy - zz,
        x: wx + xw + yz - zy,
        y: wy - xz + yw + zx,
        z: wz + xy - yx + zw,
    }
}

/// The image of `v` under the rotation `q`.
pub fn quat_rotate(q: QuatFx, v: Vec3Fx) -> (r: Vec3Fx)
    requires
        qbounded(q, 4 * ONE as int),
        bounded(v, 2_000_000),
    ensures
        r == rotate_spec(q, v),
        bounded(r, 900_000_000),
{
    let qv: Vec3Fx = Vec3Fx { x: q.x, y: q.y, z: q.z };
    let c: Vec3Fx = vcross(qv, v);
    let t: Vec3Fx = Vec3Fx { x: 2 * c.x, y: 2 * c.y, z: 2 * c.z };
    let wt: Vec3Fx = vscale(q.w, t);
    proof {
        lemma_mag_product(wt.x as int, q.w as int, t.x as int, 4_000_000, 40_000_000);
        lemma_mag_product(wt.y as int, q.w as int, t.y as int, 4_000_000, 40_000_000);
        lemma_mag_product(wt.z as int, q.w as int, t.z as int, 4_000_000, 40_000_000);
    }
    let ct: Vec3Fx = vcross(qv, t);
    vadd(vadd(v, wt), ct)
}

} // verus!
