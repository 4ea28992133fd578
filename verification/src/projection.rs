//! The spherical projection.
//!
//! A camera with orthonormal basis (`look_at`, `up`, `right`) and an angle of
//! view maps normalized view coordinates onto normalized equirectangular
//! texture coordinates and back.  The forward map is exact perspective: the
//! view offset is carried along `right` and `up`, the direction is
//! normalized, and the direction's spherical angles give the texture point.
//! The inverse solves the three-by-three linear system
//! `look_at + yaw * right + pitch * up = s * dir` by Cramer's rule, falling
//! back to a linearized projection where the system is near singular.

use vstd::prelude::*;
use crate::fixed::{
    absi, absf, clamp_mag, clamp_mag_spec, fdiv, fmul, isqrt, is_sqrt, sqrt_floor, tdiv, tmul,
    tquot, lemma_mag_product, ONE, HALF, PI_FX, TAU_FX, HALF_PI_FX,
};
use crate::trig::{sin_fx, cos_fx, sin_spec, cos_spec, atan2_fx, atan2_spec};
use crate::vec3::{
    Vec3Fx, bounded, add_spec, sub_spec, scale_spec, neg_spec, cross_spec, dot_spec, norm2_spec,
    normalize_or_spec, vadd, vsub, vscale, vneg, vcross, vdot, normalize_or,
};

verus! {

/// Texture-space views farther than this from the window are clamped before
/// the division by the angle of view.
pub const VIEW_CLAMP: i64 = 1_000_000_000;

/// Determinant magnitudes at or below this (one millionth) make the exact
/// solve near singular; the linearized fallback is used instead.
pub const DET_EPS: i64 = 1;

/// A snapshot of the camera: its angle of view and orthonormal basis.
#[derive(Clone, Copy, PartialEq, Eq, Structural, Debug)]
pub struct SphereProjection {
    pub aov: i64,
    pub look_at: Vec3Fx,
    pub up: Vec3Fx,
    pub right: Vec3Fx,
}

impl SphereProjection {
    /// A positive angle of view no wider than eight radians and a basis of
    /// near-unit vectors: what every projection call assumes.
    pub open spec fn wf(self) -> bool {
        &&& 1 <= self.aov <= 8_000_000
        &&& bounded(self.look_at, ONE as int)
        &&& bounded(self.up, ONE as int)
        &&& bounded(self.right, ONE as int)
    }

    /// Snapshots a camera.
    pub fn new(aov: i64, look_at: Vec3Fx, up: Vec3Fx, right: Vec3Fx) -> (p: SphereProjection)
        ensures
            p.aov == aov,
            p.look_at == look_at,
            p.up == up,
            p.right == right,
    {
        SphereProjection { aov, look_at, up, right }
    }

    /// The value of [`SphereProjection::proj`]: view coordinates to texture
    /// coordinates, exactly as the executable code computes them.
    pub open spec fn proj_spec(self, view_x: int, view_y: int) -> (int, int) {
        let yaw: int = tmul(self.aov as int, view_x - HALF);
        let pitch: int = tmul(self.aov as int, view_y - HALF);
        let d0: Vec3Fx = add_spec(
            add_spec(self.look_at, scale_spec(yaw, self.right)),
            scale_spec(pitch, self.up),
        );
        let d: Vec3Fx = normalize_or_spec(d0, self.look_at);
        let phi: int = atan2_spec(d.z as int, d.x as int);
        let sq: int = sqrt_floor((d.x as int) * (d.x as int) + (d.z as int) * (d.z as int));
        let theta: int = atan2_spec(d.y as int, sq);
        (tquot(phi, TAU_FX as int) + HALF, HALF - tquot(theta, PI_FX as int))
    }

    /// The value of [`SphereProjection::unproj`]: texture coordinates back to
    /// view coordinates, exactly as the executable code computes them.
    pub open spec fn unproj_spec(self, tex_u: int, tex_v: int) -> (int, int) {
        let phi: int = tmul(tex_u - HALF, TAU_FX as int);
        let theta: int = tmul(HALF - tex_v, PI_FX as int);
        let dir: Vec3Fx = Vec3Fx {
            x: tmul(cos_spec(theta), cos_spec(phi)) as i64,
            y: sin_spec(theta) as i64,
            z: tmul(cos_spec(theta), sin_spec(phi)) as i64,
        };
        let negd: Vec3Fx = neg_spec(dir);
        let cud: Vec3Fx = cross_spec(self.up, negd);
        let det: int = dot_spec(cud, self.right);
        let yaw: int = if absi(det) > DET_EPS {
            tquot(dot_spec(cud, neg_spec(self.look_at)), det)
        } else {
            dot_spec(sub_spec(dir, self.look_at), self.right)
        };
        let pitch: int = if absi(det) > DET_EPS {
            tquot(dot_spec(cross_spec(neg_spec(self.look_at), negd), self.right), det)
        } else {
            dot_spec(sub_spec(dir, self.look_at), self.up)
        };
        (
            tquot(clamp_mag_spec(yaw, VIEW_CLAMP as int), self.aov as int) + HALF,
            tquot(clamp_mag_spec(pitch, VIEW_CLAMP as int), self.aov as int) + HALF,
        )
    }

    /// Projects a view coordinate onto the equirectangular texture.
    ///
    /// Both results lie in `[0, ONE]`.  A view offset whose direction is too
    /// short to normalize (possible only with a degenerate basis) falls back
    /// to the look direction.
    pub fn proj(&self, view_x: i64, view_y: i64) -> (r: (i64, i64))
        requires
            self.wf(),
            absi(view_x as int) <= 4_000_000,
            absi(view_y as int) <= 4_000_000,
        ensures
            r.0 == self.proj_spec(view_x as int, view_y as int).0,
            r.1 == self.proj_spec(view_x as int, view_y as int).1,
            0 <= r.0 <= ONE,
            0 <= r.1 <= ONE,
    {
        let yaw: i64 = fmul(self.aov, view_x - HALF);
        let pitch: i64 = fmul(self.aov, view_y - HALF);
        proof {
            lemma_mag_product(yaw as int, self.aov as int, view_x - HALF, 8_000_000, 4_500_000);
            lemma_mag_product(pitch as int, self.aov as int, view_y - HALF, 8_000_000, 4_500_000);
        }
        let d0: Vec3Fx = vadd(
            vadd(self.look_at, vscale(yaw, self.right)),
            vscale(pitch, self.up),
        );
        let d: Vec3Fx = normalize_or(d0, self.look_at);
        proof {
            assert(bounded(d, ONE as int));
            assert((d.x as int) * (d.x as int) >= 0 && (d.x as int) * (d.x as int)
                <= 1_000_000_000_000 && (d.z as int) * (d.z as int) >= 0 && (d.z as int) * (
            d.z as int) <= 1_000_000_000_000) by (nonlinear_arith)
                requires
                    bounded(d, ONE as int),
            ;
        }
        let sq2: i64 = d.x * d.x + d.z * d.z;
        let sq: i64 = isqrt(sq2 as u64) as i64;
        proof {
            assert(sq <= 1_500_000) by (nonlinear_arith)
                requires
                    is_sqrt(sq2 as int, sq as int),
                    sq2 <= 2_000_000_000_000,
            ;
        }
        let phi: i64 = atan2_fx(d.z, d.x);
        let theta: i64 = atan2_fx(d.y, sq);
        let u: i64 = fdiv(phi, TAU_FX) + HALF;
        let v: i64 = HALF - fdiv(theta, PI_FX);
        (u, v)
    }

    /// Projects a texture coordinate back into the view.
    ///
    /// The exact solve divides by the determinant of the basis matrix; where
    /// that is near singular the linearized fallback is used, as the
    /// round-trip accuracy near the view centre demands.  The recovered
    /// offsets are clamped to [`VIEW_CLAMP`] before the division by the
    /// angle of view, so the result is total and bounded.
    pub fn unproj(&self, tex_u: i64, tex_v: i64) -> (r: (i64, i64))
        requires
            self.wf(),
            0 <= tex_u <= ONE,
            0 <= tex_v <= ONE,
        ensures
            r.0 == self.unproj_spec(tex_u as int, tex_v as int).0,
            r.1 == self.unproj_spec(tex_u as int, tex_v as int).1,
            absi(r.0 as int) <= 2_000_000_000_000_000,
            absi(r.1 as int) <= 2_000_000_000_000_000,
    {
        let phi: i64 = fmul(tex_u - HALF, TAU_FX);
        let theta: i64 = fmul(HALF - tex_v, PI_FX);
        proof {
            lemma_mag_product(phi as int, tex_u - HALF, TAU_FX as int, 500_000, 6_283_185);
            lemma_mag_product(theta as int, HALF - tex_v, PI_FX as int, 500_000, 3_141_593);
        }
        let ct: i64 = cos_fx(theta);
        let st: i64 = sin_fx(theta);
        let cp: i64 = cos_fx(phi);
        let sp: i64 = sin_fx(phi);
        let dx: i64 = fmul(ct, cp);
        let dz: i64 = fmul(ct, sp);
        proof {
            lemma_mag_product(dx as int, ct as int, cp as int, ONE as int, ONE as int);
            lemma_mag_product(dz as int, ct as int, sp as int, ONE as int, ONE as int);
        }
        let dir: Vec3Fx = Vec3Fx { x: dx, y: st, z: dz };
        let negd: Vec3Fx = vneg(dir);
        let cud: Vec3Fx = vcross(self.up, negd);
        let det: i64 = vdot(cud, self.right);
        let ad: i64 = absf(det);
        let yaw: i64;
        let pitch: i64;
        if ad > DET_EPS {
            let negl: Vec3Fx = vneg(self.look_at);
            let det1: i64 = vdot(cud, negl);
            let cld: Vec3Fx = vcross(negl, negd);
            let det2: i64 = vdot(cld, self.right);
            yaw = fdiv(det1, det);
            pitch = fdiv(det2, det);
        } else {
            let diff: Vec3Fx = vsub(dir, self.look_at);
            yaw = vdot(diff, self.right);
            pitch = vdot(diff, self.up);
        }
        let yaw_c: i64 = clamp_mag(yaw, VIEW_CLAMP);
        let pitch_c: i64 = clamp_mag(pitch, VIEW_CLAMP);
        let view_x: i64 = fdiv(yaw_c, self.aov) + HALF;
        let view_y: i64 = fdiv(pitch_c, self.aov) + HALF;
        (view_x, view_y)
    }
}

/// The default orthonormal basis: looking along the positive `x` axis.
pub open spec fn default_basis(p: SphereProjection) -> bool {
    &&& p.look_at == (Vec3Fx { x: ONE, y: 0, z: 0 })
    &&& p.up == (Vec3Fx { x: 0, y: ONE, z: 0 })
    &&& p.right == (Vec3Fx { x: 0, y: 0, z: ONE })
}

/// The centre of the view projects to the centre of the texture, exactly,
/// for the default basis and any admissible angle of view.
pub proof fn lemma_proj_centre(p: SphereProjection)
    requires
        p.wf(),
        default_basis(p),
    ensures
        p.proj_spec(HALF as int, HALF as int) == (HALF as int, HALF as int),
{
    crate::trig::lemma_atan2_spec_zero_posx(ONE as int);
    assert(tmul(p.aov as int, 0) == 0);
    let d0 = add_spec(
        add_spec(p.look_at, scale_spec(0, p.right)),
        scale_spec(0, p.up),
    );
    assert(d0 == (Vec3Fx { x: ONE, y: 0, z: 0 }));
    assert(norm2_spec(d0) == 1_000_000_000_000);
    assert(is_sqrt(1_000_000_000_000, 1_000_000));
    crate::fixed::lemma_sqrt_floor_of(1_000_000_000_000, 1_000_000);
    let d = normalize_or_spec(d0, p.look_at);
    assert(d == (Vec3Fx { x: ONE, y: 0, z: 0 }));
    assert(tquot(0, TAU_FX as int) == 0);
    assert(tquot(0, PI_FX as int) == 0);
}

/// The centre of the texture projects back to the centre of the view,
/// exactly, for the default basis and any admissible angle of view.
pub proof fn lemma_unproj_centre(p: SphereProjection)
    requires
        p.wf(),
        default_basis(p),
    ensures
        p.unproj_spec(HALF as int, HALF as int) == (HALF as int, HALF as int),
{
    crate::trig::lemma_sin_spec_zero();
    crate::trig::lemma_cos_spec_zero();
    assert(tmul(0, TAU_FX as int) == 0);
    assert(tmul(0, PI_FX as int) == 0);
    assert(tmul(ONE as int, ONE as int) == ONE);
    assert(tmul(ONE as int, 0) == 0);
    let dir = Vec3Fx { x: ONE, y: 0, z: 0 };
    let negd = neg_spec(dir);
    assert(negd == (Vec3Fx { x: (-ONE) as i64, y: 0, z: 0 }));
    let cud = cross_spec(p.up, negd);
    assert(tmul(ONE as int, -1_000_000) == -1_000_000) by {
        assert((ONE as int) * (-1_000_000) == -1_000_000_000_000);
        assert(tdiv(-1_000_000_000_000, 1_000_000) == -1_000_000) by {
            assert((-1_000_000_000_000) * -1 == 1_000_000_000_000);
            assert(1_000_000_000_000int / 1_000_000int == 1_000_000int);
        }
    }
    assert(tmul(0, 0) == 0);
    assert(tmul(0, -1_000_000) == 0);
    assert(cud.x == 0);
    assert(cud.y == 0);
    assert(cud.z == ONE);
    assert(cud == (Vec3Fx { x: 0, y: 0, z: ONE }));
    let det = dot_spec(cud, p.right);
    assert(det == ONE);
    let negl = neg_spec(p.look_at);
    assert(dot_spec(cud, negl) == 0);
    let cld = cross_spec(negl, negd);
    assert(cld == (Vec3Fx { x: 0, y: 0, z: 0 }));
    assert(dot_spec(cld, p.right) == 0);
    assert(tquot(0, det) == 0);
    assert(clamp_mag_spec(0, VIEW_CLAMP as int) == 0);
    assert(tquot(0, p.aov as int) == 0);
}

/// The round trip at the view centre is exact: projecting the centre of the
/// view and carrying the result back recovers the centre, with no error at
/// all, for the default basis and any admissible angle of view.
pub proof fn lemma_round_trip_centre(p: SphereProjection)
    requires
        p.wf(),
        default_basis(p),
    ensures
        ({
            let uv = p.proj_spec(HALF as int, HALF as int);
            p.unproj_spec(uv.0, uv.1) == (HALF as int, HALF as int)
        }),
{
    lemma_proj_centre(p);
    lemma_unproj_centre(p);
}

/// The look direction as spherical angles: azimuth from the positive `x`
/// axis in the horizontal plane, then elevation above it.
pub open spec fn look_at_to_latlng_spec(look_at: Vec3Fx) -> (int, int) {
    (
        atan2_spec(look_at.z as int, look_at.x as int),
        atan2_spec(
            look_at.y as int,
            sqrt_floor(
                (look_at.x as int) * (look_at.x as int) + (look_at.z as int) * (look_at.z as int),
            ),
        ),
    )
}

/// The look direction as spherical angles, for a status display.
pub fn look_at_to_latlng(look_at: Vec3Fx) -> (r: (i64, i64))
    requires
        bounded(look_at, ONE as int),
    ensures
        r.0 == look_at_to_latlng_spec(look_at).0,
        r.1 == look_at_to_latlng_spec(look_at).1,
        absi(r.0 as int) <= PI_FX,
        absi(r.1 as int) <= HALF_PI_FX,
{
    proof {
        assert((look_at.x as int) * (look_at.x as int) >= 0 && (look_at.x as int) * (
        look_at.x as int) <= 1_000_000_000_000 && (look_at.z as int) * (look_at.z as int) >= 0 && (
        look_at.z as int) * (look_at.z as int) <= 1_000_000_000_000) by (nonlinear_arith)
            requires
                bounded(look_at, ONE as int),
        ;
    }
    let sq2: i64 = look_at.x * look_at.x + look_at.z * look_at.z;
    let sq: i64 = isqrt(sq2 as u64) as i64;
    proof {
        assert(sq <= 1_500_000) by (nonlinear_arith)
            requires
                is_sqrt(sq2 as int, sq as int),
                sq2 <= 2_000_000_000_000,
        ;
    }
    let lng: i64 = atan2_fx(look_at.z, look_at.x);
    let lat: i64 = atan2_fx(look_at.y, sq);
    (lng, lat)
}

/// An angle carried from radians to degrees.
pub open spec fn rad_to_degree_spec(rad: int) -> int {
    tquot(180 * rad, PI_FX as int)
}

/// An angle carried from radians to degrees, for a status display.
pub fn rad_to_degree(rad: i64) -> (r: i64)
    requires
        absi(rad as int) <= 10_000_000_000,
    ensures
        r == rad_to_degree_spec(rad as int),
{
    fdiv(180 * rad, PI_FX)
}

} // verus!
