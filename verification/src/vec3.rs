//! Fixed-point three-dimensional vectors.

use vstd::prelude::*;
use crate::fixed::{
    absi, fdiv, fmul, isqrt, is_sqrt, sqrt_floor, tdiv, tmul, tquot, lemma_mag_product,
    lemma_tdiv_mag, lemma_tdiv_lower, lemma_sqrt_floor_exists, ONE,
};

verus! {

/// A vector whose components are fixed-point scalars.
#[derive(Clone, Copy, PartialEq, Eq, Structural, Debug)]
pub struct Vec3Fx {
    pub x: i64,
    pub y: i64,
    pub z: i64,
}

/// The least squared length a vector may have and still be normalized; below
/// it, [`normalize_or`] returns its fallback.  It is the squared length of a
/// vector of length one half.
pub const MIN_NORM2: i64 = 250_000_000_000;

/// All three components are at most `m` in magnitude.
pub open spec fn bounded(v: Vec3Fx, m: int) -> bool {
    &&& absi(v.x as int) <= m
    &&& absi(v.y as int) <= m
    &&& absi(v.z as int) <= m
}

/// The dot product, each term rescaled as fixed-point.
pub open spec fn dot_spec(a: Vec3Fx, b: Vec3Fx) -> int {
    tmul(a.x as int, b.x as int) + tmul(a.y as int, b.y as int) + tmul(a.z as int, b.z as int)
}

/// The cross product, each term rescaled as fixed-point.
pub open spec fn cross_spec(a: Vec3Fx, b: Vec3Fx) -> Vec3Fx {
    Vec3Fx {
        x: (tmul(a.y as int, b.z as int) - tmul(a.z as int, b.y as int)) as i64,
        y: (tmul(a.z as int, b.x as int) - tmul(a.x as int, b.z as int)) as i64,
        z: (tmul(a.x as int, b.y as int) - tmul(a.y as int, b.x as int)) as i64,
    }
}

/// The squared length, kept at the raw product scale (`ONE * ONE` stands for
/// a length of one).
pub open spec fn norm2_spec(v: Vec3Fx) -> int {
    (v.x as int) * (v.x as int) + (v.y as int) * (v.y as int) + (v.z as int) * (v.z as int)
}

/// Componentwise sum.
pub open spec fn add_spec(a: Vec3Fx, b: Vec3Fx) -> Vec3Fx {
    Vec3Fx { x: (a.x + b.x) as i64, y: (a.y + b.y) as i64, z: (a.z + b.z) as i64 }
}

/// Componentwise difference.
pub open spec fn sub_spec(a: Vec3Fx, b: Vec3Fx) -> Vec3Fx {
    Vec3Fx { x: (a.x - b.x) as i64, y: (a.y - b.y) as i64, z: (a.z - b.z) as i64 }
}

/// A vector scaled by a fixed-point factor.
pub open spec fn scale_spec(k: int, v: Vec3Fx) -> Vec3Fx {
    Vec3Fx {
        x: tmul(k, v.x as int) as i64,
        y: tmul(k, v.y as int) as i64,
        z: tmul(k, v.z as int) as i64,
    }
}

/// The opposite vector.
pub open spec fn neg_spec(v: Vec3Fx) -> Vec3Fx {
    Vec3Fx { x: (-v.x) as i64, y: (-v.y) as i64, z: (-v.z) as i64 }
}

/// The vector scaled to length one — each component divided by the rounded
/// length — or the fallback where the vector is too short to normalize.
pub open spec fn normalize_or_spec(v: Vec3Fx, fallback: Vec3Fx) -> Vec3Fx {
    if norm2_spec(v) < MIN_NORM2 {
        fallback
    } else {
        let n: int = sqrt_floor(norm2_spec(v));
        Vec3Fx {
            x: tquot(v.x as int, n) as i64,
            y: tquot(v.y as int, n) as i64,
            z: tquot(v.z as int, n) as i64,
        }
    }
}

/// A vector whose squared length is within six millionths of one: the
/// quality [`normalize_or`] delivers whenever it actually normalizes.
pub open spec fn near_unit(v: Vec3Fx) -> bool {
    (ONE as int) * (ONE as int) - 6 * ONE - 3 <= norm2_spec(v) <= (ONE as int) * (ONE as int) + 6
        * ONE
}

/// One component's contribution: squeezing the quotient against the root.
proof fn lemma_normalize_component(vi: int, n: int) -> (q: int)
    requires
        n >= 1,
        absi(vi) <= n,
    ensures
        q == absi(tdiv(vi * ONE, n)),
        0 <= q <= ONE,
        q * q * (n * n) <= (vi * vi) * ((ONE as int) * (ONE as int)),
        (vi * vi) * ((ONE as int) * (ONE as int)) < (q + 1) * (q + 1) * (n * n),
{
    let a = vi * ONE;
    lemma_tdiv_mag(a, n);
    lemma_tdiv_lower(a, n);
    let q = absi(tdiv(a, n));
    assert(absi(a) == absi(vi) * ONE) by (nonlinear_arith)
        requires
            a == vi * ONE,
    ;
    assert(q <= ONE) by (nonlinear_arith)
        requires
            q * n <= absi(vi) * ONE,
            absi(vi) <= n,
            n >= 1,
            q >= 0,
    ;
    assert(absi(vi) * absi(vi) == vi * vi) by (nonlinear_arith);
    assert(q * q * (n * n) <= (vi * vi) * ((ONE as int) * (ONE as int)) && (vi * vi) * ((
    ONE as int) * (ONE as int)) < (q + 1) * (q + 1) * (n * n)) by (nonlinear_arith)
        requires
            q * n <= absi(vi) * ONE,
            absi(vi) * ONE < (q + 1) * n,
            q >= 0,
            n >= 1,
            absi(vi) >= 0,
            absi(vi) * absi(vi) == vi * vi,
    ;
    q
}

/// Normalizing a long-enough vector gives a near-unit vector; a too-short
/// one gives the fallback back.
pub proof fn lemma_normalize_near_unit(v: Vec3Fx, fallback: Vec3Fx)
    requires
        norm2_spec(v) >= MIN_NORM2,
    ensures
        near_unit(normalize_or_spec(v, fallback)),
{
    let nn = norm2_spec(v);
    assert(nn >= 0);
    lemma_sqrt_floor_exists(nn);
    let n = sqrt_floor(nn);
    assert(n >= 500_000) by (nonlinear_arith)
        requires
            is_sqrt(nn, n),
            nn >= MIN_NORM2,
    ;
    assert((v.x as int) * (v.x as int) <= nn && (v.y as int) * (v.y as int) <= nn && (v.z as int)
        * (v.z as int) <= nn) by (nonlinear_arith)
        requires
            nn == norm2_spec(v),
    ;
    assert(absi(v.x as int) <= n && absi(v.y as int) <= n && absi(v.z as int) <= n)
        by (nonlinear_arith)
        requires
            is_sqrt(nn, n),
            (v.x as int) * (v.x as int) <= nn,
            (v.y as int) * (v.y as int) <= nn,
            (v.z as int) * (v.z as int) <= nn,
    ;
    let qx = lemma_normalize_component(v.x as int, n);
    let qy = lemma_normalize_component(v.y as int, n);
    let qz = lemma_normalize_component(v.z as int, n);
    let s = qx * qx + qy * qy + qz * qz;
    let one2 = (ONE as int) * (ONE as int);
    assert(s * (n * n) <= nn * one2) by (nonlinear_arith)
        requires
            qx * qx * (n * n) <= ((v.x as int) * (v.x as int)) * one2,
            qy * qy * (n * n) <= ((v.y as int) * (v.y as int)) * one2,
            qz * qz * (n * n) <= ((v.z as int) * (v.z as int)) * one2,
            s == qx * qx + qy * qy + qz * qz,
            nn == norm2_spec(v),
            one2 == (ONE as int) * (ONE as int),
    ;
    assert(nn * one2 < (s + 2 * (qx + qy + qz) + 3) * (n * n)) by (nonlinear_arith)
        requires
            ((v.x as int) * (v.x as int)) * one2 < (qx + 1) * (qx + 1) * (n * n),
            ((v.y as int) * (v.y as int)) * one2 < (qy + 1) * (qy + 1) * (n * n),
            ((v.z as int) * (v.z as int)) * one2 < (qz + 1) * (qz + 1) * (n * n),
            s == qx * qx + qy * qy + qz * qz,
            nn == norm2_spec(v),
            one2 == (ONE as int) * (ONE as int),
    ;
    // upper bound: s * n * n <= nn * one2 < (n + 1)^2 * one2, and n is large
    assert(s <= one2 + 6 * ONE) by (nonlinear_arith)
        requires
            s * (n * n) <= nn * one2,
            is_sqrt(nn, n),
            n >= 500_000,
            one2 == (ONE as int) * (ONE as int),
            s >= 0,
    ;
    // lower bound: n^2 * one2 <= nn * one2 < (s + 2(qx+qy+qz) + 3) n^2
    assert(s >= one2 - 6 * ONE - 3) by (nonlinear_arith)
        requires
            nn * one2 < (s + 2 * (qx + qy + qz) + 3) * (n * n),
            is_sqrt(nn, n),
            n >= 1,
            0 <= qx <= ONE,
            0 <= qy <= ONE,
            0 <= qz <= ONE,
            one2 == (ONE as int) * (ONE as int),
    ;
    let r = normalize_or_spec(v, fallback);
    assert(r.x == tdiv(v.x as int * ONE, n) as i64 && r.y == tdiv(v.y as int * ONE, n) as i64
        && r.z == tdiv(v.z as int * ONE, n) as i64);
    assert(norm2_spec(r) == s) by (nonlinear_arith)
        requires
            qx == absi(tdiv(v.x as int * ONE, n)),
            qy == absi(tdiv(v.y as int * ONE, n)),
            qz == absi(tdiv(v.z as int * ONE, n)),
            qx <= ONE,
            qy <= ONE,
            qz <= ONE,
            r.x as int == tdiv(v.x as int * ONE, n),
            r.y as int == tdiv(v.y as int * ONE, n),
            r.z as int == tdiv(v.z as int * ONE, n),
            s == qx * qx + qy * qy + qz * qz,
    ;
}

/// Componentwise sum.
pub fn vadd(a: Vec3Fx, b: Vec3Fx) -> (r: Vec3Fx)
    requires
        bounded(a, 2_000_000_000_000),
        bounded(b, 2_000_000_000_000),
    ensures
        r == add_spec(a, b),
{
    Vec3Fx { x: a.x + b.x, y: a.y + b.y, z: a.z + b.z }
}

/// Componentwise difference.
pub fn vsub(a: Vec3Fx, b: Vec3Fx) -> (r: Vec3Fx)
    requires
        bounded(a, 2_000_000_000_000),
        bounded(b, 2_000_000_000_000),
    ensures
        r == sub_spec(a, b),
{
    Vec3Fx { x: a.x - b.x, y: a.y - b.y, z: a.z - b.z }
}

/// The opposite vector.
pub fn vneg(v: Vec3Fx) -> (r: Vec3Fx)
    requires
        bounded(v, 2_000_000_000_000),
    ensures
        r == neg_spec(v),
{
    Vec3Fx { x: -v.x, y: -v.y, z: -v.z }
}

/// A vector scaled by a fixed-point factor.
pub fn vscale(k: i64, v: Vec3Fx) -> (r: Vec3Fx)
    requires
        absi(k as int) <= 2_000_000_000,
        bounded(v, 2_000_000_000),
    ensures
        r == scale_spec(k as int, v),
        bounded(v, ONE as int) ==> bounded(r, absi(k as int)),
        absi(r.x as int) * (ONE as int) <= absi(k as int) * absi(v.x as int),
        absi(r.y as int) * (ONE as int) <= absi(k as int) * absi(v.y as int),
        absi(r.z as int) * (ONE as int) <= absi(k as int) * absi(v.z as int),
{
    let x: i64 = fmul(k, v.x);
    let y: i64 = fmul(k, v.y);
    let z: i64 = fmul(k, v.z);
    proof {
        if bounded(v, ONE as int) {
            lemma_mag_product(x as int, k as int, v.x as int, absi(k as int), ONE as int);
            lemma_mag_product(y as int, k as int, v.y as int, absi(k as int), ONE as int);
            lemma_mag_product(z as int, k as int, v.z as int, absi(k as int), ONE as int);
        }
    }
    Vec3Fx { x, y, z }
}

/// The dot product.
pub fn vdot(a: Vec3Fx, b: Vec3Fx) -> (r: i64)
    requires
        bounded(a, 2_000_000_000),
        bounded(b, 2_000_000_000),
    ensures
        r == dot_spec(a, b),
        bounded(a, 2_500_000) && bounded(b, 1_100_000) ==> absi(r as int) <= 8_250_000,
{
    let tx: i64 = fmul(a.x, b.x);
    let ty: i64 = fmul(a.y, b.y);
    let tz: i64 = fmul(a.z, b.z);
    proof {
        if bounded(a, 2_500_000) && bounded(b, 1_100_000) {
            lemma_mag_product(tx as int, a.x as int, b.x as int, 2_500_000, 1_100_000);
            lemma_mag_product(ty as int, a.y as int, b.y as int, 2_500_000, 1_100_000);
            lemma_mag_product(tz as int, a.z as int, b.z as int, 2_500_000, 1_100_000);
        }
    }
    tx + ty + tz
}

/// The cross product.
pub fn vcross(a: Vec3Fx, b: Vec3Fx) -> (r: Vec3Fx)
    requires
        bounded(a, 8_000_000),
        bounded(b, 40_000_000),
    ensures
        r == cross_spec(a, b),
        bounded(r, 700_000_000),
        bounded(a, 1_100_000) && bounded(b, 1_100_000) ==> bounded(r, 2_500_000),
        bounded(a, 4_000_000) && bounded(b, 2_000_000) ==> bounded(r, 16_000_000),
{
    let p1: i64 = fmul(a.y, b.z);
    let p2: i64 = fmul(a.z, b.y);
    let p3: i64 = fmul(a.z, b.x);
    let p4: i64 = fmul(a.x, b.z);
    let p5: i64 = fmul(a.x, b.y);
    let p6: i64 = fmul(a.y, b.x);
    proof {
        lemma_mag_product(p1 as int, a.y as int, b.z as int, 8_000_000, 40_000_000);
        lemma_mag_product(p2 as int, a.z as int, b.y as int, 8_000_000, 40_000_000);
        lemma_mag_product(p3 as int, a.z as int, b.x as int, 8_000_000, 40_000_000);
        lemma_mag_product(p4 as int, a.x as int, b.z as int, 8_000_000, 40_000_000);
        lemma_mag_product(p5 as int, a.x as int, b.y as int, 8_000_000, 40_000_000);
        lemma_mag_product(p6 as int, a.y as int, b.x as int, 8_000_000, 40_000_000);
        if bounded(a, 1_100_000) && bounded(b, 1_100_000) {
            lemma_mag_product(p1 as int, a.y as int, b.z as int, 1_100_000, 1_100_000);
            lemma_mag_product(p2 as int, a.z as int, b.y as int, 1_100_000, 1_100_000);
            lemma_mag_product(p3 as int, a.z as int, b.x as int, 1_100_000, 1_100_000);
            lemma_mag_product(p4 as int, a.x as int, b.z as int, 1_100_000, 1_100_000);
            lemma_mag_product(p5 as int, a.x as int, b.y as int, 1_100_000, 1_100_000);
            lemma_mag_product(p6 as int, a.y as int, b.x as int, 1_100_000, 1_100_000);
        }
        if bounded(a, 4_000_000) && bounded(b, 2_000_000) {
            lemma_mag_product(p1 as int, a.y as int, b.z as int, 4_000_000, 2_000_000);
            lemma_mag_product(p2 as int, a.z as int, b.y as int, 4_000_000, 2_000_000);
            lemma_mag_product(p3 as int, a.z as int, b.x as int, 4_000_000, 2_000_000);
            lemma_mag_product(p4 as int, a.x as int, b.z as int, 4_000_000, 2_000_000);
            lemma_mag_product(p5 as int, a.x as int, b.y as int, 4_000_000, 2_000_000);
            lemma_mag_product(p6 as int, a.y as int, b.x as int, 4_000_000, 2_000_000);
        }
    }
    Vec3Fx { x: p1 - p2, y: p3 - p4, z: p5 - p6 }
}

/// The squared length, at the raw product scale.
pub fn vnorm2(v: Vec3Fx) -> (r: i64)
    requires
        bounded(v, 1_000_000_000),
    ensures
        r == norm2_spec(v),
        0 <= r <= 3_000_000_000_000_000_000,
{
    proof {
        assert((v.x as int) * (v.x as int) >= 0 && (v.x as int) * (v.x as int)
            <= 1_000_000_000_000_000_000 && (v.y as int) * (v.y as int) >= 0 && (v.y as int)
            * (v.y as int) <= 1_000_000_000_000_000_000 && (v.z as int) * (v.z as int) >= 0 && (
        v.z as int) * (v.z as int) <= 1_000_000_000_000_000_000) by (nonlinear_arith)
            requires
                bounded(v, 1_000_000_000),
        ;
    }
    v.x * v.x + v.y * v.y + v.z * v.z
}

/// The vector scaled to length one, or the fallback where it is too short.
pub fn normalize_or(v: Vec3Fx, fallback: Vec3Fx) -> (r: Vec3Fx)
    requires
        bounded(v, 1_000_000_000),
    ensures
        r == normalize_or_spec(v, fallback),
        norm2_spec(v) >= MIN_NORM2 ==> bounded(r, ONE as int),
{
    let n2: i64 = vnorm2(v);
    if n2 < MIN_NORM2 {
        fallback
    } else {
        let n: i64 = isqrt(n2 as u64) as i64;
        proof {
            assert(is_sqrt(n2 as int, n as int));
            assert((v.x as int) * (v.x as int) <= n2 as int && (v.y as int) * (v.y as int)
                <= n2 as int && (v.z as int) * (v.z as int) <= n2 as int) by (nonlinear_arith)
                requires
                    n2 == norm2_spec(v),
            ;
            assert(n >= 500_000 && absi(v.x as int) <= n && absi(v.y as int) <= n && absi(
                v.z as int,
            ) <= n) by (nonlinear_arith)
                requires
                    is_sqrt(n2 as int, n as int),
                    n2 >= MIN_NORM2,
                    (v.x as int) * (v.x as int) <= n2 as int,
                    (v.y as int) * (v.y as int) <= n2 as int,
                    (v.z as int) * (v.z as int) <= n2 as int,
            ;
        }
        let x: i64 = fdiv(v.x, n);
        let y: i64 = fdiv(v.y, n);
        let z: i64 = fdiv(v.z, n);
        proof {
            assert(absi(x as int) <= ONE && absi(y as int) <= ONE && absi(z as int) <= ONE)
                by (nonlinear_arith)
                requires
                    absi(x as int) * absi(n as int) <= absi(v.x as int) * (ONE as int),
                    absi(y as int) * absi(n as int) <= absi(v.y as int) * (ONE as int),
                    absi(z as int) * absi(n as int) <= absi(v.z as int) * (ONE as int),
                    absi(v.x as int) <= n,
                    absi(v.y as int) <= n,
                    absi(v.z as int) <= n,
                    n >= 1,
                    absi(x as int) >= 0,
                    absi(y as int) >= 0,
                    absi(z as int) >= 0,
            ;
        }
        Vec3Fx { x, y, z }
    }
}

} // verus!
