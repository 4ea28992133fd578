//! Fixed-point trigonometry.
//!
//! Sine and cosine are truncated Taylor series on the quarter turn, folded
//! onto `[-pi, pi]`; the arc tangent is a truncated series after one range
//! reduction at `tan(pi/8)`.  Each executable function returns exactly the
//! value of its spec mirror, so callers reason about the approximations as
//! ordinary integer functions.

use vstd::prelude::*;
use crate::fixed::{
    absi, absf, fdiv, fmul, idiv, tdiv, tmul, tquot, lemma_mag_product, ONE, PI_FX, HALF_PI_FX,
    QUARTER_PI_FX,
};

verus! {

/// `tan(pi/8)`, the threshold of the arc-tangent range reduction.
pub const TAN_EIGHTH_FX: i64 = 414_214;

/// Clamps a scalar into `[-ONE, ONE]`.
pub open spec fn clamp_unit(v: int) -> int {
    if v > ONE {
        ONE as int
    } else if v < -ONE {
        -ONE as int
    } else {
        v
    }
}

/// The sine polynomial on the quarter turn: a degree-nine truncated Taylor
/// series of `sin`, clamped into the unit interval.
pub open spec fn sin_core_spec(x: int) -> int {
    let x2: int = tmul(x, x);
    let t1: int = ONE - tdiv(x2, 72);
    let t2: int = ONE - tmul(tdiv(x2, 42), t1);
    let t3: int = ONE - tmul(tdiv(x2, 20), t2);
    let t4: int = ONE - tmul(tdiv(x2, 6), t3);
    clamp_unit(tmul(x, t4))
}

/// The cosine polynomial on the quarter turn: a degree-eight truncated
/// Taylor series of `cos`, clamped into the unit interval.
pub open spec fn cos_core_spec(x: int) -> int {
    let x2: int = tmul(x, x);
    let t1: int = ONE - tdiv(x2, 56);
    let t2: int = ONE - tmul(tdiv(x2, 30), t1);
    let t3: int = ONE - tmul(tdiv(x2, 12), t2);
    clamp_unit(ONE - tmul(tdiv(x2, 2), t3))
}

/// Sine on `[-pi, pi]`: the core polynomial after folding the argument onto
/// the quarter turn.
pub open spec fn sin_spec(x: int) -> int {
    if x > HALF_PI_FX {
        sin_core_spec(PI_FX - x)
    } else if x < -HALF_PI_FX {
        -sin_core_spec(PI_FX + x)
    } else {
        sin_core_spec(x)
    }
}

/// Cosine on `[-pi, pi]`: even, folded onto the quarter turn.
pub open spec fn cos_spec(x: int) -> int {
    if absi(x) > HALF_PI_FX {
        -cos_core_spec(PI_FX - absi(x))
    } else {
        cos_core_spec(absi(x))
    }
}

/// The arc-tangent polynomial: a degree-eleven truncated Taylor series,
/// adequate up to `tan(pi/8)` and a little beyond.
pub open spec fn atan_core_spec(t: int) -> int {
    let t2: int = tmul(t, t);
    let q9: int = 111_111 - tmul(t2, 90_909);
    let q7: int = 142_857 - tmul(t2, q9);
    let q5: int = 200_000 - tmul(t2, q7);
    let q3: int = 333_333 - tmul(t2, q5);
    tmul(t, ONE - tmul(t2, q3))
}

/// Arc tangent on `[0, 1]`: the core polynomial, after one reduction through
/// `atan(t) = pi/4 + atan((t - 1) / (t + 1))` above `tan(pi/8)`.
pub open spec fn atan01_spec(t: int) -> int {
    if t > TAN_EIGHTH_FX {
        QUARTER_PI_FX + atan_core_spec(tquot(t - ONE, t + ONE))
    } else {
        atan_core_spec(t)
    }
}

/// The quadrant-aware arc tangent of `y / x`, with the conventions of the
/// usual floating-point `atan2`: zero at the positive `x` axis, `pi` at the
/// negative one, the sign following `y`.
pub open spec fn atan2_spec(y: int, x: int) -> int {
    let ax: int = absi(x);
    let ay: int = absi(y);
    let base: int = if ay <= ax {
        if ax == 0 {
            0
        } else {
            atan01_spec(tquot(ay, ax))
        }
    } else {
        HALF_PI_FX - atan01_spec(tquot(ax, ay))
    };
    let swung: int = if x >= 0 {
        base
    } else {
        PI_FX - base
    };
    if y < 0 {
        -swung
    } else {
        swung
    }
}

/// The sine of zero is zero, exactly.
pub proof fn lemma_sin_spec_zero()
    ensures
        sin_spec(0) == 0,
{
    assert(tmul(0, 0) == 0);
    assert(sin_core_spec(0) == 0);
}

/// The cosine of zero is one, exactly.
pub proof fn lemma_cos_spec_zero()
    ensures
        cos_spec(0) == ONE,
{
    assert(tmul(0, 0) == 0);
    assert(cos_core_spec(0) == ONE);
}

/// Along the positive `x` axis the azimuth is zero, exactly.
pub proof fn lemma_atan2_spec_zero_posx(x: int)
    requires
        x >= 1,
    ensures
        atan2_spec(0, x) == 0,
{
    assert(tquot(0, x) == 0);
    assert(atan_core_spec(0) == 0);
    assert(atan01_spec(0) == 0);
}

/// The sine polynomial on the quarter turn.
pub fn sin_core(x: i64) -> (r: i64)
    requires
        absi(x as int) <= 1_600_000,
    ensures
        r == sin_core_spec(x as int),
        absi(r as int) <= ONE,
{
    let x2: i64 = fmul(x, x);
    let t1: i64 = ONE - idiv(x2, 72);
    let d42: i64 = idiv(x2, 42);
    let p2: i64 = fmul(d42, t1);
    proof {
        lemma_mag_product(p2 as int, d42 as int, t1 as int, 96_000, 1_000_000);
    }
    let t2: i64 = ONE - p2;
    let d20: i64 = idiv(x2, 20);
    let p3: i64 = fmul(d20, t2);
    proof {
        lemma_mag_product(p3 as int, d20 as int, t2 as int, 200_000, 1_096_000);
    }
    let t3: i64 = ONE - p3;
    let d6: i64 = idiv(x2, 6);
    let p4: i64 = fmul(d6, t3);
    proof {
        lemma_mag_product(p4 as int, d6 as int, t3 as int, 700_000, 1_220_000);
    }
    let t4: i64 = ONE - p4;
    let raw: i64 = fmul(x, t4);
    if raw > ONE {
        ONE
    } else if raw < -ONE {
        -ONE
    } else {
        raw
    }
}

/// The cosine polynomial on the quarter turn.
pub fn cos_core(x: i64) -> (r: i64)
    requires
        absi(x as int) <= 1_600_000,
    ensures
        r == cos_core_spec(x as int),
        absi(r as int) <= ONE,
{
    let x2: i64 = fmul(x, x);
    let t1: i64 = ONE - idiv(x2, 56);
    let d30: i64 = idiv(x2, 30);
    let p2: i64 = fmul(d30, t1);
    proof {
        lemma_mag_product(p2 as int, d30 as int, t1 as int, 140_000, 1_000_000);
    }
    let t2: i64 = ONE - p2;
    let d12: i64 = idiv(x2, 12);
    let p3: i64 = fmul(d12, t2);
    proof {
        lemma_mag_product(p3 as int, d12 as int, t2 as int, 340_000, 1_140_000);
    }
    let t3: i64 = ONE - p3;
    let d2: i64 = idiv(x2, 2);
    let p4: i64 = fmul(d2, t3);
    proof {
        lemma_mag_product(p4 as int, d2 as int, t3 as int, 2_048_000, 1_388_000);
    }
    let raw: i64 = ONE - p4;
    if raw > ONE {
        ONE
    } else if raw < -ONE {
        -ONE
    } else {
        raw
    }
}

/// Sine of an angle in `[-pi, pi]` (a few units of slack are allowed).
pub fn sin_fx(x: i64) -> (r: i64)
    requires
        absi(x as int) <= PI_FX + 16,
    ensures
        r == sin_spec(x as int),
        absi(r as int) <= ONE,
{
    if x > HALF_PI_FX {
        sin_core(PI_FX - x)
    } else if x < -HALF_PI_FX {
        -sin_core(PI_FX + x)
    } else {
        sin_core(x)
    }
}

/// Cosine of an angle in `[-pi, pi]` (a few units of slack are allowed).
pub fn cos_fx(x: i64) -> (r: i64)
    requires
        absi(x as int) <= PI_FX + 16,
    ensures
        r == cos_spec(x as int),
        absi(r as int) <= ONE,
{
    let a: i64 = absf(x);
    if a > HALF_PI_FX {
        -cos_core(PI_FX - a)
    } else {
        cos_core(a)
    }
}

/// The arc-tangent polynomial.
fn atan_core(t: i64) -> (r: i64)
    requires
        absi(t as int) <= 450_000,
    ensures
        r == atan_core_spec(t as int),
        absi(r as int) <= 486_000,
        t >= 0 ==> r >= 0,
{
    let t2: i64 = fmul(t, t);
    proof {
        lemma_mag_product(t2 as int, t as int, t as int, 450_000, 450_000);
    }
    let m9: i64 = fmul(t2, 90_909);
    proof {
        lemma_mag_product(m9 as int, t2 as int, 90_909, 202_500, 90_909);
    }
    let q9: i64 = 111_111 - m9;
    let m7: i64 = fmul(t2, q9);
    proof {
        lemma_mag_product(m7 as int, t2 as int, q9 as int, 202_500, 130_000);
    }
    let q7: i64 = 142_857 - m7;
    let m5: i64 = fmul(t2, q7);
    proof {
        lemma_mag_product(m5 as int, t2 as int, q7 as int, 202_500, 170_000);
    }
    let q5: i64 = 200_000 - m5;
    let m3: i64 = fmul(t2, q5);
    proof {
        lemma_mag_product(m3 as int, t2 as int, q5 as int, 202_500, 235_000);
    }
    let q3: i64 = 333_333 - m3;
    let m1: i64 = fmul(t2, q3);
    proof {
        lemma_mag_product(m1 as int, t2 as int, q3 as int, 202_500, 381_000);
    }
    let p: i64 = ONE - m1;
    let r: i64 = fmul(t, p);
    proof {
        lemma_mag_product(r as int, t as int, p as int, 450_000, 1_078_000);
    }
    r
}

/// Arc tangent on `[0, 1]`.
fn atan01(t: i64) -> (r: i64)
    requires
        0 <= t <= ONE,
    ensures
        r == atan01_spec(t as int),
        0 <= r <= QUARTER_PI_FX + 486_000,
{
    if t > TAN_EIGHTH_FX {
        let num: i64 = t - ONE;
        let den: i64 = t + ONE;
        let s: i64 = fdiv(num, den);
        proof {
            assert(absi(s as int) <= 450_000) by (nonlinear_arith)
                requires
                    absi(s as int) * absi(den as int) <= absi(num as int) * (ONE as int),
                    absi(num as int) <= 585_786,
                    absi(den as int) >= 1_414_214,
                    absi(s as int) >= 0,
            ;
        }
        let a: i64 = atan_core(s);
        QUARTER_PI_FX + a
    } else {
        atan_core(t)
    }
}

/// The quadrant-aware arc tangent of `y / x`.
pub fn atan2_fx(y: i64, x: i64) -> (r: i64)
    requires
        absi(y as int) <= 2_000_000,
        absi(x as int) <= 2_000_000,
    ensures
        r == atan2_spec(y as int, x as int),
        absi(r as int) <= PI_FX,
        x >= 0 ==> absi(r as int) <= HALF_PI_FX,
        y == 0 && x >= 1 ==> r == 0,
{
    let ax: i64 = absf(x);
    let ay: i64 = absf(y);
    let base: i64 = if ay <= ax {
        if ax == 0 {
            0
        } else {
            let t: i64 = fdiv(ay, ax);
            proof {
                assert(t <= ONE) by (nonlinear_arith)
                    requires
                        absi(t as int) * absi(ax as int) <= absi(ay as int) * (ONE as int),
                        0 <= ay <= ax,
                        ax >= 1,
                        t >= 0,
                ;
            }
            atan01(t)
        }
    } else {
        let t: i64 = fdiv(ax, ay);
        proof {
            assert(t <= ONE) by (nonlinear_arith)
                requires
                    absi(t as int) * absi(ay as int) <= absi(ax as int) * (ONE as int),
                    0 <= ax <= ay,
                    ay >= 1,
                    t >= 0,
            ;
        }
        HALF_PI_FX - atan01(t)
    };
    let swung: i64 = if x >= 0 {
        base
    } else {
        PI_FX - base
    };
    if y < 0 {
        -swung
    } else {
        swung
    }
}

} // verus!
