//! Fixed-point scalars.
//!
//! A real number `x` is stored as the `i64` nearest `x * 1_000_000`; `ONE` is
//! the unit.  Multiplication and division rescale with truncation toward
//! zero, mirrored exactly by the spec functions [`tmul`] and [`tdiv`], so the
//! value of every arithmetic result is pinned down by the contracts.

use vstd::prelude::*;
use vstd::arithmetic::div_mod::{
    lemma_fundamental_div_mod, lemma_div_is_ordered, lemma_div_by_self, lemma_div_pos_is_pos,
};

verus! {

/// The fixed-point unit: the representation of the real number one.
pub const ONE: i64 = 1_000_000;

/// One half, `ONE / 2`.
pub const HALF: i64 = 500_000;

/// The angle pi.
pub const PI_FX: i64 = 3_141_593;

/// The full turn, two pi.
pub const TAU_FX: i64 = 6_283_185;

/// A quarter turn, pi over two.
pub const HALF_PI_FX: i64 = 1_570_796;

/// An eighth of a turn, pi over four.
pub const QUARTER_PI_FX: i64 = 785_398;

/// Magnitude of an integer.
pub open spec fn absi(a: int) -> int {
    if a < 0 {
        -a
    } else {
        a
    }
}

/// Division truncating toward zero, the rounding of machine division on
/// signed integers.  Callers keep `b != 0`.
pub open spec fn tdiv(a: int, b: int) -> int {
    if a == 0 {
        0
    } else if a > 0 && b > 0 {
        a / b
    } else if a < 0 && b < 0 {
        (a * -1) / (b * -1)
    } else if a < 0 {
        ((a * -1) / b) * -1
    } else {
        (a / (b * -1)) * -1
    }
}

/// Fixed-point product: the rescaled, truncated product of two scalars.
pub open spec fn tmul(a: int, b: int) -> int {
    tdiv(a * b, ONE as int)
}

/// Fixed-point quotient: `a / b` carried back to the fixed-point scale.
pub open spec fn tquot(a: int, b: int) -> int {
    tdiv(a * ONE, b)
}

/// Truncating division shrinks magnitudes: `|a / b| * |b| <= |a|`.
pub proof fn lemma_tdiv_mag(a: int, b: int)
    requires
        b != 0,
    ensures
        absi(tdiv(a, b)) * absi(b) <= absi(a),
        absi(tdiv(a, b)) <= absi(a),
{
    let aa = absi(a);
    let ab = absi(b);
    if aa == 0 {
        assert(tdiv(a, b) == 0);
    } else {
        assert(tdiv(a, b) == aa / ab || tdiv(a, b) == (aa / ab) * -1);
        lemma_fundamental_div_mod(aa, ab);
        assert(aa == ab * (aa / ab) + aa % ab);
        assert(absi(tdiv(a, b)) == aa / ab);
        assert((aa / ab) * ab <= aa) by (nonlinear_arith)
            requires
                ab > 0,
                aa == ab * (aa / ab) + aa % ab,
                aa % ab >= 0,
        ;
        assert(aa / ab <= (aa / ab) * ab) by (nonlinear_arith)
            requires
                ab >= 1,
                aa / ab >= 0,
        ;
    }
}

/// Truncating division loses less than one divisor:
/// `|a| < (|a / b| + 1) * |b|`.
pub proof fn lemma_tdiv_lower(a: int, b: int)
    requires
        b > 0,
    ensures
        absi(a) < (absi(tdiv(a, b)) + 1) * b,
{
    let aa = absi(a);
    if aa == 0 {
        assert(tdiv(a, b) == 0);
    } else {
        lemma_fundamental_div_mod(aa, b);
        assert(tdiv(a, b) == aa / b || tdiv(a, b) == (aa / b) * -1);
        assert(absi(tdiv(a, b)) == aa / b);
        assert(aa < ((aa / b) + 1) * b) by (nonlinear_arith)
            requires
                b > 0,
                aa == b * (aa / b) + aa % b,
                aa % b < b,
        ;
    }
}

/// Every nonnegative number has an integer square root.
pub proof fn lemma_sqrt_floor_exists(n: int)
    requires
        n >= 0,
    ensures
        is_sqrt(n, sqrt_floor(n)),
    decreases n,
{
    if n == 0 {
        assert(is_sqrt(0, 0));
        lemma_sqrt_floor_of(0, 0);
    } else {
        lemma_sqrt_floor_exists(n - 1);
        let r = sqrt_floor(n - 1);
        if n < (r + 1) * (r + 1) {
            assert(is_sqrt(n, r));
            lemma_sqrt_floor_of(n, r);
        } else {
            assert(n == (r + 1) * (r + 1));
            assert(is_sqrt(n, r + 1)) by (nonlinear_arith)
                requires
                    r >= 0,
                    n == (r + 1) * (r + 1),
            ;
            lemma_sqrt_floor_of(n, r + 1);
        }
    }
}

/// Truncating division of a magnitude at least the divisor is nonzero.
pub proof fn lemma_tdiv_large(a: int, b: int)
    requires
        b > 0,
        a >= b,
    ensures
        tdiv(a, b) >= 1,
{
    lemma_div_is_ordered(b, a, b);
    lemma_div_by_self(b);
}

/// Truncation toward zero is odd in the dividend.
pub proof fn lemma_tdiv_neg(a: int, b: int)
    requires
        b != 0,
    ensures
        tdiv(-a, b) == -tdiv(a, b),
{
}

/// Truncating division by a positive divisor keeps the dividend's sign.
pub proof fn lemma_tdiv_sign(a: int, b: int)
    requires
        b > 0,
    ensures
        a >= 0 ==> tdiv(a, b) >= 0,
        a <= 0 ==> tdiv(a, b) <= 0,
{
    if a > 0 {
        lemma_div_pos_is_pos(a, b);
    } else if a < 0 {
        lemma_div_pos_is_pos(-a, b);
    }
}

/// Carries a product magnitude bound through to literal bounds on the
/// factors.
pub proof fn lemma_mag_product(r: int, a: int, b: int, aa: int, bb: int)
    by (nonlinear_arith)
    requires
        absi(r) * ONE <= absi(a) * absi(b),
        absi(a) <= aa,
        absi(b) <= bb,
        0 <= aa,
        0 <= bb,
    ensures
        absi(r) * ONE <= aa * bb,
{
}

/// Whether `r` is the integer square root (rounded down) of `n`.
pub open spec fn is_sqrt(n: int, r: int) -> bool {
    &&& 0 <= r
    &&& r * r <= n
    &&& n < (r + 1) * (r + 1)
}

/// The integer square root, rounded down, of a nonnegative number.
pub open spec fn sqrt_floor(n: int) -> int {
    choose|r: int| is_sqrt(n, r)
}

/// A number has at most one integer square root.
pub proof fn lemma_is_sqrt_unique(n: int, r1: int, r2: int)
    by (nonlinear_arith)
    requires
        is_sqrt(n, r1),
        is_sqrt(n, r2),
    ensures
        r1 == r2,
{
}

/// A witness pins `sqrt_floor` down.
pub proof fn lemma_sqrt_floor_of(n: int, r: int)
    requires
        is_sqrt(n, r),
    ensures
        sqrt_floor(n) == r,
{
    assert(is_sqrt(n, sqrt_floor(n))) by {
        assert(exists|x: int| is_sqrt(n, x));
    }
    lemma_is_sqrt_unique(n, sqrt_floor(n), r);
}

/// A scalar clamped into `[-m, m]`.
pub open spec fn clamp_mag_spec(a: int, m: int) -> int {
    if a > m {
        m
    } else if a < -m {
        -m
    } else {
        a
    }
}

/// Clamps a scalar into `[-m, m]`.
pub fn clamp_mag(a: i64, m: i64) -> (r: i64)
    requires
        0 <= m,
    ensures
        r == clamp_mag_spec(a as int, m as int),
        absi(r as int) <= m,
{
    if a > m {
        m
    } else if a < -m {
        -m
    } else {
        a
    }
}

/// Magnitude of a scalar.
pub fn absf(a: i64) -> (r: i64)
    requires
        a > i64::MIN,
    ensures
        r == absi(a as int),
{
    if a < 0 {
        -a
    } else {
        a
    }
}

/// Fixed-point multiplication: `a * b`, rescaled, truncated toward zero.
pub fn fmul(a: i64, b: i64) -> (r: i64)
    requires
        absi(a as int) <= 2_000_000_000,
        absi(b as int) <= 2_000_000_000,
    ensures
        r == tmul(a as int, b as int),
        absi(r as int) * (ONE as int) <= absi(a as int) * absi(b as int),
        absi(a as int) <= 2_000_000 && absi(b as int) <= 2_000_000 ==> absi(r as int)
            <= 4_000_000,
        absi(a as int) <= 8_000_000 && absi(b as int) <= 8_000_000 ==> absi(r as int)
            <= 64_000_000,
        absi(a as int) <= 100_000_000 && absi(b as int) <= 8_000_000 ==> absi(r as int)
            <= 800_000_000,
        absi(r as int) <= 4_000_000_000_000,
        a >= 0 && b >= 0 ==> r >= 0,
        a <= 0 && b <= 0 ==> r >= 0,
        a >= 0 && b <= 0 ==> r <= 0,
        a <= 0 && b >= 0 ==> r <= 0,
{
    proof {
        assert((a >= 0 && b >= 0 ==> a as int * b as int >= 0) && (a <= 0 && b <= 0 ==> a as int
            * b as int >= 0) && (a >= 0 && b <= 0 ==> a as int * b as int <= 0) && (a <= 0 && b
            >= 0 ==> a as int * b as int <= 0)) by (nonlinear_arith);
        lemma_tdiv_sign(a as int * b as int, ONE as int);
        assert(absi(a as int * b as int) <= absi(a as int) * absi(b as int)
            && absi(a as int * b as int) == absi(a as int) * absi(b as int)
            && absi(a as int) * absi(b as int) <= 4_000_000_000_000_000_000) by (nonlinear_arith)
            requires
                absi(a as int) <= 2_000_000_000,
                absi(b as int) <= 2_000_000_000,
        ;
        lemma_tdiv_mag(a as int * b as int, ONE as int);
        assert(absi(a as int) <= 2_000_000 && absi(b as int) <= 2_000_000 ==> absi(a as int)
            * absi(b as int) <= 4_000_000_000_000) by (nonlinear_arith);
        assert(absi(a as int) <= 8_000_000 && absi(b as int) <= 8_000_000 ==> absi(a as int)
            * absi(b as int) <= 64_000_000_000_000) by (nonlinear_arith);
        assert(absi(a as int) <= 100_000_000 && absi(b as int) <= 8_000_000 ==> absi(a as int)
            * absi(b as int) <= 800_000_000_000_000) by (nonlinear_arith);
    }
    let p: i64 = a * b;
    let q: Option<i64> = p.checked_div(ONE);
    match q {
        Some(r) => r,
        None => 0,
    }
}

/// Fixed-point division: `a / b`, carried back to scale, truncated toward
/// zero.
pub fn fdiv(a: i64, b: i64) -> (r: i64)
    requires
        b != 0,
        absi(a as int) <= 2_000_000_000_000,
        absi(b as int) <= 2_000_000_000_000,
    ensures
        r == tquot(a as int, b as int),
        absi(r as int) * absi(b as int) <= absi(a as int) * (ONE as int),
        absi(r as int) <= absi(a as int) * (ONE as int),
        b >= 500_000 && absi(a as int) <= 2_000_000 ==> absi(r as int) <= 4_000_000,
        b >= 500_000 && absi(a as int) <= 16_000_000 ==> absi(r as int) <= 32_000_000,
        b >= 500_000 && absi(a as int) <= 2_000_000_000 ==> absi(r as int) <= 4_000_000_000,
        b > 0 && a >= 0 ==> r >= 0,
        b > 0 && a <= 0 ==> r <= 0,
{
    proof {
        if b > 0 {
            assert((a >= 0 ==> a as int * ONE >= 0) && (a <= 0 ==> a as int * ONE <= 0))
                by (nonlinear_arith);
            lemma_tdiv_sign(a as int * ONE, b as int);
        }
        assert(absi(a as int * ONE as int) == absi(a as int) * (ONE as int)) by (nonlinear_arith);
        lemma_tdiv_mag(a as int * ONE as int, b as int);
        assert(absi(tdiv(a as int * ONE, b as int)) <= absi(a as int) * (ONE as int)) by {
            assert(absi(tdiv(a as int * ONE, b as int)) <= absi(a as int * ONE));
        }
        let t = absi(tdiv(a as int * ONE, b as int));
        assert(b >= 500_000 ==> t * 500_000 <= absi(a as int) * (ONE as int)) by (nonlinear_arith)
            requires
                t >= 0,
                t * absi(b as int) <= absi(a as int) * (ONE as int),
        ;
    }
    let p: i64 = a * ONE;
    let q: Option<i64> = p.checked_div(b);
    match q {
        Some(r) => r,
        None => 0,
    }
}

/// Plain truncating integer division by a positive divisor.
pub fn idiv(a: i64, b: i64) -> (r: i64)
    requires
        b > 0,
        a > i64::MIN,
    ensures
        r == tdiv(a as int, b as int),
        absi(r as int) <= absi(a as int),
        absi(r as int) * (b as int) <= absi(a as int),
        a >= 0 ==> r >= 0,
        a <= 0 ==> r <= 0,
{
    proof {
        lemma_tdiv_mag(a as int, b as int);
        lemma_tdiv_sign(a as int, b as int);
    }
    let q: Option<i64> = a.checked_div(b);
    match q {
        Some(r) => r,
        None => 0,
    }
}

/// Integer square root, rounded down, by bisection.
pub fn isqrt(n: u64) -> (r: u64)
    requires
        n <= 4_000_000_000_000_000_000,
    ensures
        is_sqrt(n as int, r as int),
        r == sqrt_floor(n as int),
        r <= 2_000_000_000,
{
    let mut lo: u64 = 0;
    let mut hi: u64 = 2_000_000_001;
    proof {
        assert((2_000_000_001 as int) * (2_000_000_001 as int) > n as int) by (nonlinear_arith)
            requires
                n <= 4_000_000_000_000_000_000,
        ;
    }
    while hi - lo > 1
        invariant
            lo < hi,
            hi <= 2_000_000_001,
            (lo as int) * (lo as int) <= n as int,
            (n as int) < (hi as int) * (hi as int),
        decreases hi - lo,
    {
        let mid: u64 = lo + (hi - lo) / 2;
        proof {
            assert((mid as int) * (mid as int) <= 4_000_000_004_000_000_001) by (nonlinear_arith)
                requires
                    mid <= 2_000_000_001,
            ;
        }
        if mid * mid <= n {
            lo = mid;
        } else {
            hi = mid;
        }
    }
    proof {
        lemma_sqrt_floor_of(n as int, lo as int);
    }
    lo
}

} // verus!
