//! Fixed-point real arithmetic.
//!
//! A real number is represented by an `i64` holding its value scaled by
//! `SCALE`: the raw value `v` stands for the real `v / SCALE`. Products are
//! rescaled with truncation toward zero, which gives every arithmetic step of
//! the renderer an exact integer description.

use vstd::prelude::*;
use vstd::arithmetic::div_mod::{lemma_div_is_ordered, lemma_div_multiples_vanish};

verus! {

/// Number of raw units per real unit: the fixed-point scale.
pub const SCALE: i64 = 65536;

/// Largest magnitude (in raw units) accepted for a coordinate fed to the
/// fixed-point multiplier; keeps every intermediate product inside `u128`
/// and every rescaled result inside `i64`.
pub const COORD_LIMIT: i64 = 0x10_0000_0000;

/// Largest magnitude (in raw units) of a rescaled product of two numbers
/// bounded by `COORD_LIMIT`: `COORD_LIMIT * COORD_LIMIT / SCALE`.
pub const PRODUCT_LIMIT: i64 = 0x100_0000_0000_0000;

/// Bound on the components handed to the magnitude test: a squared sum of
/// two such components still fits comfortably in `u128`.
pub const MAG_LIMIT: i64 = 0x400_0000_0000_0000;

/// Largest raw escape radius accepted by the evaluator (a real radius of
/// `256`): any point that has passed the radius test has components within
/// this bound, far inside `COORD_LIMIT`.
pub const RADIUS_LIMIT: i64 = 0x100_0000;

/// Division by `SCALE` truncated toward zero, the rounding used when a
/// product of two fixed-point numbers is brought back to the common scale.
pub open spec fn tdiv_scale(p: int) -> int {
    if p >= 0 {
        p / (SCALE as int)
    } else {
        -((-p) / (SCALE as int))
    }
}

/// The fixed-point product of two raw values: the exact integer product,
/// rescaled with truncation toward zero.
pub open spec fn fix_mul(a: int, b: int) -> int {
    tdiv_scale(a * b)
}

/// Squared magnitude of a complex number given by raw components. Both the
/// components and the result keep their natural scales, so comparing the
/// result against a squared raw radius is exact.
pub open spec fn mag_sq(re: int, im: int) -> int {
    re * re + im * im
}

pub proof fn lemma_tdiv_scale_bound(p: int, m: int)
    requires
        -m <= p <= m,
        0 <= m,
    ensures
        -(m / (SCALE as int)) <= tdiv_scale(p) <= m / (SCALE as int),
{
    if p >= 0 {
        lemma_div_is_ordered(p, m, SCALE as int);
        assert(p / (SCALE as int) >= 0) by (nonlinear_arith)
            requires p >= 0;
    } else {
        lemma_div_is_ordered(-p, m, SCALE as int);
        assert((-p) / (SCALE as int) >= 0) by (nonlinear_arith)
            requires -p >= 0;
    }
}

pub proof fn lemma_fix_mul_bound(a: int, b: int, m: int)
    requires
        -m <= a <= m,
        -m <= b <= m,
        0 <= m,
    ensures
        -((m * m) / (SCALE as int)) <= fix_mul(a, b) <= (m * m) / (SCALE as int),
{
    assert(-(m * m) <= a * b <= m * m) by (nonlinear_arith)
        requires
            -m <= a <= m,
            -m <= b <= m,
            0 <= m,
    ;
    lemma_tdiv_scale_bound(a * b, m * m);
}

/// If a square is no larger than the square of a nonnegative bound, the
/// base lies within that bound.
pub proof fn lemma_sq_le(a: int, b: int)
    requires
        a * a <= b * b,
        0 <= b,
    ensures
        -b <= a <= b,
{
    assert(-b <= a <= b) by (nonlinear_arith)
        requires
            a * a <= b * b,
            0 <= b,
    ;
}

/// `COORD_LIMIT * COORD_LIMIT` rescaled by `SCALE` is exactly
/// `PRODUCT_LIMIT`, stated through the multiple so that no literal division
/// is needed.
proof fn lemma_limit_quotient()
    ensures
        (COORD_LIMIT as int * COORD_LIMIT as int) / (SCALE as int) == PRODUCT_LIMIT as int,
{
    assert(COORD_LIMIT as int * COORD_LIMIT as int == SCALE as int * PRODUCT_LIMIT as int);
    lemma_div_multiples_vanish(PRODUCT_LIMIT as int, SCALE as int);
}

/// Fixed-point multiplication: exact product, rescaled with truncation
/// toward zero.
pub fn mul_fix(a: i64, b: i64) -> (r: i64)
    requires
        -COORD_LIMIT <= a <= COORD_LIMIT,
        -COORD_LIMIT <= b <= COORD_LIMIT,
    ensures
        r == fix_mul(a as int, b as int),
        -PRODUCT_LIMIT <= r <= PRODUCT_LIMIT,
{
    let negative: bool = (a < 0) != (b < 0);
    let am: u64 = if a < 0 { (-a) as u64 } else { a as u64 };
    let bm: u64 = if b < 0 { (-b) as u64 } else { b as u64 };
    proof {
        lemma_fix_mul_bound(a as int, b as int, COORD_LIMIT as int);
        lemma_limit_quotient();
        assert(am as int * bm as int <= COORD_LIMIT as int * COORD_LIMIT as int) by (nonlinear_arith)
            requires
                0 <= am as int <= COORD_LIMIT as int,
                0 <= bm as int <= COORD_LIMIT as int,
        ;
        if negative {
            assert(a as int * b as int == -(am as int * bm as int)) by (nonlinear_arith)
                requires
                    (a < 0 && b >= 0 && am as int == -(a as int) && bm as int == b as int)
                        || (a >= 0 && b < 0 && am as int == a as int && bm as int == -(b as int)),
            ;
        } else {
            assert(a as int * b as int == am as int * bm as int) by (nonlinear_arith)
                requires
                    (a < 0 && b < 0 && am as int == -(a as int) && bm as int == -(b as int))
                        || (a >= 0 && b >= 0 && am as int == a as int && bm as int == b as int),
            ;
        }
    }
    let p: u128 = (am as u128) * (bm as u128);
    proof {
        lemma_div_is_ordered(p as int, COORD_LIMIT as int * COORD_LIMIT as int, SCALE as int);
        if p > 0 {
            lemma_div_is_ordered(0, p as int, SCALE as int);
        }
    }
    let q: u64 = (p / (SCALE as u128)) as u64;
    if negative {
        -(q as i64)
    } else {
        q as i64
    }
}

/// Exact test of whether the squared magnitude of `(re, im)` exceeds the
/// squared radius, carried out in wide unsigned arithmetic.
pub fn mag_sq_exceeds(re: i64, im: i64, radius: i64) -> (r: bool)
    requires
        -MAG_LIMIT <= re <= MAG_LIMIT,
        -MAG_LIMIT <= im <= MAG_LIMIT,
        0 < radius,
    ensures
        r == (mag_sq(re as int, im as int) > radius * radius),
{
    let rem: u64 = if re < 0 { (-re) as u64 } else { re as u64 };
    let imm: u64 = if im < 0 { (-im) as u64 } else { im as u64 };
    let ram: u64 = radius as u64;
    proof {
        assert(rem as int * rem as int == re as int * re as int) by (nonlinear_arith)
            requires rem as int == re as int || rem as int == -(re as int);
        assert(imm as int * imm as int == im as int * im as int) by (nonlinear_arith)
            requires imm as int == im as int || imm as int == -(im as int);
        assert(rem as int * rem as int <= MAG_LIMIT as int * MAG_LIMIT as int) by (nonlinear_arith)
            requires 0 <= rem as int <= MAG_LIMIT as int;
        assert(imm as int * imm as int <= MAG_LIMIT as int * MAG_LIMIT as int) by (nonlinear_arith)
            requires 0 <= imm as int <= MAG_LIMIT as int;
        assert(ram as int * ram as int <= 0x7fff_ffff_ffff_ffffint * 0x7fff_ffff_ffff_ffffint) by (nonlinear_arith)
            requires 0 <= ram as int <= 0x7fff_ffff_ffff_ffffint;
    }
    let sq_sum: u128 = (rem as u128) * (rem as u128) + (imm as u128) * (imm as u128);
    let sq_radius: u128 = (ram as u128) * (ram as u128);
    sq_sum > sq_radius
}

} // verus!
