//! Escape-time evaluation.
//!
//! A sample point `c` of the complex plane, held as fixed-point raw
//! components, is tested for membership in the Mandelbrot set by iterating
//! the recurrence `z_{n+1} = z_n^2 + c`, seeded with `z_0 = c`, for up to
//! `max_iterations` steps, and checking the magnitude against the escape
//! radius after each step. The iteration is mirrored exactly by the spec
//! functions of this module, so the evaluator's result is pinned for every
//! input.

use vstd::prelude::*;
use vstd::arithmetic::div_mod::{lemma_fundamental_div_mod, lemma_mod_division_less_than_divisor};
use crate::fixed::{
    SCALE, COORD_LIMIT, PRODUCT_LIMIT, MAG_LIMIT, RADIUS_LIMIT, fix_mul, mag_sq, mul_fix,
    mag_sq_exceeds, lemma_sq_le,
};

verus! {

/// Margin used by `lemma_far_point_escapes_immediately`, in raw units: a
/// quarter of a real unit, absorbing the truncation of one fixed-point
/// update.
pub const ESCAPE_MARGIN: i64 = 16384;

/// Real component of one step of the recurrence: `re(z^2 + c)` in
/// fixed-point arithmetic.
pub open spec fn step_re(c_re: int, c_im: int, z_re: int, z_im: int) -> int {
    fix_mul(z_re, z_re) - fix_mul(z_im, z_im) + c_re
}

/// Imaginary component of one step of the recurrence: `im(z^2 + c)` in
/// fixed-point arithmetic.
pub open spec fn step_im(c_re: int, c_im: int, z_re: int, z_im: int) -> int {
    2 * fix_mul(z_re, z_im) + c_im
}

/// The running value after `n` updates, seeded with the point itself:
/// `z_0 = c` and `z_{n+1} = z_n^2 + c`.
pub open spec fn z_at(c_re: int, c_im: int, n: nat) -> (int, int)
    decreases n,
{
    if n == 0 {
        (c_re, c_im)
    } else {
        let prev = z_at(c_re, c_im, (n - 1) as nat);
        (step_re(c_re, c_im, prev.0, prev.1), step_im(c_re, c_im, prev.0, prev.1))
    }
}

/// Whether the magnitude bound is exceeded right after the `i`-th update.
pub open spec fn escaped_at(c_re: int, c_im: int, radius: int, i: nat) -> bool {
    mag_sq(z_at(c_re, c_im, i).0, z_at(c_re, c_im, i).1) > radius * radius
}

/// The 1-based index of the first update at which the point escapes within
/// `n` updates, or `0` if the magnitude stays bounded throughout.
pub open spec fn first_escape(c_re: int, c_im: int, radius: int, n: nat) -> nat
    decreases n,
{
    if n == 0 {
        0
    } else if first_escape(c_re, c_im, radius, (n - 1) as nat) != 0 {
        first_escape(c_re, c_im, radius, (n - 1) as nat)
    } else if escaped_at(c_re, c_im, radius, n) {
        n
    } else {
        0
    }
}

/// What `first_escape` finds: either no update within `n` escapes, or the
/// found index is the first escaping update.
pub proof fn lemma_first_escape_characterizes(c_re: int, c_im: int, radius: int, n: nat)
    ensures
        first_escape(c_re, c_im, radius, n) == 0 ==> forall|i: nat|
            1 <= i <= n ==> !escaped_at(c_re, c_im, radius, i),
        first_escape(c_re, c_im, radius, n) != 0 ==> {
            let f = first_escape(c_re, c_im, radius, n);
            &&& 1 <= f <= n
            &&& escaped_at(c_re, c_im, radius, f)
            &&& forall|i: nat| 1 <= i < f ==> !escaped_at(c_re, c_im, radius, i)
        },
    decreases n,
{
    if n > 0 {
        lemma_first_escape_characterizes(c_re, c_im, radius, (n - 1) as nat);
    }
}

/// The point `c = 0` is a fixed point of the recurrence: the running value
/// stays at the origin forever, so its magnitude never exceeds any positive
/// radius. Hence the evaluator returns `(true, max_iterations)` for `c = 0`
/// and any positive radius.
pub proof fn lemma_zero_point_never_escapes(radius: int, n: nat)
    requires
        radius > 0,
    ensures
        z_at(0, 0, n) == (0int, 0int),
        first_escape(0, 0, radius, n) == 0,
    decreases n,
{
    if n > 0 {
        lemma_zero_point_never_escapes(radius, (n - 1) as nat);
        assert(fix_mul(0, 0) == 0);
        assert(radius * radius > 0) by (nonlinear_arith)
            requires radius > 0;
    }
}

/// One step of the recurrence: squares the running value and adds the
/// original point, in fixed-point arithmetic.
pub fn mandelbrot(initial_re: i64, initial_im: i64, current_re: i64, current_im: i64) -> (next: (i64, i64))
    requires
        -COORD_LIMIT <= initial_re <= COORD_LIMIT,
        -COORD_LIMIT <= initial_im <= COORD_LIMIT,
        -COORD_LIMIT <= current_re <= COORD_LIMIT,
        -COORD_LIMIT <= current_im <= COORD_LIMIT,
    ensures
        next.0 == step_re(initial_re as int, initial_im as int, current_re as int, current_im as int),
        next.1 == step_im(initial_re as int, initial_im as int, current_re as int, current_im as int),
        -MAG_LIMIT <= next.0 <= MAG_LIMIT,
        -MAG_LIMIT <= next.1 <= MAG_LIMIT,
{
    let rr = mul_fix(current_re, current_re);
    let ii = mul_fix(current_im, current_im);
    let ri = mul_fix(current_re, current_im);
    proof {
        assert(2 * PRODUCT_LIMIT + COORD_LIMIT <= MAG_LIMIT);
    }
    (rr - ii + initial_re, ri + ri + initial_im)
}

/// The escape test. Starting from the point itself, the recurrence is
/// applied up to `max_iterations` times; as soon as the squared magnitude
/// exceeds the squared radius the point is reported as escaping with the
/// 1-based index of that update. A point whose magnitude stays bounded
/// through all updates belongs to the set and is reported with the full
/// iteration count (with `max_iterations == 0`, it belongs with count 0).
///
/// The result is bounded: the count is between 1 and `max_iterations` when
/// the point escapes, and equals `max_iterations` when it belongs.
pub fn belongs_to_mandelbrot_set(c_re: i64, c_im: i64, max_iterations: u32, max_radius: i64) -> (res: (bool, u32))
    requires
        -COORD_LIMIT <= c_re <= COORD_LIMIT,
        -COORD_LIMIT <= c_im <= COORD_LIMIT,
        0 < max_radius <= RADIUS_LIMIT,
    ensures
        res.0 <==> first_escape(c_re as int, c_im as int, max_radius as int, max_iterations as nat) == 0,
        res.0 ==> res.1 == max_iterations,
        !res.0 ==> {
            &&& res.1 == first_escape(c_re as int, c_im as int, max_radius as int, max_iterations as nat)
            &&& 1 <= res.1 <= max_iterations
            &&& escaped_at(c_re as int, c_im as int, max_radius as int, res.1 as nat)
            &&& forall|i: nat| 1 <= i < res.1 ==> !escaped_at(c_re as int, c_im as int, max_radius as int, i)
        },
        res.0 ==> forall|i: nat|
            1 <= i <= max_iterations ==> !escaped_at(c_re as int, c_im as int, max_radius as int, i),
{
    let mut iterations: u32 = 0;
    let mut z_re: i64 = c_re;
    let mut z_im: i64 = c_im;
    while iterations < max_iterations
        invariant
            -COORD_LIMIT <= c_re <= COORD_LIMIT,
            -COORD_LIMIT <= c_im <= COORD_LIMIT,
            0 < max_radius <= RADIUS_LIMIT,
            0 <= iterations <= max_iterations,
            (z_re as int, z_im as int) == z_at(c_re as int, c_im as int, iterations as nat),
            -COORD_LIMIT <= z_re <= COORD_LIMIT,
            -COORD_LIMIT <= z_im <= COORD_LIMIT,
            first_escape(c_re as int, c_im as int, max_radius as int, iterations as nat) == 0,
        decreases max_iterations - iterations,
    {
        iterations = iterations + 1;
        let next = mandelbrot(c_re, c_im, z_re, z_im);
        z_re = next.0;
        z_im = next.1;
        proof {
            assert((z_re as int, z_im as int) == z_at(c_re as int, c_im as int, iterations as nat));
        }
        if mag_sq_exceeds(z_re, z_im, max_radius) {
            proof {
                lemma_first_escape_characterizes(
                    c_re as int, c_im as int, max_radius as int, max_iterations as nat);
                lemma_first_escape_stable(
                    c_re as int, c_im as int, max_radius as int, iterations as nat, max_iterations as nat);
            }
            return (false, iterations);
        }
        proof {
            assert(mag_sq(z_re as int, z_im as int) <= (max_radius as int) * (max_radius as int));
            assert((z_re as int) * (z_re as int) <= (max_radius as int) * (max_radius as int)
                && (z_im as int) * (z_im as int) <= (max_radius as int) * (max_radius as int))
                by (nonlinear_arith)
                requires
                    (z_re as int) * (z_re as int) + (z_im as int) * (z_im as int)
                        <= (max_radius as int) * (max_radius as int),
            ;
            lemma_sq_le(z_re as int, max_radius as int);
            lemma_sq_le(z_im as int, max_radius as int);
        }
    }
    proof {
        lemma_first_escape_characterizes(
            c_re as int, c_im as int, max_radius as int, max_iterations as nat);
    }
    (true, iterations)
}

/// A sample point whose own magnitude already exceeds the escape radius —
/// with at least a quarter-unit margin, covering the truncation of one
/// fixed-point update — escapes at the very first update: the evaluator
/// returns `(false, 1)` for it, whatever the iteration budget from 1 up.
#[verifier::rlimit(60)]
pub proof fn lemma_far_point_escapes_immediately(c_re: int, c_im: int, radius: int, n: nat)
    requires
        -COORD_LIMIT <= c_re <= COORD_LIMIT,
        -COORD_LIMIT <= c_im <= COORD_LIMIT,
        2 * SCALE <= radius <= RADIUS_LIMIT,
        mag_sq(c_re, c_im) > (radius + ESCAPE_MARGIN) * (radius + ESCAPE_MARGIN),
        n >= 1,
    ensures
        escaped_at(c_re, c_im, radius, 1),
        first_escape(c_re, c_im, radius, n) == 1,
{
    let a = c_re;
    let b = c_im;
    let r = radius;
    let e1 = fix_mul(a, a);
    let e2 = fix_mul(b, b);
    let t = fix_mul(a, b);
    assert(SCALE == 65536);
    assert(a * a >= 0 && b * b >= 0) by (nonlinear_arith);
    lemma_fundamental_div_mod(a * a, 65536);
    lemma_mod_division_less_than_divisor(a * a, 65536);
    lemma_fundamental_div_mod(b * b, 65536);
    lemma_mod_division_less_than_divisor(b * b, 65536);
    assert(e1 == (a * a) / 65536);
    assert(e2 == (b * b) / 65536);
    assert(65536 * e1 <= a * a && a * a < 65536 * e1 + 65536);
    assert(65536 * e2 <= b * b && b * b < 65536 * e2 + 65536);
    if a * b >= 0 {
        lemma_fundamental_div_mod(a * b, 65536);
        lemma_mod_division_less_than_divisor(a * b, 65536);
        assert(t == (a * b) / 65536);
        assert(a * b - 65536 < 65536 * t && 65536 * t < a * b + 65536);
    } else {
        lemma_fundamental_div_mod(-(a * b), 65536);
        lemma_mod_division_less_than_divisor(-(a * b), 65536);
        assert(t == -((-(a * b)) / 65536));
        assert(a * b - 65536 < 65536 * t && 65536 * t < a * b + 65536);
    }
    let re1 = e1 - e2 + a;
    let im1 = 2 * t + b;
    assert(z_at(a, b, 0) == (a, b));
    assert(z_at(a, b, 1) == (re1, im1));
    // Exact first step, scaled by 65536, and its truncated counterpart.
    let cap_u = a * a - b * b + 65536 * a;
    let cap_v = 2 * (a * b) + 65536 * b;
    let u = 65536 * e1 - 65536 * e2 + 65536 * a;
    let v = 131072 * t + 65536 * b;
    assert(cap_u - 65536 < u && u < cap_u + 65536);
    assert(cap_v - 131072 < v && v < cap_v + 131072);
    let m = a * a + b * b;
    let p = m + 131072 * a + 4294967296;
    // The exact step's squared magnitude factors over the input's.
    assert(cap_u * cap_u + cap_v * cap_v == m * p) by (nonlinear_arith)
        requires
            cap_u == a * a - b * b + 65536 * a,
            cap_v == 2 * (a * b) + 65536 * b,
            m == a * a + b * b,
            p == m + 131072 * a + 4294967296,
    ;
    assert(p == (a + 65536) * (a + 65536) + b * b) by (nonlinear_arith)
        requires m == a * a + b * b, p == m + 131072 * a + 4294967296;
    assert(cap_u * cap_u >= 0 && cap_v * cap_v >= 0 && m >= 0 && p >= 0) by (nonlinear_arith)
        requires m == a * a + b * b, p == (a + 65536) * (a + 65536) + b * b;
    assert(cap_u * cap_u <= m * p && cap_v * cap_v <= m * p);
    assert(2 * cap_u <= m + p && -(m + p) <= 2 * cap_u) by (nonlinear_arith)
        requires cap_u * cap_u <= m * p, m >= 0, p >= 0;
    assert(2 * cap_v <= m + p && -(m + p) <= 2 * cap_v) by (nonlinear_arith)
        requires cap_v * cap_v <= m * p, m >= 0, p >= 0;
    assert(u * u >= cap_u * cap_u - 131072 * (m + p)) by (nonlinear_arith)
        requires
            cap_u - 131072 < u < cap_u + 131072,
            2 * cap_u <= m + p,
            -(m + p) <= 2 * cap_u,
    ;
    assert(v * v >= cap_v * cap_v - 131072 * (m + p)) by (nonlinear_arith)
        requires
            cap_v - 131072 < v < cap_v + 131072,
            2 * cap_v <= m + p,
            -(m + p) <= 2 * cap_v,
    ;
    // The margin hypothesis beats the truncation loss.
    assert(m * p - 262144 * (m + p) > 4294967296 * (r * r)) by (nonlinear_arith)
        requires
            m == a * a + b * b,
            p == m + 131072 * a + 4294967296,
            m > (r + 16384) * (r + 16384),
            131072 <= r <= 16777216,
    ;
    assert(u * u + v * v > 4294967296 * (r * r));
    assert(re1 * re1 + im1 * im1 > r * r) by (nonlinear_arith)
        requires
            u == 65536 * re1,
            v == 65536 * im1,
            u * u + v * v > 4294967296 * (r * r),
    ;
    assert(escaped_at(a, b, r, 1));
    assert(first_escape(a, b, r, 0) == 0);
    assert(first_escape(a, b, r, 1) == 1);
    lemma_first_escape_stable(a, b, r, 1, n);
}

/// Once an escape is found within `n` updates, looking further never
/// changes the index that is found.
pub proof fn lemma_first_escape_stable(c_re: int, c_im: int, radius: int, n: nat, m: nat)
    requires
        n <= m,
        first_escape(c_re, c_im, radius, n) != 0,
    ensures
        first_escape(c_re, c_im, radius, m) == first_escape(c_re, c_im, radius, n),
    decreases m,
{
    if m > n {
        lemma_first_escape_stable(c_re, c_im, radius, n, (m - 1) as nat);
    }
}

} // verus!
