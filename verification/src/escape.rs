//! Escape-time evaluation of the quadratic recurrence z := z^2 + c, with
//! the closed-form interior tests for the main cardioid and the period-2
//! bulb.

use vstd::prelude::*;

use crate::fixed::{lemma_tdiv_bound, mul_div, mul_div_i64, SCALE};

verus! {

/// Iteration bound used by the renderer: a point whose orbit stays below
/// the escape radius for this many steps is treated as interior.
pub const MAX_ITER: u32 = 1000;

/// Squared escape radius (|z| = 2 plane units) in squared ticks.
pub const ESCAPE_RADIUS_SQ: i64 = 40_000_000_000_000_000;

/// The orbit point r + i*I is at or past the escape radius: |z|^2 >= 4.
pub open spec fn escaped(r: int, i: int) -> bool {
    r * r + i * i >= ESCAPE_RADIUS_SQ
}

/// Real part of z^2 + c for z = r + i*I and c = cr + ci*I, in fixed point.
pub open spec fn step_re(r: int, i: int, cr: int) -> int {
    mul_div(r, r, SCALE as int) - mul_div(i, i, SCALE as int) + cr
}

/// Imaginary part of z^2 + c for z = r + i*I and c = cr + ci*I.
pub open spec fn step_im(r: int, i: int, ci: int) -> int {
    mul_div(2 * r, i, SCALE as int) + ci
}

/// Number of applications of z := z^2 + c, starting from z = r + i*I,
/// until the orbit first reaches the escape radius, capped at `fuel`.
pub open spec fn escape_time_from(r: int, i: int, cr: int, ci: int, fuel: nat) -> nat
    decreases fuel,
{
    if escaped(r, i) || fuel == 0 {
        0
    } else {
        1 + escape_time_from(step_re(r, i, cr), step_im(r, i, ci), cr, ci, (fuel - 1) as nat)
    }
}

/// Escape time of the plane point c: the first index k (counting the
/// orbit point z_1 = c as index 0) at which |z|^2 >= 4, or `max` if the
/// orbit stays below the radius for `max` steps. An input already at or
/// past the radius therefore has escape time 0.
pub open spec fn escape_time_spec(cr: int, ci: int, max: nat) -> nat {
    escape_time_from(cr, ci, cr, ci, max)
}

/// Every point at or past the escape radius is classified as escaping
/// before any iteration runs.
pub proof fn lemma_escaped_input_time_zero(cr: int, ci: int, max: nat)
    requires
        cr * cr + ci * ci >= ESCAPE_RADIUS_SQ,
    ensures
        escape_time_spec(cr, ci, max) == 0,
{
}

/// Membership of c = cr + ci*I in the main cardioid, the region whose
/// points analytically never escape. This is the classic inequality
/// `r <= p - 2*p^2 + 1/4` with `p = sqrt((r - 1/4)^2 + i^2)`, squared out
/// to remove the root and cleared of denominators: with `u = r - 1/4` and
/// `q = u^2 + i^2` it reads `4*q^2 + 4*q*u <= i^2` in plane units, here in
/// ticks.
pub open spec fn in_cardioid(cr: int, ci: int) -> bool {
    let u = cr - (SCALE as int) / 4;
    let q = u * u + ci * ci;
    4 * q * q + 4 * q * u * (SCALE as int) <= ci * ci * (SCALE as int) * (SCALE as int)
}

/// Membership of c in the period-2 bulb: the closed disk of radius 1/4
/// around -1, `(r + 1)^2 + i^2 <= 1/16` in plane units.
pub open spec fn in_bulb(cr: int, ci: int) -> bool {
    (cr + SCALE) * (cr + SCALE) + ci * ci <= (SCALE as int) * (SCALE as int) / 16
}

/// The cardioid lies inside the box of 2 plane units around the origin:
/// outside that box the cardioid inequality fails.
pub proof fn lemma_cardioid_outside_box(cr: int, ci: int)
    requires
        cr < -(2 * SCALE) || cr > 2 * SCALE || ci < -(2 * SCALE) || ci > 2 * SCALE,
    ensures
        !in_cardioid(cr, ci),
{
    let s = SCALE as int;
    let u = cr - s / 4;
    let q = u * u + ci * ci;
    assert(s == 100_000_000 && s / 4 == 25_000_000);
    if ci < -(2 * s) || ci > 2 * s {
        assert(4 * q * q + 4 * q * u * s > ci * ci * s * s) by (nonlinear_arith)
            requires
                s == 100_000_000,
                u == cr - 25_000_000,
                q == u * u + ci * ci,
                ci < -(2 * s) || ci > 2 * s,
        ;
    } else {
        assert(4 * q * q + 4 * q * u * s > ci * ci * s * s) by (nonlinear_arith)
            requires
                s == 100_000_000,
                u == cr - 25_000_000,
                q == u * u + ci * ci,
                cr < -(2 * s) || cr > 2 * s,
                -(2 * s) <= ci <= 2 * s,
        ;
    }
}

/// The period-2 bulb lies inside the box of 1/4 plane unit around -1:
/// outside that box the disk inequality fails.
pub proof fn lemma_bulb_outside_box(cr: int, ci: int)
    requires
        cr < -(SCALE + SCALE / 4) || cr > -(SCALE - SCALE / 4) || ci < -(SCALE / 4) || ci > SCALE
            / 4,
    ensures
        !in_bulb(cr, ci),
{
    let s = SCALE as int;
    assert((cr + s) * (cr + s) + ci * ci > s * s / 16) by (nonlinear_arith)
        requires
            s == 100_000_000,
            cr + s < -(s / 4) || cr + s > s / 4 || ci < -(s / 4) || ci > s / 4,
    ;
}

/// Exact test for membership in the main cardioid.
pub fn is_in_cardioid(cr: i64, ci: i64) -> (res: bool)
    ensures
        res == in_cardioid(cr as int, ci as int),
{
    if cr < -(2 * SCALE) || cr > 2 * SCALE || ci < -(2 * SCALE) || ci > 2 * SCALE {
        proof {
            lemma_cardioid_outside_box(cr as int, ci as int);
        }
        false
    } else {
        let u: i128 = (cr as i128) - 25_000_000;
        proof {
            assert(0 <= (u as int) * (u as int) <= 50_625_000_000_000_000 && 0 <= (ci as int) * (
            ci as int) <= 40_000_000_000_000_000) by (nonlinear_arith)
                requires
                    -225_000_000 <= u <= 225_000_000,
                    -200_000_000 <= ci <= 200_000_000,
            ;
        }
        let q: i128 = u * u + (ci as i128) * (ci as i128);
        let s128: i128 = SCALE as i128;
        proof {
            assert(s128 == 100_000_000);
            assert(0 <= 4 * (q as int) * (q as int) <= 33_000_000_000_000_000_000_000_000_000_000_000
                && -100_000_000_000_000_000_000_000_000 <= 4 * (q as int) * (u as int)
                <= 100_000_000_000_000_000_000_000_000) by (nonlinear_arith)
                requires
                    0 <= q <= 90_625_000_000_000_000,
                    -225_000_000 <= u <= 225_000_000,
            ;
        }
        let lhs: i128 = 4 * q * q + 4 * q * u * s128;
        let rhs: i128 = (ci as i128) * (ci as i128) * s128 * s128;
        lhs <= rhs
    }
}

/// Exact test for membership in the period-2 bulb.
pub fn is_in_period2_bulb(cr: i64, ci: i64) -> (res: bool)
    ensures
        res == in_bulb(cr as int, ci as int),
{
    if cr < -125_000_000 || cr > -75_000_000 || ci < -25_000_000 || ci > 25_000_000 {
        proof {
            lemma_bulb_outside_box(cr as int, ci as int);
        }
        false
    } else {
        let a: i64 = cr + SCALE;
        proof {
            assert(0 <= (a as int) * (a as int) <= 0x2_0000_0000_0000_0000 && 0 <= (ci as int) * (
            ci as int) <= 0x2_0000_0000_0000_0000) by (nonlinear_arith)
                requires
                    -25_000_000 <= a <= 25_000_000,
                    -25_000_000 <= ci <= 25_000_000,
            ;
        }
        let lhs: i128 = (a as i128) * (a as i128) + (ci as i128) * (ci as i128);
        lhs <= 625_000_000_000_000
    }
}

/// Escape time of c + 0*I under z := z^2 + c, computed with the squared
/// magnitude test (no square root per iteration).
pub fn escape_time(cr: i64, ci: i64, max_iter: u32) -> (k: u32)
    ensures
        k == escape_time_spec(cr as int, ci as int, max_iter as nat),
        k <= max_iter,
{
    // A coordinate beyond 2 units on either axis is already past the
    // escape radius.
    if cr > 2 * SCALE || cr < -(2 * SCALE) || ci > 2 * SCALE || ci < -(2 * SCALE) {
        proof {
            assert((cr as int) * (cr as int) + (ci as int) * (ci as int) >= ESCAPE_RADIUS_SQ)
                by (nonlinear_arith)
                requires
                    cr > 2 * SCALE || cr < -(2 * SCALE) || ci > 2 * SCALE || ci < -(2 * SCALE),
                    SCALE == 100_000_000i64,
                    ESCAPE_RADIUS_SQ == 40_000_000_000_000_000i64,
            ;
        }
        return 0;
    }
    let mut r = cr;
    let mut i = ci;
    let mut k: u32 = 0;
    while k < max_iter
        invariant
            -(6 * SCALE) <= r <= 6 * SCALE,
            -(10 * SCALE) <= i <= 10 * SCALE,
            -(2 * SCALE) <= cr <= 2 * SCALE,
            -(2 * SCALE) <= ci <= 2 * SCALE,
            k <= max_iter,
            escape_time_spec(cr as int, ci as int, max_iter as nat) == k + escape_time_from(
                r as int,
                i as int,
                cr as int,
                ci as int,
                (max_iter - k) as nat,
            ),
        decreases max_iter - k,
    {
        proof {
            assert(0 <= (r as int) * (r as int) <= 36 * (SCALE as int) * (SCALE as int)
                && 0 <= (i as int) * (i as int) <= 100 * (SCALE as int) * (SCALE as int))
                by (nonlinear_arith)
                requires
                    -(6 * SCALE) <= r <= 6 * SCALE,
                    -(10 * SCALE) <= i <= 10 * SCALE,
            ;
        }
        let rr: i128 = (r as i128) * (r as i128);
        let ii: i128 = (i as i128) * (i as i128);
        if rr + ii >= ESCAPE_RADIUS_SQ as i128 {
            return k;
        }
        proof {
            assert(-(2 * SCALE) + 1 <= r <= 2 * SCALE - 1 && -(2 * SCALE) + 1 <= i <= 2 * SCALE
                - 1) by (nonlinear_arith)
                requires
                    (r as int) * (r as int) + (i as int) * (i as int) < ESCAPE_RADIUS_SQ,
                    0 <= (r as int) * (r as int),
                    0 <= (i as int) * (i as int),
                    SCALE == 100_000_000i64,
                    ESCAPE_RADIUS_SQ == 40_000_000_000_000_000i64,
            ;
            lemma_tdiv_bound((r as int) * (r as int), ESCAPE_RADIUS_SQ as int, SCALE as int);
            lemma_tdiv_bound((i as int) * (i as int), ESCAPE_RADIUS_SQ as int, SCALE as int);
            assert(-(8 * (SCALE as int) * (SCALE as int)) <= (2 * r) as int * (i as int) <= 8 * (
            SCALE as int) * (SCALE as int)) by (nonlinear_arith)
                requires
                    -(2 * SCALE) + 1 <= r <= 2 * SCALE - 1,
                    -(2 * SCALE) + 1 <= i <= 2 * SCALE - 1,
            ;
            lemma_tdiv_bound(
                (2 * r) as int * (i as int),
                8 * (SCALE as int) * (SCALE as int),
                SCALE as int,
            );
        }
        let r2 = mul_div_i64(r, r, SCALE);
        let i2 = mul_div_i64(i, i, SCALE);
        let ri = mul_div_i64(2 * r, i, SCALE);
        let new_r = r2 - i2 + cr;
        let new_i = ri + ci;
        r = new_r;
        i = new_i;
        k = k + 1;
    }
    k
}

} // verus!
