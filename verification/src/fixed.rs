//! Fixed-point arithmetic over the complex plane.
//!
//! A plane coordinate is an `i64` counting ticks of `1 / SCALE` of a plane
//! unit. All fixed-point operations round toward zero; since extents and
//! zoom factors are positive, the operations on them round downward.

use vstd::prelude::*;
use vstd::arithmetic::div_mod::{
    lemma_div_is_ordered, lemma_div_multiples_vanish, lemma_div_nonincreasing,
    lemma_div_pos_is_pos,
};
use vstd::arithmetic::mul::{lemma_mul_inequality, lemma_mul_nonnegative};

verus! {

/// Number of fixed-point ticks per plane unit.
pub const SCALE: i64 = 100_000_000;

/// Division rounding toward zero (for positive `b`), the rounding rule of
/// every fixed-point operation in this crate.
pub open spec fn tdiv(a: int, b: int) -> int {
    if a >= 0 {
        a / b
    } else {
        -((-a) / b)
    }
}

/// `a * b / d`, rounded toward zero: the exact value of every scaled
/// product or quotient computed by the library.
pub open spec fn mul_div(a: int, b: int, d: int) -> int {
    tdiv(a * b, d)
}

/// `a * b / d` with an exact 128-bit intermediate product.
pub fn mul_div_i64(a: i64, b: i64, d: i64) -> (r: i64)
    requires
        d > 0,
        -0x7fff_ffff_ffff_ffff <= mul_div(a as int, b as int, d as int) <= 0x7fff_ffff_ffff_ffff,
    ensures
        r == mul_div(a as int, b as int, d as int),
{
    proof {
        assert((a as int) * (b as int) <= i128::MAX && (a as int) * (b as int) >= -i128::MAX)
            by (nonlinear_arith)
            requires
                -0x8000_0000_0000_0000 <= a <= 0x7fff_ffff_ffff_ffff,
                -0x8000_0000_0000_0000 <= b <= 0x7fff_ffff_ffff_ffff,
        ;
    }
    let p: i128 = (a as i128) * (b as i128);
    if p >= 0 {
        let q: u128 = (p as u128) / (d as u128);
        assert(q == tdiv(a as int * b as int, d as int));
        q as i64
    } else {
        let m: u128 = ((-p) as u128) / (d as u128);
        assert(m == -tdiv(a as int * b as int, d as int));
        -(m as i64)
    }
}

/// A quotient is bounded by the quotient of a bound on the dividend.
pub proof fn lemma_tdiv_bound(a: int, bound: int, d: int)
    requires
        0 < d,
        -bound <= a <= bound,
    ensures
        -(bound / d) <= tdiv(a, d) <= bound / d,
{
    if a >= 0 {
        lemma_div_pos_is_pos(a, d);
        lemma_div_is_ordered(a, bound, d);
        lemma_div_pos_is_pos(bound, d);
    } else {
        lemma_div_pos_is_pos(-a, d);
        lemma_div_is_ordered(-a, bound, d);
        lemma_div_pos_is_pos(bound, d);
    }
}

/// For nonnegative operands the scaled product is nonnegative and at most
/// the plain product.
pub proof fn lemma_mul_div_nonneg(a: int, b: int, d: int)
    requires
        0 <= a,
        0 <= b,
        0 < d,
    ensures
        0 <= mul_div(a, b, d) <= a * b,
{
    lemma_mul_nonnegative(a, b);
    lemma_div_pos_is_pos(a * b, d);
    lemma_div_nonincreasing(a * b, d);
}

/// A product scaled down by a denominator at least as large as one factor
/// is bounded by the other factor.
pub proof fn lemma_mul_div_upper(a: int, b: int, d: int)
    requires
        0 <= a <= d,
        0 <= b,
        0 < d,
    ensures
        0 <= mul_div(a, b, d) <= b,
{
    lemma_mul_nonnegative(a, b);
    lemma_div_pos_is_pos(a * b, d);
    lemma_mul_inequality(a, d, b);
    lemma_div_is_ordered(a * b, d * b, d);
    lemma_div_multiples_vanish(b, d);
}

/// Scaling by a factor of at most one unit does not grow a nonnegative
/// value.
pub proof fn lemma_mul_div_shrinks(a: int, b: int, d: int)
    requires
        0 <= a,
        0 <= b <= d,
        0 < d,
    ensures
        0 <= mul_div(a, b, d) <= a,
{
    lemma_mul_nonnegative(a, b);
    lemma_div_pos_is_pos(a * b, d);
    lemma_mul_inequality(b, d, a);
    assert(a * b == b * a) by (nonlinear_arith);
    assert(a * d == d * a) by (nonlinear_arith);
    lemma_div_is_ordered(a * b, a * d, d);
    lemma_div_multiples_vanish(a, d);
}

/// A product scaled down by `d` grows a nonnegative value by at most the
/// factor `k` when the numerator factor is at most `k * d`.
pub proof fn lemma_mul_div_factor_bound(a: int, b: int, d: int, k: int)
    requires
        0 <= a,
        0 < d,
        0 <= b,
        b <= k * d,
    ensures
        0 <= mul_div(a, b, d) <= k * a,
{
    lemma_mul_nonnegative(a, b);
    lemma_div_pos_is_pos(a * b, d);
    assert(a * b <= (k * a) * d) by (nonlinear_arith)
        requires
            0 <= a,
            0 <= b,
            b <= k * d,
    ;
    lemma_div_is_ordered(a * b, (k * a) * d, d);
    assert((k * a) * d == d * (k * a)) by (nonlinear_arith);
    lemma_div_multiples_vanish(k * a, d);
}

/// Scaling by a factor of at least one unit does not shrink a nonnegative
/// value.
pub proof fn lemma_mul_div_grows(a: int, b: int, d: int)
    requires
        0 <= a,
        0 < d <= b,
    ensures
        mul_div(a, b, d) >= a,
{
    assert(a * b >= d * a) by (nonlinear_arith)
        requires
            0 <= a,
            d <= b,
    ;
    lemma_mul_nonnegative(a, b);
    lemma_div_is_ordered(d * a, a * b, d);
    lemma_div_multiples_vanish(a, d);
}

/// Scaling a value up by `b / d` grows it strictly once the value is
/// large enough that its share of the growth reaches a whole tick:
/// `a * (b - d) >= b` guarantees one full unit of gain.
pub proof fn lemma_mul_div_strict_growth(a: int, b: int, d: int)
    requires
        0 < d < b,
        0 <= a,
        a * (b - d) >= b,
    ensures
        mul_div(a, b, d) >= a + 1,
{
    assert(a * b >= (a + 1) * d) by (nonlinear_arith)
        requires
            a * (b - d) >= b,
            0 < d < b,
            0 <= a,
    ;
    lemma_mul_nonnegative(a, b);
    lemma_div_is_ordered((a + 1) * d, a * b, d);
    assert((a + 1) * d == d * (a + 1)) by (nonlinear_arith);
    lemma_div_multiples_vanish(a + 1, d);
}

} // verus!
