//! Fixed-point arithmetic for elevations and noise-layer parameters.
//!
//! Values carry sixteen fractional bits: the integer `FX_ONE` stands for the
//! real number one.  Products are scaled back down with the quotient rounded
//! toward zero, so every operation is an exact integer function and the
//! elevation pipeline stays bit-reproducible.

use vstd::prelude::*;
use vstd::arithmetic::div_mod::{lemma_div_is_ordered, lemma_div_multiples_vanish};

verus! {

/// The fixed-point unit: one, with sixteen fractional bits.
pub const FX_ONE: i64 = 65536;

/// One half in fixed-point units.
pub const FX_HALF: i64 = 32768;

/// Largest magnitude admitted for the integer product inside `fx_mul`.
pub const FX_PROD_LIMIT: i64 = 0x4000_0000_0000_0000;

/// The fixed-point product of `a` and `b`: their integer product scaled
/// down by `FX_ONE`, rounded toward zero.
pub open spec fn fx_mul_spec(a: int, b: int) -> int {
    if a * b >= 0 {
        (a * b) / (FX_ONE as int)
    } else {
        -((-(a * b)) / (FX_ONE as int))
    }
}

/// `x` clamped to the fixed-point interval `[0, 1]`.
pub open spec fn clamp01_spec(x: int) -> int {
    if x < 0 {
        0
    } else if x > FX_ONE as int {
        FX_ONE as int
    } else {
        x
    }
}

/// Fixed-point multiplication, exact per `fx_mul_spec`.
pub fn fx_mul(a: i64, b: i64) -> (r: i64)
    requires
        -(FX_PROD_LIMIT as int) <= a as int * b as int <= FX_PROD_LIMIT as int,
    ensures
        r == fx_mul_spec(a as int, b as int),
{
    let p: i128 = (a as i128) * (b as i128);
    if p >= 0 {
        let q: u128 = (p as u128) / (FX_ONE as u128);
        proof {
            assert(p as u128 == a as int * b as int);
            assert(q <= FX_PROD_LIMIT as u128 / (FX_ONE as u128));
        }
        q as i64
    } else {
        let m: i128 = -p;
        let q: u128 = (m as u128) / (FX_ONE as u128);
        proof {
            assert(m as u128 == -(a as int * b as int));
            assert(q <= FX_PROD_LIMIT as u128 / (FX_ONE as u128));
        }
        -(q as i64)
    }
}

/// Clamp to `[0, 1]` in fixed-point units, exact per `clamp01_spec`.
pub fn clamp01(x: i64) -> (r: i64)
    ensures
        r == clamp01_spec(x as int),
{
    if x < 0 {
        0
    } else if x > FX_ONE {
        FX_ONE
    } else {
        x
    }
}

/// Bounds on the factors bound the fixed-point product:
/// `|a| <= m` and `|b| <= n` give `|fx_mul_spec(a, b)| <= (m * n) / FX_ONE`.
pub proof fn lemma_fx_mul_bound(a: int, b: int, m: int, n: int)
    requires
        -m <= a <= m,
        -n <= b <= n,
        0 <= m,
        0 <= n,
    ensures
        -((m * n) / (FX_ONE as int)) <= fx_mul_spec(a, b) <= (m * n) / (FX_ONE as int),
{
    let s = FX_ONE as int;
    assert(-(m * n) <= a * b <= m * n) by (nonlinear_arith)
        requires
            -m <= a <= m,
            -n <= b <= n,
            0 <= m,
            0 <= n,
    ;
    lemma_div_multiples_vanish(0, s);
    if a * b >= 0 {
        lemma_div_is_ordered(a * b, m * n, s);
        lemma_div_is_ordered(0, a * b, s);
    } else {
        lemma_div_is_ordered(-(a * b), m * n, s);
        lemma_div_is_ordered(0, -(a * b), s);
    }
}

/// Bounds on the factors keep the integer product inside `fx_mul`'s limit.
pub proof fn lemma_fx_mul_fits(a: int, b: int, m: int, n: int)
    requires
        -m <= a <= m,
        -n <= b <= n,
        0 <= m,
        0 <= n,
        m * n <= FX_PROD_LIMIT as int,
    ensures
        -(FX_PROD_LIMIT as int) <= a * b <= FX_PROD_LIMIT as int,
{
    assert(-(m * n) <= a * b <= m * n) by (nonlinear_arith)
        requires
            -m <= a <= m,
            -n <= b <= n,
            0 <= m,
            0 <= n,
    ;
}

/// A non-negative factor below `k` (in fixed-point units) scales a
/// non-negative value by at most `k`: the product stays in `[0, k * a]`.
pub proof fn lemma_fx_mul_scale(a: int, b: int, k: int)
    requires
        0 <= a,
        0 <= b <= k * (FX_ONE as int),
        0 <= k,
    ensures
        0 <= fx_mul_spec(a, b) <= k * a,
{
    let s = FX_ONE as int;
    assert(0 <= a * b <= (k * a) * s) by (nonlinear_arith)
        requires
            0 <= a,
            0 <= b <= k * s,
            0 <= k,
            s == FX_ONE as int,
    ;
    lemma_div_multiples_vanish(0, s);
    lemma_div_is_ordered(0, a * b, s);
    lemma_div_is_ordered(a * b, (k * a) * s, s);
    lemma_div_multiples_vanish(k * a, s);
    assert(s * (k * a) == (k * a) * s) by (nonlinear_arith);
}

/// For a fixed non-negative value, the fixed-point product is monotone in a
/// non-negative second factor.
pub proof fn lemma_fx_mul_monotone(v: int, b1: int, b2: int)
    requires
        0 <= v,
        0 <= b1 <= b2,
    ensures
        fx_mul_spec(v, b1) <= fx_mul_spec(v, b2),
{
    let s = FX_ONE as int;
    assert(0 <= v * b1 <= v * b2) by (nonlinear_arith)
        requires
            0 <= v,
            0 <= b1 <= b2,
    ;
    lemma_div_is_ordered(v * b1, v * b2, s);
}

/// Multiplying by fixed-point zero gives zero.
pub proof fn lemma_fx_mul_zero(v: int)
    ensures
        fx_mul_spec(v, 0) == 0,
{
    assert(v * 0 == 0) by (nonlinear_arith);
}

} // verus!
