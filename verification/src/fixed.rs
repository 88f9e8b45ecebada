//! Fixed-point scalars.
//!
//! A real number `x` is represented by the raw integer `x * FIX_ONE`,
//! truncated toward zero.  All scalar arithmetic in the crate is phrased over
//! raw values, so every operation is exact integer arithmetic and every
//! result is pinned down by its contract.

use vstd::arithmetic::div_mod::{
    lemma_div_is_ordered, lemma_div_multiples_vanish, lemma_div_nonincreasing,
    lemma_div_pos_is_pos,
};
use vstd::prelude::*;

verus! {

/// Scale of the fixed-point representation: 2^32.  The raw value `FIX_ONE`
/// stands for the real number one.
pub const FIX_ONE: i64 = 4294967296;

/// Raw form of one half.
pub const FIX_HALF: i64 = 2147483648;

/// Division truncated toward zero.  (`int` division in specifications rounds
/// toward negative infinity; the executable divisions here truncate.)
pub open spec fn div_tz(n: int, d: int) -> int
    recommends
        d > 0,
{
    if n >= 0 {
        n / d
    } else {
        -((-n) / d)
    }
}

/// Raw fixed-point product of two raw scalars: `(a * b) / FIX_ONE`,
/// truncated toward zero.
pub open spec fn fix_mul(a: int, b: int) -> int {
    div_tz(a * b, FIX_ONE as int)
}

/// Truncating division by `d` maps `[-k*d, k*d]` into `[-k, k]`.
pub proof fn lemma_div_tz_le(n: int, d: int, k: int)
    requires
        d > 0,
        k >= 0,
        -(k * d) <= n <= k * d,
    ensures
        -k <= div_tz(n, d) <= k,
{
    lemma_div_multiples_vanish(k, d);
    assert(d * k == k * d) by (nonlinear_arith);
    if n >= 0 {
        lemma_div_pos_is_pos(n, d);
        lemma_div_is_ordered(n, k * d, d);
    } else {
        lemma_div_pos_is_pos(-n, d);
        lemma_div_is_ordered(-n, k * d, d);
    }
}

/// Truncating division never grows the magnitude of its dividend.
pub proof fn lemma_div_tz_magnitude(n: int, d: int)
    requires
        d > 0,
    ensures
        n >= 0 ==> 0 <= div_tz(n, d) <= n,
        n < 0 ==> n <= div_tz(n, d) <= 0,
{
    if n >= 0 {
        lemma_div_pos_is_pos(n, d);
        lemma_div_nonincreasing(n, d);
    } else {
        lemma_div_pos_is_pos(-n, d);
        lemma_div_nonincreasing(-n, d);
    }
}

/// Truncating division of a raw 128-bit value, the one executable division
/// primitive of the crate.  Works on magnitudes so that the rounding
/// direction does not depend on the machine's signed-division convention.
pub fn div_trunc(n: i128, d: i128) -> (q: i128)
    requires
        d > 0,
        n > i128::MIN,
    ensures
        q == div_tz(n as int, d as int),
{
    if n >= 0 {
        let m: u128 = n as u128;
        let q: u128 = m / (d as u128);
        proof {
            lemma_div_pos_is_pos(n as int, d as int);
            lemma_div_nonincreasing(n as int, d as int);
        }
        q as i128
    } else {
        let m: u128 = (-n) as u128;
        let q: u128 = m / (d as u128);
        proof {
            lemma_div_pos_is_pos(-n as int, d as int);
            lemma_div_nonincreasing(-n as int, d as int);
        }
        -(q as i128)
    }
}

} // verus!
