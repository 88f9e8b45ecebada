//! The escape-time evaluator.
//!
//! `calculate` iterates `z = z * z + c` from `z = 0` and counts how many
//! iterations run before the squared modulus of `z` leaves the disk of
//! radius two, capped at the iteration budget.

use crate::complex::{norm_sqr_fix, step_im, step_re, Complex};
use crate::fixed::{div_trunc, div_tz, fix_mul, lemma_div_tz_le, lemma_div_tz_magnitude, FIX_ONE};
use vstd::arithmetic::div_mod::{
    lemma_fundamental_div_mod, lemma_mod_division_less_than_divisor,
};
use vstd::prelude::*;

verus! {

/// Raw fixed-point form of four: the squared-modulus bound of the escape
/// test, `|z|^2 <= 4`.
pub const ESCAPE_BOUND: i64 = 17179869184;

/// Magnitude bound kept on both coordinates of `z` while iterating: one
/// whole `i64` of room for `c` plus 2^36 of slack for the bounded square.
const Z_RANGE: i128 = 9223372105574252544;

/// The iteration count reached from state `(zr, zi)` after `done` completed
/// iterations of `z = z * z + c`, with budget `max`: counting stops as soon
/// as the budget is spent or the squared modulus leaves the disk.
pub open spec fn escape_from(zr: int, zi: int, cr: int, ci: int, done: nat, max: nat) -> nat
    decreases max - done,
{
    if done >= max {
        done
    } else if norm_sqr_fix(zr, zi) > ESCAPE_BOUND as int {
        done
    } else {
        escape_from(step_re(zr, zi, cr), step_im(zr, zi, ci), cr, ci, done + 1, max)
    }
}

/// The escape iteration count of the sample point `(cr, ci)`: iterations of
/// `z = z * z + c` from `z = 0` until the squared modulus exceeds four, at
/// most `max`.
pub open spec fn spec_calculate(cr: int, ci: int, max: nat) -> nat {
    escape_from(0, 0, cr, ci, 0, max)
}

/// A square of an `i64`-plus-slack coordinate stays within `i128`.
proof fn lemma_sq_in_range(x: int)
    by (nonlinear_arith)
    requires
        -Z_RANGE <= x <= Z_RANGE,
    ensures
        0 <= x * x <= Z_RANGE * Z_RANGE,
{
}

/// Once the escape test has passed, the coordinate behind a truncated
/// square of at most four is itself at most two.
proof fn lemma_coord_small(x: int)
    by (nonlinear_arith)
    requires
        x * x <= 4 * (FIX_ONE as int) * (FIX_ONE as int) + FIX_ONE as int,
    ensures
        -2 * (FIX_ONE as int) <= x <= 2 * (FIX_ONE as int),
{
}

/// The product of two coordinates of the disk, doubled, stays within eight
/// squared units.
proof fn lemma_cross_small(x: int, y: int)
    by (nonlinear_arith)
    requires
        -2 * (FIX_ONE as int) <= x <= 2 * (FIX_ONE as int),
        -2 * (FIX_ONE as int) <= y <= 2 * (FIX_ONE as int),
    ensures
        -8 * (FIX_ONE as int) * (FIX_ONE as int) <= 2 * x * y
            <= 8 * (FIX_ONE as int) * (FIX_ONE as int),
{
}

/// From `div_tz(x * x, FIX_ONE) <= 4 * FIX_ONE` recover the bound on the
/// square itself.
proof fn lemma_sq_from_quotient(x: int)
    requires
        0 <= x * x,
        div_tz(x * x, FIX_ONE as int) <= 4 * (FIX_ONE as int),
    ensures
        x * x <= 4 * (FIX_ONE as int) * (FIX_ONE as int) + FIX_ONE as int,
{
    let s: int = FIX_ONE as int;
    lemma_fundamental_div_mod(x * x, s);
    lemma_mod_division_less_than_divisor(x * x, s);
    assert(x * x == s * ((x * x) / s) + (x * x) % s);
    assert(s * ((x * x) / s) <= s * (4 * s)) by (nonlinear_arith)
        requires
            (x * x) / s <= 4 * s,
            s > 0,
    ;
}

/// The escape-time evaluator: the number of iterations of `z = z * z + c`
/// from `z = 0` before the squared modulus of `z` exceeds four, capped at
/// `max_iterations`.
pub fn calculate(c: Complex, max_iterations: u32) -> (n: u32)
    ensures
        n as nat == spec_calculate(c.re as int, c.im as int, max_iterations as nat),
        n <= max_iterations,
        max_iterations >= 1 ==> n >= 1,
{
    let mut zr: i128 = 0;
    let mut zi: i128 = 0;
    let mut n: u32 = 0;
    loop
        invariant
            n <= max_iterations,
            -Z_RANGE <= zr <= Z_RANGE,
            -Z_RANGE <= zi <= Z_RANGE,
            n == 0 ==> zr == 0 && zi == 0,
            escape_from(
                zr as int,
                zi as int,
                c.re as int,
                c.im as int,
                n as nat,
                max_iterations as nat,
            ) == spec_calculate(c.re as int, c.im as int, max_iterations as nat),
        decreases max_iterations - n,
    {
        proof {
            lemma_sq_in_range(zr as int);
            lemma_sq_in_range(zi as int);
            assert(Z_RANGE * Z_RANGE < i128::MAX as int);
        }
        let sq_r: i128 = div_trunc(zr * zr, FIX_ONE as i128);
        let sq_i: i128 = div_trunc(zi * zi, FIX_ONE as i128);
        proof {
            lemma_div_tz_magnitude(zr as int * zr as int, FIX_ONE as int);
            lemma_div_tz_magnitude(zi as int * zi as int, FIX_ONE as int);
            assert(sq_r >= 0 && sq_i >= 0);
        }
        if !(sq_r + sq_i <= ESCAPE_BOUND as i128 && n < max_iterations) {
            proof {
                assert(norm_sqr_fix(zr as int, zi as int) == sq_r + sq_i);
                if n < max_iterations {
                    assert(norm_sqr_fix(zr as int, zi as int) > ESCAPE_BOUND as int);
                } else {
                    assert(n == max_iterations);
                }
            }
            return n;
        }
        n = n + 1;
        let ghost zr0: int = zr as int;
        let ghost zi0: int = zi as int;
        proof {
            lemma_sq_from_quotient(zr0);
            lemma_sq_from_quotient(zi0);
            lemma_coord_small(zr0);
            lemma_coord_small(zi0);
            lemma_cross_small(zr0, zi0);
        }
        let cross: i128 = div_trunc(2 * zr * zi, FIX_ONE as i128);
        proof {
            lemma_div_tz_le(2 * zr0 * zi0, FIX_ONE as int, 8 * (FIX_ONE as int));
        }
        zr = sq_r - sq_i + (c.re as i128);
        zi = cross + (c.im as i128);
        proof {
            assert(zr as int == step_re(zr0, zi0, c.re as int));
            assert(zi as int == step_im(zr0, zi0, c.im as int));
            assert(escape_from(
                zr0,
                zi0,
                c.re as int,
                c.im as int,
                (n - 1) as nat,
                max_iterations as nat,
            ) == escape_from(
                zr as int,
                zi as int,
                c.re as int,
                c.im as int,
                n as nat,
                max_iterations as nat,
            ));
        }
    }
}

/// The orbit of the origin stays at the origin, one iteration at a time.
proof fn lemma_zero_orbit(done: nat, max: nat)
    requires
        done <= max,
    ensures
        escape_from(0, 0, 0, 0, done, max) == max,
    decreases max - done,
{
    if done < max {
        assert(fix_mul(0, 0) == 0) by {
            assert(div_tz(0int, FIX_ONE as int) == 0);
        }
        assert(norm_sqr_fix(0, 0) == 0);
        assert(step_re(0, 0, 0) == 0);
        assert(step_im(0, 0, 0) == 0) by {
            assert(div_tz(2int * 0 * 0, FIX_ONE as int) == 0);
        }
        lemma_zero_orbit(done + 1, max);
    }
}

/// The origin never escapes: with `c = 0` the whole iteration budget is
/// always spent, whatever the budget is.
pub proof fn lemma_origin_never_escapes(max: nat)
    requires
        max >= 1,
    ensures
        spec_calculate(0, 0, max) == max,
{
    lemma_zero_orbit(0, max);
}

/// A sample point whose squared modulus already exceeds four escapes on the
/// first iteration: the first iterate is `c` itself, and it fails the next
/// escape test.
pub proof fn lemma_outside_disk_escapes_first(cr: int, ci: int, max: nat)
    requires
        norm_sqr_fix(cr, ci) > ESCAPE_BOUND as int,
        max >= 1,
    ensures
        spec_calculate(cr, ci, max) == 1,
{
    assert(fix_mul(0, 0) == 0) by {
        assert(div_tz(0int, FIX_ONE as int) == 0);
    }
    assert(norm_sqr_fix(0, 0) == 0);
    assert(step_re(0, 0, cr) == cr);
    assert(step_im(0, 0, ci) == ci) by {
        assert(div_tz(2int * 0 * 0, FIX_ONE as int) == 0);
    }
    assert(escape_from(cr, ci, cr, ci, 1, max) == 1);
    assert(escape_from(0, 0, cr, ci, 0, max) == escape_from(cr, ci, cr, ci, 1, max));
}

} // verus!
