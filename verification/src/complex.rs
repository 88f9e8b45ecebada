//! Complex numbers over fixed-point scalars.

use crate::fixed::{div_tz, fix_mul, FIX_ONE};
use vstd::prelude::*;

verus! {

/// A complex number; `re` and `im` are raw fixed-point scalars.
#[derive(Clone, Copy, PartialEq, Eq, Structural, Debug)]
pub struct Complex {
    pub re: i64,
    pub im: i64,
}

/// Raw squared modulus of the complex number with raw parts `(re, im)`:
/// the sum of the two truncated fixed-point squares.
pub open spec fn norm_sqr_fix(re: int, im: int) -> int {
    fix_mul(re, re) + fix_mul(im, im)
}

/// Real part of `z * z + c`, for `z = (zr, zi)` and `c` with real part `cr`.
pub open spec fn step_re(zr: int, zi: int, cr: int) -> int {
    fix_mul(zr, zr) - fix_mul(zi, zi) + cr
}

/// Imaginary part of `z * z + c`, for `z = (zr, zi)` and `c` with imaginary
/// part `ci`.
pub open spec fn step_im(zr: int, zi: int, ci: int) -> int {
    div_tz(2 * zr * zi, FIX_ONE as int) + ci
}

} // verus!
