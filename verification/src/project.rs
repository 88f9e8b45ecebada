//! The pixel-to-plane projection.
//!
//! Pixel column `px` and row `py` of a `length`-pixel square surface are
//! normalized to positions `u = px/length - 1/2` and `v = -py/length + 1/2`
//! relative to the surface center (row zero is the top, so the imaginary
//! axis points up), and the sample point is
//! `origin + extent * (u + v*i)`.  The center pixel therefore maps to the
//! viewport origin, and `extent` is the full side length of the sampled
//! square.

use crate::complex::Complex;
use crate::fixed::{div_trunc, div_tz, lemma_div_tz_le, lemma_div_tz_magnitude, FIX_HALF, FIX_ONE};
use crate::viewport::{Viewport, MAX_EXTENT, MAX_LENGTH};
use vstd::arithmetic::div_mod::{
    lemma_div_is_ordered, lemma_div_multiples_vanish, lemma_div_pos_is_pos,
    lemma_fundamental_div_mod,
};
use vstd::prelude::*;

verus! {

/// Horizontal position of pixel column `x` relative to the surface center,
/// as a raw scalar: `x / length - 1/2`.
pub open spec fn spec_rel_u(x: int, length: int) -> int {
    div_tz(x * FIX_ONE, length) - FIX_HALF
}

/// Vertical position of pixel row `y` relative to the surface center, with
/// the imaginary axis pointing up: `-y / length + 1/2`.
pub open spec fn spec_rel_v(y: int, length: int) -> int {
    FIX_HALF - div_tz(y * FIX_ONE, length)
}

/// Raw real part of the sample point of pixel column `px`.
pub open spec fn spec_point_re(px: int, vp: Viewport, length: int) -> int {
    vp.origin.re + div_tz(vp.extent * spec_rel_u(px, length), FIX_ONE as int)
}

/// Raw imaginary part of the sample point of pixel row `py`.
pub open spec fn spec_point_im(py: int, vp: Viewport, length: int) -> int {
    vp.origin.im + div_tz(vp.extent * spec_rel_v(py, length), FIX_ONE as int)
}

/// The relative position of an in-range pixel coordinate lies within one
/// whole unit of the center.
proof fn lemma_rel_in_range(p: int, length: int)
    requires
        0 <= p < length,
    ensures
        0 <= div_tz(p * FIX_ONE, length) <= FIX_ONE as int,
        -FIX_ONE <= spec_rel_u(p, length) <= FIX_ONE,
        -FIX_ONE <= spec_rel_v(p, length) <= FIX_ONE,
{
    lemma_div_pos_is_pos(p * FIX_ONE, length);
    lemma_div_is_ordered(p * FIX_ONE, length * FIX_ONE, length);
    lemma_div_multiples_vanish(FIX_ONE as int, length);
}

/// The shift `extent * u / FIX_ONE` of a relative position within one unit
/// stays within `MAX_EXTENT` raw units.
proof fn lemma_shift_in_range(extent: int, u: int)
    requires
        1 <= extent <= MAX_EXTENT,
        -FIX_ONE <= u <= FIX_ONE,
    ensures
        -(MAX_EXTENT as int) * (FIX_ONE as int) <= extent * u <= (MAX_EXTENT as int) * (
        FIX_ONE as int),
        -MAX_EXTENT <= div_tz(extent * u, FIX_ONE as int) <= MAX_EXTENT,
{
    assert(-(MAX_EXTENT as int) * (FIX_ONE as int) <= extent * u <= (MAX_EXTENT as int) * (
    FIX_ONE as int)) by (nonlinear_arith)
        requires
            1 <= extent <= MAX_EXTENT,
            -FIX_ONE <= u <= FIX_ONE,
    ;
    lemma_div_tz_le(extent * u, FIX_ONE as int, MAX_EXTENT as int);
}

/// The projector: the complex sample point of pixel `(px, py)` of a
/// `length`-pixel surface under the given viewport.
pub fn pixel_to_point(px: u32, py: u32, viewport: &Viewport, length: u32) -> (point: Complex)
    requires
        viewport.wf(),
        1 <= length <= MAX_LENGTH,
        px < length,
        py < length,
    ensures
        point.re as int == spec_point_re(px as int, *viewport, length as int),
        point.im as int == spec_point_im(py as int, *viewport, length as int),
{
    let s: i128 = FIX_ONE as i128;
    let qx: i128 = div_trunc((px as i128) * s, length as i128);
    let qy: i128 = div_trunc((py as i128) * s, length as i128);
    let u: i128 = qx - FIX_HALF as i128;
    let v: i128 = (FIX_HALF as i128) - qy;
    proof {
        lemma_rel_in_range(px as int, length as int);
        lemma_rel_in_range(py as int, length as int);
        lemma_shift_in_range(viewport.extent as int, u as int);
        lemma_shift_in_range(viewport.extent as int, v as int);
    }
    let dx: i128 = div_trunc((viewport.extent as i128) * u, s);
    let dy: i128 = div_trunc((viewport.extent as i128) * v, s);
    let re: i64 = (viewport.origin.re as i128 + dx) as i64;
    let im: i64 = (viewport.origin.im as i128 + dy) as i64;
    Complex { re, im }
}

/// The projection round trip at the center: on an even-sided surface the
/// center pixel maps exactly to the viewport origin.
pub proof fn lemma_center_maps_to_origin(vp: Viewport, length: int)
    requires
        vp.wf(),
        2 <= length <= MAX_LENGTH,
        length % 2 == 0,
    ensures
        spec_point_re(length / 2, vp, length) == vp.origin.re,
        spec_point_im(length / 2, vp, length) == vp.origin.im,
{
    let half = length / 2;
    lemma_fundamental_div_mod(length, 2);
    assert(length == 2 * half);
    assert(half * (FIX_ONE as int) == length * (FIX_HALF as int));
    lemma_div_multiples_vanish(FIX_HALF as int, length);
    assert(div_tz(half * FIX_ONE, length) == FIX_HALF as int);
    assert(spec_rel_u(half, length) == 0);
    assert(spec_rel_v(half, length) == 0);
    assert(vp.extent * 0 == 0);
    assert(div_tz(0, FIX_ONE as int) == 0);
}

} // verus!
