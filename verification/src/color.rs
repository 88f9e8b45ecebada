//! The iteration-count-to-color mapping.
//!
//! The escape count is read as an HSV hue in degrees (`hue = n mod 360`),
//! with saturation 4/5 and value 0 for a point that never escaped (pure
//! black) or 1 otherwise, and converted to RGB with the six-sector
//! decomposition.  Each channel is an exact integer truncation of the real
//! formula scaled to 0..255.  One quirk is kept on purpose: the sector for
//! hues in 300..360 assigns a literal zero to the blue channel instead of
//! the interpolated term of the neighboring sectors.

use vstd::arithmetic::div_mod::{lemma_div_is_ordered, lemma_div_pos_is_pos};
use vstd::prelude::*;

verus! {

/// An RGB color cell of the pixel buffer.
#[derive(Clone, Copy, PartialEq, Eq, Structural, Debug)]
pub struct Rgb {
    pub r: u8,
    pub g: u8,
    pub b: u8,
}

/// Pure black, the color of a point that never escaped.
pub open spec fn spec_black() -> Rgb {
    Rgb { r: 0, g: 0, b: 0 }
}

/// The channel `255 * (1 - sat)` for value 1 and saturation 4/5, truncated:
/// exactly 51.
pub open spec fn spec_p_channel() -> int {
    51
}

/// The channel `255 * (1 - sat * f)` for value 1, saturation 4/5 and hue
/// fraction `f = m / 60`, truncated.
pub open spec fn spec_q_channel(m: int) -> int {
    (255 * (300 - 4 * m)) / 300
}

/// The channel `255 * (1 - sat * (1 - f))` for value 1, saturation 4/5 and
/// hue fraction `f = m / 60`, truncated.
pub open spec fn spec_t_channel(m: int) -> int {
    (255 * (60 + 4 * m)) / 300
}

/// The color of an escape count `n` under budget `max`: black if the point
/// never escaped, else the HSV-to-RGB sector table applied to the hue
/// `n mod 360` at full value.
pub open spec fn spec_color(n: nat, max: nat) -> Rgb {
    if n == max {
        spec_black()
    } else {
        let hue = (n % 360) as int;
        let h = hue / 60;
        let m = hue % 60;
        if h == 1 {
            Rgb { r: spec_q_channel(m) as u8, g: 255, b: spec_p_channel() as u8 }
        } else if h == 2 {
            Rgb { r: spec_p_channel() as u8, g: 255, b: spec_t_channel(m) as u8 }
        } else if h == 3 {
            Rgb { r: spec_p_channel() as u8, g: spec_q_channel(m) as u8, b: 255 }
        } else if h == 4 {
            Rgb { r: spec_t_channel(m) as u8, g: spec_p_channel() as u8, b: 255 }
        } else if h == 5 {
            Rgb { r: 255, g: spec_p_channel() as u8, b: 0 }
        } else {
            Rgb { r: 255, g: spec_t_channel(m) as u8, b: spec_p_channel() as u8 }
        }
    }
}

/// Both interpolated channels stay inside 0..=255 for `0 <= m < 60`.
proof fn lemma_channels_in_range(m: int)
    requires
        0 <= m < 60,
    ensures
        0 <= spec_q_channel(m) <= 255,
        0 <= spec_t_channel(m) <= 255,
{
    lemma_div_pos_is_pos(255 * (300 - 4 * m), 300);
    lemma_div_is_ordered(255 * (300 - 4 * m), 76500, 300);
    lemma_div_pos_is_pos(255 * (60 + 4 * m), 300);
    lemma_div_is_ordered(255 * (60 + 4 * m), 76500, 300);
}

/// The color mapper: the escape count `iterations` under the budget
/// `max_iterations` as a displayable RGB color.
pub fn color(iterations: u32, max_iterations: u32) -> (c: Rgb)
    ensures
        c == spec_color(iterations as nat, max_iterations as nat),
{
    if iterations == max_iterations {
        return Rgb { r: 0, g: 0, b: 0 };
    }
    let hue: u32 = iterations % 360;
    let h: u32 = hue / 60;
    let m: u32 = hue % 60;
    proof {
        lemma_channels_in_range(m as int);
    }
    let q: u8 = ((255 * (300 - 4 * m)) / 300) as u8;
    let t: u8 = ((255 * (60 + 4 * m)) / 300) as u8;
    if h == 1 {
        Rgb { r: q, g: 255, b: 51 }
    } else if h == 2 {
        Rgb { r: 51, g: 255, b: t }
    } else if h == 3 {
        Rgb { r: 51, g: q, b: 255 }
    } else if h == 4 {
        Rgb { r: t, g: 51, b: 255 }
    } else if h == 5 {
        Rgb { r: 255, g: 51, b: 0 }
    } else {
        Rgb { r: 255, g: t, b: 51 }
    }
}

/// A point that never escaped is always pure black, whatever hue its count
/// would give.
pub proof fn lemma_never_escaped_is_black(n: nat)
    requires
        n >= 1,
    ensures
        spec_color(n, n) == spec_black(),
{
}

/// A point that escaped before the budget ran out is never black: whichever
/// sector its hue falls in, one channel is full.
pub proof fn lemma_escaped_is_not_black(n: nat, max: nat)
    requires
        n < max,
    ensures
        spec_color(n, max) != spec_black(),
        spec_color(n, max).r == 255 || spec_color(n, max).g == 255 || spec_color(n, max).b
            == 255,
{
    let hue = (n % 360) as int;
    let h = hue / 60;
    let m = hue % 60;
    assert(0 <= hue < 360);
    assert(0 <= h <= 5) by {
        lemma_div_pos_is_pos(hue, 60);
        lemma_div_is_ordered(hue, 359, 60);
    }
    lemma_channels_in_range(m);
}

} // verus!
