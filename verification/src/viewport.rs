//! The viewport and its state machine.
//!
//! A `Viewport` is the square region of the complex plane currently visible
//! (center `origin`, side length `extent`, both raw fixed-point scalars)
//! together with the iteration budget used to sample it.  Discrete input
//! events drive it through `transition`; the `Controller` applies events in
//! arrival order and raises the recompute flag.
//!
//! The clamps are part of the design: `extent` stays in
//! `[1, MAX_EXTENT]` raw units and `max_iterations` never drops below
//! `ITERATION_FLOOR`.  The origin saturates at the edge of the representable
//! region, far beyond anything the set itself occupies.

use crate::complex::Complex;
use crate::project::{spec_rel_u, spec_rel_v};
use crate::fixed::{div_trunc, div_tz, lemma_div_tz_le, lemma_div_tz_magnitude, FIX_HALF, FIX_ONE};
use vstd::arithmetic::div_mod::{lemma_div_is_ordered, lemma_div_multiples_vanish};
use vstd::prelude::*;

verus! {

/// Raw real part of the initial origin: -0.5.
pub const INITIAL_ORIGIN_RE: i64 = -2147483648;

/// Raw imaginary part of the initial origin: 0.
pub const INITIAL_ORIGIN_IM: i64 = 0;

/// Raw initial extent: 2.5.
pub const INITIAL_EXTENT: i64 = 10737418240;

/// Raw largest extent the viewport may reach: four times the initial
/// extent, 10.
pub const MAX_EXTENT: i64 = 42949672960;

/// Initial iteration budget.
pub const INITIAL_MAX_ITERATIONS: u32 = 250;

/// Step by which the iteration budget moves.
pub const ITERATION_STEP: u32 = 25;

/// Smallest iteration budget the viewport may reach.
pub const ITERATION_FLOOR: u32 = 25;

/// Divisor of the pan step: panning moves the origin by `extent / 25`.
pub const PAN_DIVISOR: i64 = 25;

/// Magnitude bound kept on both origin coordinates: 2^52 raw, about a
/// million real units.  Pans and clicks saturate here so that every
/// projection stays within `i64`.
pub const ORIGIN_RANGE: i64 = 4503599627370496;

/// Side length, in pixels, of the display surface this explorer uses.
pub const SURFACE_LENGTH: u32 = 600;

/// Largest surface side length the projection arithmetic is sized for.
pub const MAX_LENGTH: u32 = 10000;

/// The visible window: a square region of the complex plane centered at
/// `origin` with side length `extent`, sampled with budget `max_iterations`.
#[derive(Clone, Copy, PartialEq, Eq, Structural, Debug)]
pub struct Viewport {
    pub origin: Complex,
    pub extent: i64,
    pub max_iterations: u32,
}

/// A key this explorer reacts to; anything else arrives as `Other` and is
/// ignored.
#[derive(Clone, Copy, PartialEq, Eq, Structural, Debug)]
pub enum KeyCode {
    Escape,
    Up,
    Down,
    Left,
    Right,
    W,
    S,
    R,
    RightBracket,
    LeftBracket,
    Other,
}

/// A discrete input event from the display surface.
#[derive(Clone, Copy, PartialEq, Eq, Structural, Debug)]
pub enum InputEvent {
    Close,
    KeyPress(KeyCode),
    MouseClick { x: i32, y: i32 },
    ScrollDelta(i32),
}

impl Viewport {
    /// The invariants every reachable viewport satisfies.
    pub open spec fn wf(self) -> bool {
        &&& 1 <= self.extent <= MAX_EXTENT
        &&& self.max_iterations >= ITERATION_FLOOR
        &&& -ORIGIN_RANGE <= self.origin.re <= ORIGIN_RANGE
        &&& -ORIGIN_RANGE <= self.origin.im <= ORIGIN_RANGE
    }

    /// The viewport the explorer starts with and returns to on reset.
    pub fn initial() -> (v: Viewport)
        ensures
            v == spec_initial_viewport(),
            v.wf(),
    {
        Viewport {
            origin: Complex { re: INITIAL_ORIGIN_RE, im: INITIAL_ORIGIN_IM },
            extent: INITIAL_EXTENT,
            max_iterations: INITIAL_MAX_ITERATIONS,
        }
    }
}

/// The viewport the explorer starts with and returns to on reset.
pub open spec fn spec_initial_viewport() -> Viewport {
    Viewport {
        origin: Complex { re: INITIAL_ORIGIN_RE, im: INITIAL_ORIGIN_IM },
        extent: INITIAL_EXTENT,
        max_iterations: INITIAL_MAX_ITERATIONS,
    }
}

/// An origin coordinate saturated at the representable region.
pub open spec fn spec_clamp_coord(v: int) -> int {
    if v > ORIGIN_RANGE as int {
        ORIGIN_RANGE as int
    } else if v < -ORIGIN_RANGE as int {
        -ORIGIN_RANGE as int
    } else {
        v
    }
}

/// The raw distance a pan moves the origin: `extent / 25`.
pub open spec fn spec_pan_step(extent: int) -> int {
    div_tz(extent, PAN_DIVISOR as int)
}

/// Zooming in with the keyboard divides the extent by 3/2, with a floor of
/// one raw unit.
pub open spec fn spec_zoom_in_fast(extent: int) -> int {
    let e = div_tz(2 * extent, 3);
    if e < 1 {
        1
    } else {
        e
    }
}

/// Zooming in with the wheel divides the extent by 6/5, with a floor of one
/// raw unit.
pub open spec fn spec_zoom_in(extent: int) -> int {
    let e = div_tz(5 * extent, 6);
    if e < 1 {
        1
    } else {
        e
    }
}

/// Zooming out multiplies the extent by 6/5, capped at `MAX_EXTENT`.
pub open spec fn spec_zoom_out(extent: int) -> int {
    let e = div_tz(6 * extent, 5);
    if e > MAX_EXTENT as int {
        MAX_EXTENT as int
    } else {
        e
    }
}

/// Saturating increase of the iteration budget by one step.
pub open spec fn spec_more_iterations(mi: int) -> int {
    if mi + ITERATION_STEP <= u32::MAX as int {
        mi + ITERATION_STEP
    } else {
        mi
    }
}

/// Decrease of the iteration budget by one step, floored.
pub open spec fn spec_fewer_iterations(mi: int) -> int {
    if mi >= 2 * ITERATION_FLOOR {
        mi - ITERATION_STEP
    } else {
        ITERATION_FLOOR as int
    }
}

/// The viewport after recentering on the clicked pixel `(x, y)` of a
/// `length`-pixel surface: the origin moves by `extent * (u + v*i)`.
pub open spec fn spec_recenter(vp: Viewport, x: int, y: int, length: int) -> Viewport {
    Viewport {
        origin: Complex {
            re: spec_clamp_coord(
                vp.origin.re + div_tz(vp.extent * spec_rel_u(x, length), FIX_ONE as int),
            ) as i64,
            im: spec_clamp_coord(
                vp.origin.im + div_tz(vp.extent * spec_rel_v(y, length), FIX_ONE as int),
            ) as i64,
        },
        extent: vp.extent,
        max_iterations: vp.max_iterations,
    }
}

/// The viewport after panning by `(dre, dim)` raw units.
pub open spec fn spec_pan(vp: Viewport, dre: int, dim: int) -> Viewport {
    Viewport {
        origin: Complex {
            re: spec_clamp_coord(vp.origin.re + dre) as i64,
            im: spec_clamp_coord(vp.origin.im + dim) as i64,
        },
        extent: vp.extent,
        max_iterations: vp.max_iterations,
    }
}

/// The viewport with a new extent.
pub open spec fn spec_with_extent(vp: Viewport, extent: int) -> Viewport {
    Viewport { origin: vp.origin, extent: extent as i64, max_iterations: vp.max_iterations }
}

/// The viewport with a new iteration budget.
pub open spec fn spec_with_iterations(vp: Viewport, mi: int) -> Viewport {
    Viewport { origin: vp.origin, extent: vp.extent, max_iterations: mi as u32 }
}

/// The transition rule of the state machine: the viewport after one input
/// event on a `length`-pixel surface.
pub open spec fn spec_transition(vp: Viewport, ev: InputEvent, length: int) -> Viewport {
    match ev {
        InputEvent::Close => vp,
        InputEvent::KeyPress(code) => match code {
            KeyCode::Escape => vp,
            KeyCode::Up => spec_pan(vp, 0, spec_pan_step(vp.extent as int)),
            KeyCode::Down => spec_pan(vp, 0, -spec_pan_step(vp.extent as int)),
            KeyCode::Left => spec_pan(vp, -spec_pan_step(vp.extent as int), 0),
            KeyCode::Right => spec_pan(vp, spec_pan_step(vp.extent as int), 0),
            KeyCode::W => spec_with_extent(vp, spec_zoom_in_fast(vp.extent as int)),
            KeyCode::S => spec_with_extent(vp, spec_zoom_out(vp.extent as int)),
            KeyCode::R => spec_initial_viewport(),
            KeyCode::RightBracket => spec_with_iterations(
                vp,
                spec_more_iterations(vp.max_iterations as int),
            ),
            KeyCode::LeftBracket => spec_with_iterations(
                vp,
                spec_fewer_iterations(vp.max_iterations as int),
            ),
            KeyCode::Other => vp,
        },
        InputEvent::MouseClick { x, y } => spec_recenter(vp, x as int, y as int, length),
        InputEvent::ScrollDelta(d) => if d > 0 {
            spec_with_extent(vp, spec_zoom_in(vp.extent as int))
        } else if d < 0 {
            spec_with_extent(vp, spec_zoom_out(vp.extent as int))
        } else {
            vp
        },
    }
}

/// Whether the event marks the cached image stale.
pub open spec fn spec_dirty(ev: InputEvent) -> bool {
    match ev {
        InputEvent::Close => false,
        InputEvent::KeyPress(KeyCode::Escape) => false,
        _ => true,
    }
}

/// Whether the event ends the frame loop.
pub open spec fn spec_quit(ev: InputEvent) -> bool {
    match ev {
        InputEvent::Close => true,
        InputEvent::KeyPress(KeyCode::Escape) => true,
        _ => false,
    }
}

/// A well-formed extent shrunk by either zoom-in factor stays well formed.
proof fn lemma_zoom_in_wf(extent: int)
    requires
        1 <= extent <= MAX_EXTENT,
    ensures
        1 <= spec_zoom_in_fast(extent) <= MAX_EXTENT,
        1 <= spec_zoom_in(extent) <= MAX_EXTENT,
{
    lemma_div_is_ordered(2 * extent, 3 * extent, 3);
    lemma_div_multiples_vanish(extent, 3);
    lemma_div_is_ordered(5 * extent, 6 * extent, 6);
    lemma_div_multiples_vanish(extent, 6);
}

/// A well-formed extent grown by the zoom-out factor stays well formed: the
/// cap keeps it at `MAX_EXTENT` at most, and growing never drops below one.
proof fn lemma_zoom_out_wf(extent: int)
    requires
        1 <= extent <= MAX_EXTENT,
    ensures
        1 <= spec_zoom_out(extent) <= MAX_EXTENT,
{
    lemma_div_is_ordered(5 * extent, 6 * extent, 5);
    lemma_div_multiples_vanish(extent, 5);
}

/// Every transition preserves the viewport invariants.  In particular no
/// sequence of zoom-out events drives `extent` above `MAX_EXTENT`, and no
/// sequence of budget decreases drives `max_iterations` below
/// `ITERATION_FLOOR`.
pub proof fn lemma_transition_preserves_wf(vp: Viewport, ev: InputEvent, length: int)
    requires
        vp.wf(),
    ensures
        spec_transition(vp, ev, length).wf(),
{
    match ev {
        InputEvent::KeyPress(code) => match code {
            KeyCode::W => lemma_zoom_in_wf(vp.extent as int),
            KeyCode::S => lemma_zoom_out_wf(vp.extent as int),
            _ => {},
        },
        InputEvent::ScrollDelta(d) => {
            if d > 0 {
                lemma_zoom_in_wf(vp.extent as int);
            } else if d < 0 {
                lemma_zoom_out_wf(vp.extent as int);
            }
        },
        _ => {},
    }
}

/// Resetting restores the initial viewport exactly, whatever state the
/// viewport had reached.
pub proof fn lemma_reset_restores_initial(vp: Viewport, length: int)
    ensures
        spec_transition(vp, InputEvent::KeyPress(KeyCode::R), length) == spec_initial_viewport(),
{
}

/// An origin coordinate saturated at the representable region.
fn clamp_coord(v: i128) -> (r: i64)
    ensures
        r as int == spec_clamp_coord(v as int),
{
    if v > ORIGIN_RANGE as i128 {
        ORIGIN_RANGE
    } else if v < -ORIGIN_RANGE as i128 {
        -ORIGIN_RANGE
    } else {
        v as i64
    }
}

/// The transition rule of the state machine, executably: the viewport after
/// one input event on a `length`-pixel surface.
pub fn transition(viewport: &Viewport, event: &InputEvent, length: u32) -> (next: Viewport)
    requires
        viewport.wf(),
        1 <= length <= MAX_LENGTH,
    ensures
        next == spec_transition(*viewport, *event, length as int),
        next.wf(),
{
    proof {
        lemma_transition_preserves_wf(*viewport, *event, length as int);
    }
    match event {
        InputEvent::Close => *viewport,
        InputEvent::KeyPress(code) => match code {
            KeyCode::Escape => *viewport,
            KeyCode::Up => pan(viewport, 0, 1),
            KeyCode::Down => pan(viewport, 0, -1),
            KeyCode::Left => pan(viewport, -1, 0),
            KeyCode::Right => pan(viewport, 1, 0),
            KeyCode::W => {
                let e: u64 = (viewport.extent as u64) * 2;
                let q: u64 = e / 3;
                let next_extent: i64 = if q < 1 {
                    1
                } else {
                    q as i64
                };
                Viewport {
                    origin: viewport.origin,
                    extent: next_extent,
                    max_iterations: viewport.max_iterations,
                }
            },
            KeyCode::S => zoom_out(viewport),
            KeyCode::R => Viewport::initial(),
            KeyCode::RightBracket => {
                let mi: u32 = viewport.max_iterations;
                let next_mi: u32 = if mi <= u32::MAX - ITERATION_STEP {
                    mi + ITERATION_STEP
                } else {
                    mi
                };
                Viewport {
                    origin: viewport.origin,
                    extent: viewport.extent,
                    max_iterations: next_mi,
                }
            },
            KeyCode::LeftBracket => {
                let mi: u32 = viewport.max_iterations;
                let next_mi: u32 = if mi >= 2 * ITERATION_FLOOR {
                    mi - ITERATION_STEP
                } else {
                    ITERATION_FLOOR
                };
                Viewport {
                    origin: viewport.origin,
                    extent: viewport.extent,
                    max_iterations: next_mi,
                }
            },
            KeyCode::Other => *viewport,
        },
        InputEvent::MouseClick { x, y } => recenter(viewport, *x, *y, length),
        InputEvent::ScrollDelta(d) => {
            if *d > 0 {
                let e: u64 = (viewport.extent as u64) * 5;
                let q: u64 = e / 6;
                let next_extent: i64 = if q < 1 {
                    1
                } else {
                    q as i64
                };
                Viewport {
                    origin: viewport.origin,
                    extent: next_extent,
                    max_iterations: viewport.max_iterations,
                }
            } else if *d < 0 {
                zoom_out(viewport)
            } else {
                *viewport
            }
        },
    }
}

/// One pan move: the origin translated by the pan step along each axis as
/// directed, saturating at the representable region.
fn pan(viewport: &Viewport, dir_re: i64, dir_im: i64) -> (next: Viewport)
    requires
        viewport.wf(),
        -1 <= dir_re <= 1,
        -1 <= dir_im <= 1,
    ensures
        next == spec_pan(
            *viewport,
            dir_re as int * spec_pan_step(viewport.extent as int),
            dir_im as int * spec_pan_step(viewport.extent as int),
        ),
{
    let step: i64 = ((viewport.extent as u64) / (PAN_DIVISOR as u64)) as i64;
    proof {
        lemma_div_tz_magnitude(viewport.extent as int, PAN_DIVISOR as int);
        assert(step as int == spec_pan_step(viewport.extent as int));
        assert(-(step as int) <= dir_re as int * step as int <= step as int) by (nonlinear_arith)
            requires
                -1 <= dir_re as int <= 1,
                0 <= step as int,
        ;
        assert(-(step as int) <= dir_im as int * step as int <= step as int) by (nonlinear_arith)
            requires
                -1 <= dir_im as int <= 1,
                0 <= step as int,
        ;
    }
    let re: i64 = clamp_coord(viewport.origin.re as i128 + (dir_re as i128) * (step as i128));
    let im: i64 = clamp_coord(viewport.origin.im as i128 + (dir_im as i128) * (step as i128));
    Viewport {
        origin: Complex { re, im },
        extent: viewport.extent,
        max_iterations: viewport.max_iterations,
    }
}

/// The zoom-out move shared by the key and the wheel: extent grown by 6/5,
/// capped at `MAX_EXTENT`.
fn zoom_out(viewport: &Viewport) -> (next: Viewport)
    requires
        viewport.wf(),
    ensures
        next == spec_with_extent(*viewport, spec_zoom_out(viewport.extent as int)),
{
    let e: u64 = (viewport.extent as u64) * 6;
    let q: u64 = e / 5;
    let next_extent: i64 = if q > MAX_EXTENT as u64 {
        MAX_EXTENT
    } else {
        q as i64
    };
    Viewport {
        origin: viewport.origin,
        extent: next_extent,
        max_iterations: viewport.max_iterations,
    }
}

/// Recentering on a clicked pixel: the origin moves by `extent * (u + v*i)`
/// where `(u, v)` is the clicked position relative to the surface center.
fn recenter(viewport: &Viewport, x: i32, y: i32, length: u32) -> (next: Viewport)
    requires
        viewport.wf(),
        1 <= length <= MAX_LENGTH,
    ensures
        next == spec_recenter(*viewport, x as int, y as int, length as int),
{
    let s: i128 = FIX_ONE as i128;
    let ux: i128 = div_trunc((x as i128) * s, length as i128) - FIX_HALF as i128;
    let vy: i128 = (FIX_HALF as i128) - div_trunc((y as i128) * s, length as i128);
    proof {
        lemma_div_tz_magnitude((x as i128 * s) as int, length as int);
        lemma_div_tz_magnitude((y as i128 * s) as int, length as int);
        lemma_click_shift_in_range(viewport.extent as int, ux as int);
        lemma_click_shift_in_range(viewport.extent as int, vy as int);
    }
    let dx: i128 = div_trunc((viewport.extent as i128) * ux, s);
    let dy: i128 = div_trunc((viewport.extent as i128) * vy, s);
    let re: i64 = clamp_coord(viewport.origin.re as i128 + dx);
    let im: i64 = clamp_coord(viewport.origin.im as i128 + dy);
    Viewport {
        origin: Complex { re, im },
        extent: viewport.extent,
        max_iterations: viewport.max_iterations,
    }
}

/// The product of an extent and a relative click position stays far inside
/// `i128`, and its fixed-point quotient within ten times the position.
proof fn lemma_click_shift_in_range(extent: int, u: int)
    requires
        1 <= extent <= MAX_EXTENT,
        -9223372039002259456 <= u <= 9223372039002259456,
    ensures
        -(MAX_EXTENT as int) * 9223372039002259456 <= extent * u <= (MAX_EXTENT as int)
            * 9223372039002259456,
        -10 * 9223372039002259456 <= div_tz(extent * u, FIX_ONE as int) <= 10
            * 9223372039002259456,
{
    assert(-(MAX_EXTENT as int) * 9223372039002259456 <= extent * u <= (MAX_EXTENT as int)
        * 9223372039002259456) by (nonlinear_arith)
        requires
            1 <= extent <= MAX_EXTENT,
            -9223372039002259456 <= u <= 9223372039002259456,
    ;
    lemma_div_tz_le(extent * u, FIX_ONE as int, 10int * 9223372039002259456);
}

/// The interaction controller: owns the viewport, folds incoming events into
/// it, and raises the recompute and quit flags for the frame loop.
pub struct Controller {
    pub viewport: Viewport,
    pub length: u32,
    pub dirty: bool,
    pub quit: bool,
}

impl Controller {
    /// The invariants every reachable controller satisfies.
    pub open spec fn wf(self) -> bool {
        &&& self.viewport.wf()
        &&& 1 <= self.length <= MAX_LENGTH
    }

    /// A fresh controller for a `length`-pixel surface: initial viewport,
    /// recompute pending, not quitting.
    pub fn new(length: u32) -> (c: Controller)
        requires
            1 <= length <= MAX_LENGTH,
        ensures
            c.viewport == spec_initial_viewport(),
            c.length == length,
            c.dirty,
            !c.quit,
            c.wf(),
    {
        Controller { viewport: Viewport::initial(), length, dirty: true, quit: false }
    }

    /// Apply one input event: the viewport takes its transition, and the
    /// dirty and quit flags latch according to the event.
    pub fn handle(&mut self, event: &InputEvent)
        requires
            old(self).wf(),
        ensures
            final(self).viewport == spec_transition(
                old(self).viewport,
                *event,
                old(self).length as int,
            ),
            final(self).dirty == (old(self).dirty || spec_dirty(*event)),
            final(self).quit == (old(self).quit || spec_quit(*event)),
            final(self).length == old(self).length,
            final(self).wf(),
    {
        self.viewport = transition(&self.viewport, event, self.length);
        let stale: bool = match event {
            InputEvent::Close => false,
            InputEvent::KeyPress(KeyCode::Escape) => false,
            _ => true,
        };
        let ending: bool = match event {
            InputEvent::Close => true,
            InputEvent::KeyPress(KeyCode::Escape) => true,
            _ => false,
        };
        self.dirty = self.dirty || stale;
        self.quit = self.quit || ending;
    }

    /// Lower the recompute flag, after a full re-render.
    pub fn clear_dirty(&mut self)
        ensures
            final(self).viewport == old(self).viewport,
            final(self).length == old(self).length,
            !final(self).dirty,
            final(self).quit == old(self).quit,
    {
        self.dirty = false;
    }
}

} // verus!
