//! The pixel buffer and the row renderer.
//!
//! `render_rows` fills a band of rows of a square pixel buffer by composing
//! projection, escape evaluation and color mapping per pixel.  Its contract
//! pins down every cell of the result, so disjoint bands compose to a full
//! frame and a full render is a pure function of the viewport.

use crate::color::{color, spec_black, spec_color, Rgb};
use crate::escape::{calculate, spec_calculate};
use crate::project::{pixel_to_point, spec_point_im, spec_point_re};
use crate::viewport::{Viewport, MAX_LENGTH};
use vstd::arithmetic::div_mod::{
    lemma_div_pos_is_pos, lemma_fundamental_div_mod, lemma_fundamental_div_mod_converse_div,
    lemma_fundamental_div_mod_converse_mod, lemma_mod_division_less_than_divisor,
    lemma_multiply_divide_lt,
};
use vstd::prelude::*;

verus! {

/// The color of pixel `(px, py)` of a `length`-pixel frame under the given
/// viewport: project, evaluate, map.
pub open spec fn spec_pixel(vp: Viewport, px: int, py: int, length: int) -> Rgb {
    spec_color(
        spec_calculate(
            spec_point_re(px, vp, length),
            spec_point_im(py, vp, length),
            vp.max_iterations as nat,
        ),
        vp.max_iterations as nat,
    )
}

/// The fully rendered frame of a viewport: row-major, pixel `(px, py)` at
/// index `py * length + px`.
pub open spec fn spec_frame(vp: Viewport, length: int) -> Seq<Rgb> {
    Seq::new((length * length) as nat, |i: int| spec_pixel(vp, i % length, i / length, length))
}

/// What one render call leaves behind: every cell of a row in
/// `[row_start, row_end)` holds its frame color, every other cell is
/// unchanged from `pre`.
pub open spec fn spec_rendered(
    pre: Seq<Rgb>,
    post: Seq<Rgb>,
    vp: Viewport,
    length: int,
    row_start: int,
    row_end: int,
) -> bool {
    &&& post.len() == pre.len()
    &&& forall|i: int|
        0 <= i < post.len() ==> #[trigger] post[i] == if (row_start <= i / length < row_end) {
            spec_pixel(vp, i % length, i / length, length)
        } else {
            pre[i]
        }
}

/// A square grid of `length * length` RGB cells, row-major.
pub struct PixelBuffer {
    pub data: Vec<Rgb>,
    pub length: u32,
}

impl PixelBuffer {
    /// The invariants every pixel buffer satisfies.
    pub open spec fn wf(self) -> bool {
        &&& self.data.len() == self.length * self.length
        &&& 1 <= self.length <= MAX_LENGTH
    }

    /// A fresh all-black buffer with `length * length` cells.
    pub fn new(length: u32) -> (buffer: PixelBuffer)
        requires
            1 <= length <= MAX_LENGTH,
        ensures
            buffer.wf(),
            buffer.length == length,
            forall|i: int| 0 <= i < buffer.data.len() ==> buffer.data[i] == spec_black(),
    {
        proof {
            assert((length as int) * (length as int) <= 100000000) by (nonlinear_arith)
                requires
                    1 <= length <= MAX_LENGTH,
            ;
        }
        let cells: usize = (length as usize) * (length as usize);
        let mut data: Vec<Rgb> = Vec::new();
        let mut filled: usize = 0;
        while filled < cells
            invariant
                filled <= cells,
                data.len() == filled,
                forall|i: int| 0 <= i < filled ==> data[i] == spec_black(),
            decreases cells - filled,
        {
            data.push(Rgb { r: 0, g: 0, b: 0 });
            filled = filled + 1;
        }
        PixelBuffer { data, length }
    }

    /// The color cell of pixel `(px, py)`.
    pub fn get(&self, px: u32, py: u32) -> (c: Rgb)
        requires
            self.wf(),
            px < self.length,
            py < self.length,
        ensures
            c == self.data[py as int * self.length as int + px as int],
    {
        proof {
            lemma_cell_index_in_range(px as int, py as int, self.length as int);
        }
        let idx: usize = (py as usize) * (self.length as usize) + (px as usize);
        self.data[idx]
    }
}

/// The row-major cell index of an in-range pixel is in range and small.
proof fn lemma_cell_index_in_range(px: int, py: int, length: int)
    by (nonlinear_arith)
    requires
        0 <= px < length,
        0 <= py < length,
        length <= MAX_LENGTH,
    ensures
        0 <= py * length + px < length * length,
        length * length <= 100000000,
{
}

/// The row renderer: fills every pixel of rows `[row_start, row_end)` of
/// the buffer with its frame color under the given viewport, and touches
/// nothing else.
pub fn render_rows(buffer: &mut PixelBuffer, viewport: &Viewport, row_start: u32, row_end: u32)
    requires
        old(buffer).wf(),
        viewport.wf(),
        row_start < row_end,
        row_end <= old(buffer).length,
    ensures
        final(buffer).wf(),
        final(buffer).length == old(buffer).length,
        spec_rendered(
            old(buffer).data@,
            final(buffer).data@,
            *viewport,
            old(buffer).length as int,
            row_start as int,
            row_end as int,
        ),
{
    let length: u32 = buffer.length;
    let ghost pre: Seq<Rgb> = buffer.data@;
    let mut py: u32 = row_start;
    while py < row_end
        invariant
            buffer.wf(),
            buffer.length == length,
            viewport.wf(),
            row_start <= py <= row_end,
            row_end <= length,
            buffer.data@.len() == pre.len(),
            forall|i: int|
                0 <= i < buffer.data@.len() ==> #[trigger] buffer.data@[i] == (if (row_start as int <= i / (length as int) && i / (length as int) < py as int) {
                    spec_pixel(*viewport, i % length as int, i / length as int, length as int)
                } else {
                    pre[i]
                }),
        decreases row_end - py,
    {
        let mut px: u32 = 0;
        while px < length
            invariant
                buffer.wf(),
                buffer.length == length,
                viewport.wf(),
                row_start <= py < row_end,
                row_end <= length,
                px <= length,
                buffer.data@.len() == pre.len(),
                forall|i: int|
                    0 <= i < buffer.data@.len() ==> #[trigger] buffer.data@[i] == (if ((row_start as int <= i / (length as int) && i / (length as int) < py as int)
                        || (i / (length as int) == py as int && i % (length as int) < px as int)) {
                        spec_pixel(*viewport, i % length as int, i / length as int, length as int)
                    } else {
                        pre[i]
                    }),
            decreases length - px,
        {
            let point = pixel_to_point(px, py, viewport, length);
            let n: u32 = calculate(point, viewport.max_iterations);
            let cell: Rgb = color(n, viewport.max_iterations);
            proof {
                lemma_cell_index_in_range(px as int, py as int, length as int);
                lemma_fundamental_div_mod_converse_div(
                    py as int * length as int + px as int,
                    length as int,
                    py as int,
                    px as int,
                );
                lemma_fundamental_div_mod_converse_mod(
                    py as int * length as int + px as int,
                    length as int,
                    py as int,
                    px as int,
                );
                assert(cell == spec_pixel(
                    *viewport,
                    px as int,
                    py as int,
                    length as int,
                ));
            }
            let idx: usize = (py as usize) * (length as usize) + (px as usize);
            let ghost before: Seq<Rgb> = buffer.data@;
            buffer.data[idx] = cell;
            proof {
                assert(buffer.data@ == before.update(idx as int, cell));
                assert forall|i: int| 0 <= i < buffer.data@.len() implies #[trigger] buffer.data@[i]
                    == (if ((row_start as int <= i / (length as int) && i / (length as int) < py as int)
                    || (i / (length as int) == py as int && i % (length as int) < px as int + 1)) {
                    spec_pixel(*viewport, i % length as int, i / length as int, length as int)
                } else {
                    pre[i]
                }) by {
                    lemma_fundamental_div_mod(i, length as int);
                    lemma_mod_division_less_than_divisor(i, length as int);
                    if i == idx as int {
                        assert(i / (length as int) == py as int);
                        assert(i % (length as int) == px as int);
                        assert(buffer.data@[i] == cell);
                    } else {
                        assert(buffer.data@[i] == before[i]);
                        if i / (length as int) == py as int && i % (length as int) == px as int {
                            assert(i == length as int * (i / length as int) + i % (length as int));
                            assert(length as int * (py as int) == py as int * (length as int))
                                by (nonlinear_arith);
                            assert(i == idx as int);
                        }
                    }
                }
            }
            px = px + 1;
        }
        py = py + 1;
    }
}

/// A full render leaves exactly the frame of the viewport, whatever the
/// buffer held before.
pub proof fn lemma_full_render_is_frame(pre: Seq<Rgb>, post: Seq<Rgb>, vp: Viewport, length: int)
    requires
        length >= 1,
        pre.len() == length * length,
        spec_rendered(pre, post, vp, length, 0, length),
    ensures
        post == spec_frame(vp, length),
{
    assert forall|i: int| 0 <= i < post.len() implies post[i] == spec_frame(vp, length)[i] by {
        lemma_div_pos_is_pos(i, length);
        lemma_multiply_divide_lt(i, length, length);
    }
    assert(post =~= spec_frame(vp, length));
}

/// Re-rendering one viewport is reproducible: two full renders, from
/// whatever two buffers they started, leave identical buffers.
pub proof fn lemma_render_deterministic(
    pre1: Seq<Rgb>,
    post1: Seq<Rgb>,
    pre2: Seq<Rgb>,
    post2: Seq<Rgb>,
    vp: Viewport,
    length: int,
)
    requires
        length >= 1,
        pre1.len() == length * length,
        pre2.len() == length * length,
        spec_rendered(pre1, post1, vp, length, 0, length),
        spec_rendered(pre2, post2, vp, length, 0, length),
    ensures
        post1 == post2,
{
    lemma_full_render_is_frame(pre1, post1, vp, length);
    lemma_full_render_is_frame(pre2, post2, vp, length);
}

/// Disjoint contiguous row bands compose: rendering `[r0, r1)` and then
/// `[r1, r2)` leaves exactly what one render of `[r0, r2)` leaves.  Applied
/// band by band, any split of the frame into contiguous row ranges renders
/// the same frame as a single full call.
pub proof fn lemma_render_rows_compose(
    b0: Seq<Rgb>,
    b1: Seq<Rgb>,
    b2: Seq<Rgb>,
    vp: Viewport,
    length: int,
    r0: int,
    r1: int,
    r2: int,
)
    requires
        length >= 1,
        r0 <= r1 <= r2,
        spec_rendered(b0, b1, vp, length, r0, r1),
        spec_rendered(b1, b2, vp, length, r1, r2),
    ensures
        spec_rendered(b0, b2, vp, length, r0, r2),
{
    assert forall|i: int| 0 <= i < b2.len() implies #[trigger] b2[i] == (if (r0 <= i / length < r2) {
        spec_pixel(vp, i % length, i / length, length)
    } else {
        b0[i]
    }) by {
        assert(b1[i] == (if (r0 <= i / length < r1) {
            spec_pixel(vp, i % length, i / length, length)
        } else {
            b0[i]
        }));
    }
}

} // verus!
