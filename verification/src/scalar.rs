//! The scalar box filter: one accumulator per channel, one pass per channel.

use crate::raster::{lemma_sample_index_bounds, lemma_sample_index_in_row, Raster};
use crate::window::{
    box_filtered, filtered_byte, lemma_filtered_sample, lemma_window_mean_is_byte,
    lemma_window_sum_bounds, outcome_view, row_sum, scalar_outcome, window_mean, window_sum,
    FilterError, FilterWindow, WindowPlan,
};
use vstd::prelude::*;

verus! {

/// The scalar box filter. What it returns defines the box filter.
pub struct ScalarBoxFilter;

/// Sum of channel `c` over the `cols` pixels of row `y` that start at
/// column `x0`.
fn span_channel_sum(raster: &Raster, x0: u32, y: u32, cols: u32, c: usize) -> (sum: u64)
    requires
        1 <= cols,
        x0 + cols <= raster@.width,
        y < raster@.height,
        c < raster@.channels(),
    ensures
        sum == row_sum(raster@, x0 as int, y as int, cols as nat, c as int),
{
    let ch = raster.channels();
    let span = raster.span(x0, y, cols);
    let ghost start = raster@.sample_index(x0 as int, y as int, 0);
    proof {
        lemma_sample_index_bounds(raster@, x0 as int, y as int, 0);
        assert(span.len() == cols * ch);
    }
    let mut sum: u64 = 0;
    let mut k: u32 = 0;
    while k < cols
        invariant
            k <= cols,
            c < ch <= 4,
            ch == raster@.channels(),
            0 <= start,
            start == raster@.sample_index(x0 as int, y as int, 0),
            start + cols * ch <= raster@.pixels.len(),
            span@.len() == cols * ch <= usize::MAX,
            span@ == raster@.pixels.subrange(start, start + cols * ch),
            sum == row_sum(raster@, x0 as int, y as int, k as nat, c as int),
            sum <= 255 * k,
        decreases cols - k,
    {
        proof {
            assert(0 <= k * ch && k * ch + ch <= cols * ch) by (nonlinear_arith)
                requires
                    0 <= k < cols,
                    0 < ch,
            ;
            lemma_sample_index_in_row(raster@, x0 as int, y as int, k as int, c as int);
        }
        let i: usize = (k as usize) * ch + c;
        assert(span@[i as int] as int == raster@.sample(x0 + k, y as int, c as int));
        sum = sum + span[i] as u64;
        k = k + 1;
    }
    sum
}

/// Sum of channel `c` over the block of `cols` by `rows` pixels whose top
/// left corner is `(x0, y0)`.
fn channel_window_sum(raster: &Raster, x0: u32, y0: u32, cols: u32, rows: u32, c: usize) -> (sum:
    u128)
    requires
        1 <= cols,
        x0 + cols <= raster@.width,
        y0 + rows <= raster@.height,
        c < raster@.channels(),
    ensures
        sum == window_sum(raster@, x0 as int, y0 as int, cols as nat, rows as nat, c as int),
{
    proof {
        raster.lemma_geometry_bounds();
    }
    let mut sum: u128 = 0;
    let mut j: u32 = 0;
    while j < rows
        invariant
            j <= rows,
            1 <= cols,
            raster@.height <= u32::MAX,
            x0 + cols <= raster@.width,
            y0 + rows <= raster@.height,
            c < raster@.channels(),
            sum == window_sum(raster@, x0 as int, y0 as int, cols as nat, j as nat, c as int),
        decreases rows - j,
    {
        let row = span_channel_sum(raster, x0, y0 + j, cols, c);
        proof {
            lemma_window_sum_bounds(
                raster@,
                x0 as int,
                y0 as int,
                cols as nat,
                (j + 1) as nat,
                c as int,
            );
            assert(cols * (j + 1) <= 0xffff_ffff * 0xffff_ffff) by (nonlinear_arith)
                requires
                    0 <= cols <= 0xffff_ffff,
                    0 <= j + 1 <= 0xffff_ffff,
            ;
        }
        sum = sum + row as u128;
        j = j + 1;
    }
    sum
}

/// Appends to `out` the channel means of output pixel `(ox, oy)`.
fn push_pixel_means(raster: &Raster, plan: &WindowPlan, ox: u32, oy: u32, out: &mut Vec<u8>)
    requires
        plan.describes(raster@),
        ox < plan.out_width,
        oy < plan.out_height,
    ensures
        final(out)@.len() == old(out)@.len() + raster@.channels(),
        forall|i: int| 0 <= i < old(out)@.len() ==> final(out)@[i] == old(out)@[i],
        forall|c: int|
            0 <= c < raster@.channels() ==> #[trigger] final(out)@[old(out)@.len() + c]
                == window_mean(raster@, plan.window, ox as int, oy as int, c),
{
    let ch = raster.channels();
    let mut c: usize = 0;
    while c < ch
        invariant
            c <= ch,
            ch == raster@.channels(),
            plan.describes(raster@),
            ox < plan.out_width,
            oy < plan.out_height,
            out@.len() == old(out)@.len() + c,
            forall|i: int| 0 <= i < old(out)@.len() ==> out@[i] == old(out)@[i],
            forall|d: int|
                0 <= d < c ==> #[trigger] out@[old(out)@.len() + d] == window_mean(
                    raster@,
                    plan.window,
                    ox as int,
                    oy as int,
                    d,
                ),
        decreases ch - c,
    {
        let sum = channel_window_sum(raster, ox, oy, plan.cols, plan.rows, c);
        proof {
            lemma_window_mean_is_byte(raster@, plan.window, ox as int, oy as int, c as int);
        }
        let mean = sum / (plan.area as u128);
        out.push(mean as u8);
        c = c + 1;
    }
}

impl ScalarBoxFilter {
    /// Blurs `raster` with a moving average over `window` and crops the
    /// border that has no full window: the result is smaller by `2 * nx`
    /// columns and `2 * ny` rows, and each of its channel bytes is the
    /// truncated mean of that channel over the window of its pixel. Fails
    /// when the window does not fit into the image.
    pub fn apply(raster: &Raster, window: FilterWindow) -> (res: Result<Raster, FilterError>)
        ensures
            outcome_view(res) == scalar_outcome(raster@, window),
            res is Ok <==> window.fits(raster@),
            res matches Ok(out) ==> {
                &&& out@ == box_filtered(raster@, window)
                &&& out@.wf()
                &&& out@.width == raster@.width - 2 * window.nx
                &&& out@.height == raster@.height - 2 * window.ny
                &&& out@.layout == raster@.layout
            },
            res matches Err(e) ==> e == FilterError::InvalidParameter,
    {
        let plan = match window.plan(raster) {
            Ok(plan) => plan,
            Err(e) => {
                return Err(e);
            },
        };
        let ch = raster.channels();
        let mut out: Vec<u8> = Vec::with_capacity(plan.out_len);
        let mut oy: u32 = 0;
        while oy < plan.out_height
            invariant
                oy <= plan.out_height,
                plan.window == window,
                plan.describes(raster@),
                ch == raster@.channels(),
                out@.len() == oy * plan.out_width * ch,
                forall|i: int| 0 <= i < out@.len() ==> out@[i] == filtered_byte(raster@, window, i),
            decreases plan.out_height - oy,
        {
            let mut ox: u32 = 0;
            proof {
                assert((oy * plan.out_width + 0) * ch == oy * plan.out_width * ch);
            }
            while ox < plan.out_width
                invariant
                    ox <= plan.out_width,
                    oy < plan.out_height,
                    plan.window == window,
                    plan.describes(raster@),
                    ch == raster@.channels(),
                    out@.len() == (oy * plan.out_width + ox) * ch,
                    forall|i: int|
                        0 <= i < out@.len() ==> out@[i] == filtered_byte(raster@, window, i),
                decreases plan.out_width - ox,
            {
                let ghost before = out@;
                push_pixel_means(raster, &plan, ox, oy, &mut out);
                proof {
                    assert((oy * plan.out_width + (ox + 1)) * ch == (oy * plan.out_width + ox) * ch
                        + ch) by (nonlinear_arith);
                    assert forall|i: int| 0 <= i < out@.len() implies out@[i] == filtered_byte(
                        raster@,
                        window,
                        i,
                    ) by {
                        if i >= before.len() {
                            let c = i - before.len();
                            lemma_filtered_sample(raster@, window, ox as int, oy as int, c);
                            assert(out@[before.len() + c] == window_mean(
                                raster@,
                                window,
                                ox as int,
                                oy as int,
                                c,
                            ));
                        }
                    }
                }
                ox = ox + 1;
            }
            proof {
                assert((oy * plan.out_width + plan.out_width) * ch == (oy + 1) * plan.out_width
                    * ch) by (nonlinear_arith);
            }
            oy = oy + 1;
        }
        proof {
            assert(plan.out_height * plan.out_width * ch == plan.out_width * plan.out_height * ch)
                by (nonlinear_arith);
            assert(out@ =~= box_filtered(raster@, window).pixels);
        }
        Ok(Raster::assemble(plan.out_width, plan.out_height, raster.layout(), out))
    }
}

} // verus!
