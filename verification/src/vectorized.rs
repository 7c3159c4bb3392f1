//! The lane-parallel box filter: all channels of a pixel are accumulated by
//! one vector operation. Lanes beyond the channel count stay inert.

use crate::lanes::{lanes_add, lanes_div, lanes_gather, lanes_zero, Lanes, LANES};
use crate::raster::{
    lemma_sample_index_bounds, lemma_sample_index_in_row, Raster, RasterModel,
};
use crate::window::{
    box_filtered, filtered_byte, lemma_byte_position, lemma_filtered_sample,
    lemma_window_mean_is_byte, out_height, out_width, outcome_view, row_sum, scalar_outcome,
    window_mean, window_sum, FilterError, FilterWindow, WindowPlan,
};
use vstd::arithmetic::div_mod::lemma_fundamental_div_mod_converse;
use vstd::prelude::*;

verus! {

/// The lanes gathered from pixel `(x, y)`: its channel bytes in the first
/// lanes, 0 in the rest.
pub open spec fn pixel_lanes(r: RasterModel, x: int, y: int) -> Seq<int> {
    lanes_gather(
        r.pixels.subrange(r.sample_index(x, y, 0), r.sample_index(x, y, 0) + r.channels()),
    )
}

/// Lane sums over the `cols` pixels of row `y` that start at column `x0`.
pub open spec fn lanes_row_sum(r: RasterModel, x0: int, y: int, cols: nat) -> Seq<int>
    decreases cols,
{
    if cols == 0 {
        lanes_zero()
    } else {
        lanes_add(lanes_row_sum(r, x0, y, (cols - 1) as nat), pixel_lanes(r, x0 + cols - 1, y))
    }
}

/// Lane sums over the block of `cols` by `rows` pixels whose top left
/// corner is `(x0, y0)`.
pub open spec fn lanes_window_sum(r: RasterModel, x0: int, y0: int, cols: nat, rows: nat) -> Seq<
    int,
>
    decreases rows,
{
    if rows == 0 {
        lanes_zero()
    } else {
        lanes_add(
            lanes_window_sum(r, x0, y0, cols, (rows - 1) as nat),
            lanes_row_sum(r, x0, y0 + rows - 1, cols),
        )
    }
}

/// Lane means over the window that belongs to output pixel `(ox, oy)`.
pub open spec fn lanes_window_mean(r: RasterModel, w: FilterWindow, ox: int, oy: int) -> Seq<int> {
    lanes_div(lanes_window_sum(r, ox, oy, w.cols(), w.rows()), w.area() as int)
}

/// Byte `i` of the image that the lane-parallel filter writes: the lane of
/// its channel, narrowed to a byte.
pub open spec fn lane_filtered_byte(r: RasterModel, w: FilterWindow, i: int) -> u8 {
    let ch = r.channels() as int;
    let pixel = i / ch;
    lanes_window_mean(r, w, pixel % out_width(r, w), pixel / out_width(r, w))[i % ch] as u8
}

/// The image that the lane-parallel filter writes. Only the lanes below the
/// channel count are written back.
pub open spec fn lane_filtered(r: RasterModel, w: FilterWindow) -> RasterModel {
    RasterModel {
        width: out_width(r, w) as nat,
        height: out_height(r, w) as nat,
        layout: r.layout,
        pixels: Seq::new(
            (out_width(r, w) * out_height(r, w) * r.channels()) as nat,
            |i: int| lane_filtered_byte(r, w, i),
        ),
    }
}

/// What the lane-parallel filter returns for `r` and `w`.
pub open spec fn vectorized_outcome(r: RasterModel, w: FilterWindow) -> Result<
    RasterModel,
    FilterError,
> {
    if w.fits(r) {
        Ok(lane_filtered(r, w))
    } else {
        Err(FilterError::InvalidParameter)
    }
}

/// Over a row, lane `l` holds the sum of channel `l`, and a lane beyond the
/// channel count holds 0.
pub proof fn lemma_lanes_row_sum(r: RasterModel, x0: int, y: int, cols: nat, l: int)
    requires
        r.wf(),
        0 <= x0,
        x0 + cols <= r.width,
        0 <= y < r.height,
        0 <= l < LANES,
    ensures
        lanes_row_sum(r, x0, y, cols).len() == LANES,
        l < r.channels() ==> lanes_row_sum(r, x0, y, cols)[l] == row_sum(r, x0, y, cols, l),
        l >= r.channels() ==> lanes_row_sum(r, x0, y, cols)[l] == 0,
    decreases cols,
{
    if cols > 0 {
        lemma_lanes_row_sum(r, x0, y, (cols - 1) as nat, l);
        lemma_sample_index_bounds(r, x0 + cols - 1, y, 0);
        if l < r.channels() {
            assert(r.sample_index(x0 + cols - 1, y, l) == r.sample_index(x0 + cols - 1, y, 0) + l);
        }
    }
}

/// Over a window, lane `l` holds the sum of channel `l`, and a lane beyond
/// the channel count holds 0.
pub proof fn lemma_lanes_window_sum(
    r: RasterModel,
    x0: int,
    y0: int,
    cols: nat,
    rows: nat,
    l: int,
)
    requires
        r.wf(),
        0 <= x0,
        x0 + cols <= r.width,
        0 <= y0,
        y0 + rows <= r.height,
        0 <= l < LANES,
    ensures
        lanes_window_sum(r, x0, y0, cols, rows).len() == LANES,
        l < r.channels() ==> lanes_window_sum(r, x0, y0, cols, rows)[l] == window_sum(
            r,
            x0,
            y0,
            cols,
            rows,
            l,
        ),
        l >= r.channels() ==> lanes_window_sum(r, x0, y0, cols, rows)[l] == 0,
    decreases rows,
{
    if rows > 0 {
        lemma_lanes_window_sum(r, x0, y0, cols, (rows - 1) as nat, l);
        lemma_lanes_row_sum(r, x0, y0 + rows - 1, cols, l);
    }
}

/// The lane of a channel holds the mean that the scalar filter computes
/// for that channel.
pub proof fn lemma_lane_mean_is_channel_mean(
    r: RasterModel,
    w: FilterWindow,
    ox: int,
    oy: int,
    c: int,
)
    requires
        r.wf(),
        w.fits(r),
        box_filtered(r, w).contains(ox, oy),
        0 <= c < r.channels(),
    ensures
        lanes_window_mean(r, w, ox, oy)[c] == window_mean(r, w, ox, oy, c),
{
    lemma_lanes_window_sum(r, ox, oy, w.cols(), w.rows(), c);
}

/// Byte by byte, the lane-parallel filter and the scalar filter write
/// the same image.
pub proof fn lemma_lane_filtered_is_box_filtered(r: RasterModel, w: FilterWindow)
    requires
        r.wf(),
        w.fits(r),
    ensures
        lane_filtered(r, w) == box_filtered(r, w),
{
    let ch = r.channels() as int;
    let ow = out_width(r, w);
    let oh = out_height(r, w);
    assert forall|i: int| 0 <= i < ow * oh * ch implies lane_filtered_byte(r, w, i)
        == filtered_byte(r, w, i) by {
        lemma_byte_position(r, w, i);
        let pixel = i / ch;
        lemma_lane_mean_is_channel_mean(r, w, pixel % ow, pixel / ow, i % ch);
    }
    assert(lane_filtered(r, w).pixels =~= box_filtered(r, w).pixels);
}

/// In the image that the lane-parallel filter writes, the byte of channel
/// `c` of pixel `(ox, oy)` is lane `c` of the means over the window of that
/// pixel.
pub proof fn lemma_lane_filtered_sample(r: RasterModel, w: FilterWindow, ox: int, oy: int, c: int)
    requires
        r.wf(),
        w.fits(r),
        box_filtered(r, w).contains(ox, oy),
        0 <= c < r.channels(),
    ensures
        0 <= lanes_window_mean(r, w, ox, oy)[c] <= 255,
        lane_filtered_byte(r, w, box_filtered(r, w).sample_index(ox, oy, c)) == lanes_window_mean(
            r,
            w,
            ox,
            oy,
        )[c],
{
    lemma_lane_mean_is_channel_mean(r, w, ox, oy, c);
    lemma_filtered_sample(r, w, ox, oy, c);
    let i = box_filtered(r, w).sample_index(ox, oy, c);
    lemma_byte_position(r, w, i);
    let ch = r.channels() as int;
    let ow = out_width(r, w);
    lemma_fundamental_div_mod_converse(i, ch, oy * ow + ox, c);
    lemma_fundamental_div_mod_converse(oy * ow + ox, ow, oy, ox);
}

/// The lane-parallel box filter.
pub struct VectorizedBoxFilter;

/// Lane sums over the `cols` pixels of row `y` that start at column `x0`.
fn span_lane_sum(raster: &Raster, x0: u32, y: u32, cols: u32) -> (sum: Lanes)
    requires
        1 <= cols,
        x0 + cols <= raster@.width,
        y < raster@.height,
    ensures
        sum@ == lanes_row_sum(raster@, x0 as int, y as int, cols as nat),
        forall|l: int| 0 <= l < LANES ==> 0 <= #[trigger] sum@[l] <= 255 * cols,
{
    let ch = raster.channels();
    let span = raster.span(x0, y, cols);
    let ghost start = raster@.sample_index(x0 as int, y as int, 0);
    proof {
        lemma_sample_index_bounds(raster@, x0 as int, y as int, 0);
        assert(span.len() == cols * ch);
    }
    let mut acc = Lanes::splat(0);
    let mut k: u32 = 0;
    assert(acc@ =~= lanes_row_sum(raster@, x0 as int, y as int, 0));
    while k < cols
        invariant
            k <= cols <= 0xffff_ffff,
            1 <= ch <= 4,
            ch == raster@.channels(),
            0 <= start,
            start == raster@.sample_index(x0 as int, y as int, 0),
            start + cols * ch <= raster@.pixels.len(),
            span@.len() == cols * ch <= usize::MAX,
            span@ == raster@.pixels.subrange(start, start + cols * ch),
            acc@ == lanes_row_sum(raster@, x0 as int, y as int, k as nat),
            forall|l: int| 0 <= l < LANES ==> 0 <= #[trigger] acc@[l] <= 255 * k,
        decreases cols - k,
    {
        proof {
            assert(0 <= k * ch && k * ch + ch <= cols * ch) by (nonlinear_arith)
                requires
                    0 <= k < cols,
                    0 < ch,
            ;
            lemma_sample_index_in_row(raster@, x0 as int, y as int, k as int, 0);
        }
        let from: usize = (k as usize) * ch;
        let chunk = vstd::slice::slice_subrange(span, from, from + ch);
        let gathered = Lanes::gather_or_default(chunk);
        proof {
            let first = raster@.sample_index(x0 + k, y as int, 0);
            assert(chunk@ =~= raster@.pixels.subrange(first, first + ch));
            assert(gathered@ == pixel_lanes(raster@, x0 + k, y as int));
            assert forall|l: int| 0 <= l < LANES implies #[trigger] acc@[l] + gathered@[l]
                <= u128::MAX by {
                assert(0 <= acc@[l] <= 255 * k);
                assert(0 <= gathered@[l] <= 255);
            }
        }
        let ghost before = acc@;
        acc = acc.accumulate(&gathered);
        k = k + 1;
        proof {
            assert forall|l: int| 0 <= l < LANES implies 0 <= #[trigger] acc@[l] <= 255 * k by {
                assert(0 <= before[l] <= 255 * (k - 1));
                assert(0 <= gathered@[l] <= 255);
            }
        }
    }
    acc
}

/// Lane sums over the block of `cols` by `rows` pixels whose top left
/// corner is `(x0, y0)`.
fn window_lane_sum(raster: &Raster, x0: u32, y0: u32, cols: u32, rows: u32) -> (sum: Lanes)
    requires
        1 <= cols,
        x0 + cols <= raster@.width,
        y0 + rows <= raster@.height,
    ensures
        sum@ == lanes_window_sum(raster@, x0 as int, y0 as int, cols as nat, rows as nat),
{
    proof {
        raster.lemma_geometry_bounds();
    }
    let mut acc = Lanes::splat(0);
    let mut j: u32 = 0;
    assert(acc@ =~= lanes_window_sum(raster@, x0 as int, y0 as int, cols as nat, 0));
    while j < rows
        invariant
            j <= rows,
            1 <= cols,
            raster@.height <= u32::MAX,
            x0 + cols <= raster@.width,
            y0 + rows <= raster@.height,
            acc@ == lanes_window_sum(raster@, x0 as int, y0 as int, cols as nat, j as nat),
            forall|l: int| 0 <= l < LANES ==> 0 <= #[trigger] acc@[l] <= 255 * (cols * j),
        decreases rows - j,
    {
        let row = span_lane_sum(raster, x0, y0 + j, cols);
        proof {
            assert(cols * (j + 1) == cols * j + cols) by (nonlinear_arith);
            assert(cols * (j + 1) <= 0xffff_ffff * 0xffff_ffff) by (nonlinear_arith)
                requires
                    0 <= cols <= 0xffff_ffff,
                    0 <= j + 1 <= 0xffff_ffff,
            ;
            assert forall|l: int| 0 <= l < LANES implies #[trigger] acc@[l] + row@[l]
                <= u128::MAX by {
                assert(0 <= acc@[l] <= 255 * (cols * j));
                assert(0 <= row@[l] <= 255 * cols);
            }
        }
        let ghost before = acc@;
        acc = acc.accumulate(&row);
        j = j + 1;
        proof {
            assert forall|l: int| 0 <= l < LANES implies 0 <= #[trigger] acc@[l] <= 255 * (cols
                * j) by {
                assert(0 <= before[l] <= 255 * (cols * (j - 1)));
                assert(0 <= row@[l] <= 255 * cols);
            }
        }
    }
    acc
}

/// Appends to `out` the channel means of output pixel `(ox, oy)`: the lanes
/// below the channel count, narrowed to bytes. The other lanes are dropped.
fn push_lane_means(raster: &Raster, plan: &WindowPlan, ox: u32, oy: u32, out: &mut Vec<u8>)
    requires
        raster@.wf(),
        plan.describes(raster@),
        ox < plan.out_width,
        oy < plan.out_height,
    ensures
        final(out)@.len() == old(out)@.len() + raster@.channels(),
        forall|i: int| 0 <= i < old(out)@.len() ==> final(out)@[i] == old(out)@[i],
        forall|c: int|
            0 <= c < raster@.channels() ==> #[trigger] final(out)@[old(out)@.len() + c]
                == lanes_window_mean(raster@, plan.window, ox as int, oy as int)[c],
{
    let ch = raster.channels();
    let sum = window_lane_sum(raster, ox, oy, plan.cols, plan.rows);
    proof {
        lemma_window_mean_is_byte(raster@, plan.window, ox as int, oy as int, 0);
    }
    let mean = sum.divide(plan.area as u128);
    let mut c: usize = 0;
    while c < ch
        invariant
            c <= ch <= 4,
            ch == raster@.channels(),
            raster@.wf(),
            plan.describes(raster@),
            ox < plan.out_width,
            oy < plan.out_height,
            mean@ == lanes_window_mean(raster@, plan.window, ox as int, oy as int),
            out@.len() == old(out)@.len() + c,
            forall|i: int| 0 <= i < old(out)@.len() ==> out@[i] == old(out)@[i],
            forall|d: int|
                0 <= d < c ==> #[trigger] out@[old(out)@.len() + d] == mean@[d],
        decreases ch - c,
    {
        proof {
            lemma_lane_mean_is_channel_mean(raster@, plan.window, ox as int, oy as int, c as int);
            lemma_window_mean_is_byte(raster@, plan.window, ox as int, oy as int, c as int);
        }
        let value = mean.lane(c);
        out.push(value as u8);
        c = c + 1;
    }
}

impl VectorizedBoxFilter {
    /// Blurs and crops `raster` as [`crate::scalar::ScalarBoxFilter::apply`]
    /// does, and returns the same image byte for byte. The channels of a
    /// pixel are summed together in the lanes of one accumulator; a lane
    /// without a channel is never written back.
    pub fn apply(raster: &Raster, window: FilterWindow) -> (res: Result<Raster, FilterError>)
        ensures
            outcome_view(res) == vectorized_outcome(raster@, window),
            outcome_view(res) == scalar_outcome(raster@, window),
            res is Ok <==> window.fits(raster@),
            res matches Ok(out) ==> {
                &&& out@ == lane_filtered(raster@, window)
                &&& out@ == box_filtered(raster@, window)
                &&& out@.wf()
                &&& out@.width == raster@.width - 2 * window.nx
                &&& out@.height == raster@.height - 2 * window.ny
                &&& out@.layout == raster@.layout
            },
            res matches Err(e) ==> e == FilterError::InvalidParameter,
    {
        let plan = match window.plan(raster) {
            Ok(plan) => plan,
            Err(e) => {
                return Err(e);
            },
        };
        let ch = raster.channels();
        let mut out: Vec<u8> = Vec::with_capacity(plan.out_len);
        let mut oy: u32 = 0;
        while oy < plan.out_height
            invariant
                oy <= plan.out_height,
                plan.window == window,
                plan.describes(raster@),
                raster@.wf(),
                ch == raster@.channels(),
                out@.len() == oy * plan.out_width * ch,
                forall|i: int|
                    0 <= i < out@.len() ==> out@[i] == lane_filtered_byte(raster@, window, i),
            decreases plan.out_height - oy,
        {
            let mut ox: u32 = 0;
            proof {
                assert((oy * plan.out_width + 0) * ch == oy * plan.out_width * ch);
            }
            while ox < plan.out_width
                invariant
                    ox <= plan.out_width,
                    oy < plan.out_height,
                    plan.window == window,
                    plan.describes(raster@),
                    raster@.wf(),
                    ch == raster@.channels(),
                    out@.len() == (oy * plan.out_width + ox) * ch,
                    forall|i: int|
                        0 <= i < out@.len() ==> out@[i] == lane_filtered_byte(raster@, window, i),
                decreases plan.out_width - ox,
            {
                let ghost before = out@;
                push_lane_means(raster, &plan, ox, oy, &mut out);
                proof {
                    assert((oy * plan.out_width + (ox + 1)) * ch == (oy * plan.out_width + ox) * ch
                        + ch) by (nonlinear_arith);
                    assert forall|i: int| 0 <= i < out@.len() implies out@[i]
                        == lane_filtered_byte(raster@, window, i) by {
                        if i >= before.len() {
                            let c = i - before.len();
                            lemma_lane_filtered_sample(raster@, window, ox as int, oy as int, c);
                            assert(out@[before.len() + c] == lanes_window_mean(
                                raster@,
                                window,
                                ox as int,
                                oy as int,
                            )[c]);
                        }
                    }
                }
                ox = ox + 1;
            }
            proof {
                assert((oy * plan.out_width + plan.out_width) * ch == (oy + 1) * plan.out_width
                    * ch) by (nonlinear_arith);
            }
            oy = oy + 1;
        }
        proof {
            assert(plan.out_height * plan.out_width * ch == plan.out_width * plan.out_height * ch)
                by (nonlinear_arith);
            assert(out@ =~= lane_filtered(raster@, window).pixels);
            lemma_lane_filtered_is_box_filtered(raster@, window);
        }
        Ok(Raster::assemble(plan.out_width, plan.out_height, raster.layout(), out))
    }
}

} // verus!
