//! What holds of the box filters on every image.

use crate::raster::RasterModel;
use crate::vectorized::{lane_filtered, lemma_lane_filtered_is_box_filtered, vectorized_outcome};
use crate::window::{
    box_filtered, lemma_byte_position, lemma_filtered_sample, out_width, row_sum,
    scalar_outcome, window_mean, window_sum, FilterError, FilterWindow,
};
use vstd::arithmetic::div_mod::lemma_div_multiples_vanish;
use vstd::prelude::*;

verus! {

/// The two filters are interchangeable: on every image and every window
/// they either both refuse, or both return the same image byte for byte.
pub proof fn lemma_filters_agree(r: RasterModel, w: FilterWindow)
    requires
        r.wf(),
    ensures
        vectorized_outcome(r, w) == scalar_outcome(r, w),
{
    if w.fits(r) {
        lemma_lane_filtered_is_box_filtered(r, w);
    }
}

/// A filtered image is smaller than its source by twice the half-extents,
/// keeps the channel layout, and is well formed.
pub proof fn lemma_filtered_geometry(r: RasterModel, w: FilterWindow)
    requires
        r.wf(),
        w.fits(r),
    ensures
        scalar_outcome(r, w) is Ok,
        box_filtered(r, w).width == r.width - 2 * w.nx,
        box_filtered(r, w).height == r.height - 2 * w.ny,
        box_filtered(r, w).layout == r.layout,
        box_filtered(r, w).wf(),
        box_filtered(r, w).width >= 1,
        box_filtered(r, w).height >= 1,
{
}

/// A window that is too wide or too tall is refused, whatever the image
/// holds.
pub proof fn lemma_oversized_window_is_refused(r: RasterModel, w: FilterWindow)
    requires
        2 * w.nx >= r.width || 2 * w.ny >= r.height,
    ensures
        scalar_outcome(r, w) == Err::<RasterModel, FilterError>(FilterError::InvalidParameter),
        vectorized_outcome(r, w) == Err::<RasterModel, FilterError>(FilterError::InvalidParameter),
{
}

/// With half-extents of zero every pixel is its own window, so an image
/// that has at least one pixel comes back unchanged.
pub proof fn lemma_identity_window(r: RasterModel)
    requires
        r.wf(),
        r.width > 0,
        r.height > 0,
    ensures
        box_filtered(r, FilterWindow { nx: 0, ny: 0 }) == r,
        scalar_outcome(r, FilterWindow { nx: 0, ny: 0 }) == Ok::<RasterModel, FilterError>(r),
        vectorized_outcome(r, FilterWindow { nx: 0, ny: 0 }) == Ok::<RasterModel, FilterError>(r),
{
    let w = FilterWindow { nx: 0, ny: 0 };
    lemma_filters_agree(r, w);
    let out = box_filtered(r, w);
    let ch = r.channels() as int;
    assert(out.pixels.len() == r.pixels.len());
    assert forall|i: int| 0 <= i < r.pixels.len() implies out.pixels[i] == r.pixels[i] by {
        lemma_byte_position(r, w, i);
        let pixel = i / ch;
        let x = pixel % out_width(r, w);
        let y = pixel / out_width(r, w);
        let c = i % ch;
        assert(window_sum(r, x, y, 1, 1, c) == r.sample(x, y, c)) by {
            reveal_with_fuel(window_sum, 2);
            reveal_with_fuel(row_sum, 2);
        }
        assert(w.area() == 1) by (nonlinear_arith)
            requires
                w.area() == w.cols() * w.rows(),
                w.cols() == 1,
                w.rows() == 1,
        ;
        assert(window_mean(r, w, x, y, c) == r.sample(x, y, c));
        assert(r.sample_index(x, y, c) == out.sample_index(x, y, c));
    }
    assert(out.pixels =~= r.pixels);
}

/// Whether every pixel of `r` holds the channel values `v`.
pub open spec fn is_filled_with(r: RasterModel, v: Seq<u8>) -> bool {
    &&& v.len() == r.channels()
    &&& forall|x: int, y: int, c: int|
        r.contains(x, y) && 0 <= c < r.channels() ==> #[trigger] r.sample(x, y, c) == v[c]
}

/// Over pixels that all hold `v`, a row sum is `v` times the pixel count.
proof fn lemma_uniform_row_sum(r: RasterModel, v: Seq<u8>, x0: int, y: int, cols: nat, c: int)
    requires
        is_filled_with(r, v),
        0 <= x0,
        x0 + cols <= r.width,
        0 <= y < r.height,
        0 <= c < r.channels(),
    ensures
        row_sum(r, x0, y, cols, c) == cols * v[c],
    decreases cols,
{
    if cols > 0 {
        lemma_uniform_row_sum(r, v, x0, y, (cols - 1) as nat, c);
        assert(r.contains(x0 + cols - 1, y));
        assert(r.sample(x0 + cols - 1, y, c) == v[c]);
        assert(cols * v[c] == (cols - 1) * v[c] + v[c]) by (nonlinear_arith);
    } else {
        assert(cols * v[c] == 0) by (nonlinear_arith)
            requires
                cols == 0,
        ;
    }
}

/// Over pixels that all hold `v`, a window sum is `v` times the pixel
/// count.
proof fn lemma_uniform_window_sum(
    r: RasterModel,
    v: Seq<u8>,
    x0: int,
    y0: int,
    cols: nat,
    rows: nat,
    c: int,
)
    requires
        is_filled_with(r, v),
        0 <= x0,
        x0 + cols <= r.width,
        0 <= y0,
        y0 + rows <= r.height,
        0 <= c < r.channels(),
    ensures
        window_sum(r, x0, y0, cols, rows, c) == (cols * rows) * v[c],
    decreases rows,
{
    if rows > 0 {
        lemma_uniform_window_sum(r, v, x0, y0, cols, (rows - 1) as nat, c);
        lemma_uniform_row_sum(r, v, x0, y0 + rows - 1, cols, c);
        assert((cols * rows) * v[c] == (cols * (rows - 1)) * v[c] + cols * v[c])
            by (nonlinear_arith);
    } else {
        assert((cols * rows) * v[c] == 0) by (nonlinear_arith)
            requires
                rows == 0,
        ;
    }
}

/// Blurring an image of one colour gives an image of that colour: the
/// mean of equal values is that value.
pub proof fn lemma_uniform_image_is_invariant(r: RasterModel, w: FilterWindow, v: Seq<u8>)
    requires
        r.wf(),
        w.fits(r),
        is_filled_with(r, v),
    ensures
        is_filled_with(box_filtered(r, w), v),
        is_filled_with(lane_filtered(r, w), v),
        forall|i: int|
            0 <= i < box_filtered(r, w).pixels.len() ==> #[trigger] box_filtered(r, w).pixels[i]
                == v[i % (r.channels() as int)],
{
    lemma_lane_filtered_is_box_filtered(r, w);
    let out = box_filtered(r, w);
    let area = w.area() as int;
    assert(area > 0) by (nonlinear_arith)
        requires
            area == w.cols() * w.rows(),
            w.cols() > 0,
            w.rows() > 0,
    ;
    assert forall|ox: int, oy: int, c: int|
        out.contains(ox, oy) && 0 <= c < out.channels() implies #[trigger] out.sample(ox, oy, c)
        == v[c] by {
        lemma_filtered_sample(r, w, ox, oy, c);
        lemma_uniform_window_sum(r, v, ox, oy, w.cols(), w.rows(), c);
        lemma_div_multiples_vanish(v[c] as int, area);
    }
    assert forall|i: int| 0 <= i < out.pixels.len() implies #[trigger] out.pixels[i] == v[i % (
    r.channels() as int)] by {
        lemma_byte_position(r, w, i);
        let ch = r.channels() as int;
        let pixel = i / ch;
        let x = pixel % out_width(r, w);
        let y = pixel / out_width(r, w);
        assert(out.sample(x, y, i % ch) == v[i % ch]);
    }
}

} // verus!
