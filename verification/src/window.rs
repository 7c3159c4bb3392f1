//! The averaging window and the mathematical definition of the box filter.

use crate::raster::{lemma_sample_index_bounds, Raster, RasterModel};
use vstd::arithmetic::div_mod::{
    lemma_div_is_ordered, lemma_div_multiples_vanish, lemma_div_pos_is_pos,
    lemma_fundamental_div_mod, lemma_fundamental_div_mod_converse, lemma_mod_pos_bound,
    lemma_multiply_divide_lt,
};
use vstd::prelude::*;

verus! {

/// Half-extents of the averaging window: the window around a pixel spans
/// `2 * nx + 1` columns and `2 * ny + 1` rows.
#[derive(Clone, Copy, Debug, PartialEq, Eq, Structural)]
pub struct FilterWindow {
    pub nx: u32,
    pub ny: u32,
}

/// Why a filter refused to run.
#[derive(Clone, Copy, Debug, PartialEq, Eq, Structural)]
pub enum FilterError {
    /// The window is at least as wide or as tall as the image, so no pixel
    /// has a full neighbourhood.
    InvalidParameter,
}

impl FilterWindow {
    /// Columns covered by the window.
    pub open spec fn cols(self) -> nat {
        (2 * self.nx + 1) as nat
    }

    /// Rows covered by the window.
    pub open spec fn rows(self) -> nat {
        (2 * self.ny + 1) as nat
    }

    /// Pixels covered by the window.
    pub open spec fn area(self) -> nat {
        self.cols() * self.rows()
    }

    /// Whether at least one pixel of `r` has a full window around it.
    pub open spec fn fits(self, r: RasterModel) -> bool {
        2 * self.nx < r.width && 2 * self.ny < r.height
    }

    /// A window with the given half-extents.
    pub fn new(nx: u32, ny: u32) -> (w: FilterWindow)
        ensures
            w == (FilterWindow { nx, ny }),
    {
        FilterWindow { nx, ny }
    }

    /// Whether at least one pixel of `raster` has a full window around it.
    pub fn fits_in(&self, raster: &Raster) -> (b: bool)
        ensures
            b == self.fits(raster@),
    {
        2 * (self.nx as u64) < raster.width() as u64 && 2 * (self.ny as u64)
            < raster.height() as u64
    }
}

/// The geometry of one filter run, worked out once before any pixel is read.
#[derive(Clone, Copy, Debug, PartialEq, Eq, Structural)]
pub struct WindowPlan {
    /// The window that the plan was made for.
    pub window: FilterWindow,
    /// Width of the filtered image.
    pub out_width: u32,
    /// Height of the filtered image.
    pub out_height: u32,
    /// Columns covered by the window.
    pub cols: u32,
    /// Rows covered by the window.
    pub rows: u32,
    /// Pixels covered by the window: the divisor of every mean.
    pub area: u64,
    /// Bytes in the filtered image.
    pub out_len: usize,
}

impl WindowPlan {
    /// Whether the plan holds the geometry of filtering `r` with its window.
    pub open spec fn describes(self, r: RasterModel) -> bool {
        &&& self.window.fits(r)
        &&& self.out_width == out_width(r, self.window)
        &&& self.out_height == out_height(r, self.window)
        &&& self.cols == self.window.cols()
        &&& self.rows == self.window.rows()
        &&& self.area == self.window.area()
        &&& self.out_len == out_width(r, self.window) * out_height(r, self.window) * r.channels()
    }
}

impl FilterWindow {
    /// Checks the window against the image and works out the geometry of
    /// the filtered image. The check comes first: nothing is subtracted
    /// before the window is known to fit.
    pub fn plan(&self, raster: &Raster) -> (planned: Result<WindowPlan, FilterError>)
        ensures
            match planned {
                Ok(plan) => plan.window == *self && plan.describes(raster@) && raster@.wf(),
                Err(e) => !self.fits(raster@) && e == FilterError::InvalidParameter,
            },
    {
        if !self.fits_in(raster) {
            return Err(FilterError::InvalidParameter);
        }
        let ch = raster.channels();
        let len = raster.pixels().len();
        proof {
            raster.lemma_geometry_bounds();
            lemma_filtered_is_smaller(raster@, *self);
            assert(self.cols() * self.rows() <= 0xffff_ffff * 0xffff_ffff) by (nonlinear_arith)
                requires
                    self.cols() <= 0xffff_ffff,
                    self.rows() <= 0xffff_ffff,
            ;
            let ow = out_width(raster@, *self);
            let oh = out_height(raster@, *self);
            assert(0 <= ow * oh <= ow * oh * ch) by (nonlinear_arith)
                requires
                    0 <= ow,
                    0 <= oh,
                    1 <= ch,
            ;
        }
        let out_width: u32 = raster.width() - 2 * self.nx;
        let out_height: u32 = raster.height() - 2 * self.ny;
        let cols: u32 = 2 * self.nx + 1;
        let rows: u32 = 2 * self.ny + 1;
        let area: u64 = (cols as u64) * (rows as u64);
        let out_pixels: usize = (out_width as usize) * (out_height as usize);
        let out_len: usize = out_pixels * ch;
        Ok(WindowPlan { window: *self, out_width, out_height, cols, rows, area, out_len })
    }
}

/// Sum of channel `c` over the `cols` pixels of row `y` that start at
/// column `x0`.
pub open spec fn row_sum(r: RasterModel, x0: int, y: int, cols: nat, c: int) -> int
    decreases cols,
{
    if cols == 0 {
        0
    } else {
        row_sum(r, x0, y, (cols - 1) as nat, c) + r.sample(x0 + cols - 1, y, c)
    }
}

/// Sum of channel `c` over the block of `cols` by `rows` pixels whose top
/// left corner is `(x0, y0)`.
pub open spec fn window_sum(r: RasterModel, x0: int, y0: int, cols: nat, rows: nat, c: int) -> int
    decreases rows,
{
    if rows == 0 {
        0
    } else {
        window_sum(r, x0, y0, cols, (rows - 1) as nat, c) + row_sum(r, x0, y0 + rows - 1, cols, c)
    }
}

/// Truncated mean of channel `c` over the window that belongs to output
/// pixel `(ox, oy)`. That window is centred on source pixel
/// `(ox + nx, oy + ny)`, so its top left corner is source pixel `(ox, oy)`.
pub open spec fn window_mean(r: RasterModel, w: FilterWindow, ox: int, oy: int, c: int) -> int {
    window_sum(r, ox, oy, w.cols(), w.rows(), c) / (w.area() as int)
}

/// Width of the filtered image.
pub open spec fn out_width(r: RasterModel, w: FilterWindow) -> int {
    r.width - 2 * w.nx
}

/// Height of the filtered image.
pub open spec fn out_height(r: RasterModel, w: FilterWindow) -> int {
    r.height - 2 * w.ny
}

/// Byte `i` of the filtered image.
pub open spec fn filtered_byte(r: RasterModel, w: FilterWindow, i: int) -> u8 {
    let ch = r.channels() as int;
    let pixel = i / ch;
    window_mean(r, w, pixel % out_width(r, w), pixel / out_width(r, w), i % ch) as u8
}

/// The filtered image: cropped by the half-extents on every side, each
/// channel byte the truncated mean over its window.
pub open spec fn box_filtered(r: RasterModel, w: FilterWindow) -> RasterModel {
    RasterModel {
        width: out_width(r, w) as nat,
        height: out_height(r, w) as nat,
        layout: r.layout,
        pixels: Seq::new(
            (out_width(r, w) * out_height(r, w) * r.channels()) as nat,
            |i: int| filtered_byte(r, w, i),
        ),
    }
}

/// What the scalar filter returns for `r` and `w`.
pub open spec fn scalar_outcome(r: RasterModel, w: FilterWindow) -> Result<
    RasterModel,
    FilterError,
> {
    if w.fits(r) {
        Ok(box_filtered(r, w))
    } else {
        Err(FilterError::InvalidParameter)
    }
}

/// The mathematical content of what a filter returned.
pub open spec fn outcome_view(res: Result<Raster, FilterError>) -> Result<
    RasterModel,
    FilterError,
> {
    match res {
        Ok(out) => Ok(out@),
        Err(e) => Err(e),
    }
}

/// A row sum is at most 255 per pixel.
pub proof fn lemma_row_sum_bounds(r: RasterModel, x0: int, y: int, cols: nat, c: int)
    ensures
        0 <= row_sum(r, x0, y, cols, c) <= 255 * cols,
    decreases cols,
{
    if cols > 0 {
        lemma_row_sum_bounds(r, x0, y, (cols - 1) as nat, c);
    }
}

/// A window sum is at most 255 per pixel.
pub proof fn lemma_window_sum_bounds(
    r: RasterModel,
    x0: int,
    y0: int,
    cols: nat,
    rows: nat,
    c: int,
)
    ensures
        0 <= window_sum(r, x0, y0, cols, rows, c) <= 255 * (cols * rows),
    decreases rows,
{
    if rows > 0 {
        lemma_window_sum_bounds(r, x0, y0, cols, (rows - 1) as nat, c);
        lemma_row_sum_bounds(r, x0, y0 + rows - 1, cols, c);
        assert(cols * rows == cols * (rows - 1) + cols) by (nonlinear_arith);
    } else {
        assert(cols * rows == 0) by (nonlinear_arith)
            requires
                rows == 0,
        ;
    }
}

/// A mean over a window is a byte value.
pub proof fn lemma_window_mean_is_byte(r: RasterModel, w: FilterWindow, ox: int, oy: int, c: int)
    ensures
        0 <= window_mean(r, w, ox, oy, c) <= 255,
        w.area() > 0,
{
    let area = w.area() as int;
    let sum = window_sum(r, ox, oy, w.cols(), w.rows(), c);
    assert(area > 0) by (nonlinear_arith)
        requires
            area == w.cols() * w.rows(),
            w.cols() > 0,
            w.rows() > 0,
    ;
    lemma_window_sum_bounds(r, ox, oy, w.cols(), w.rows(), c);
    lemma_div_pos_is_pos(sum, area);
    lemma_div_is_ordered(sum, 255 * area, area);
    assert(255 * area == area * 255) by (nonlinear_arith);
    lemma_div_multiples_vanish(255, area);
}

/// The filtered image is well formed, and the byte of channel `c` of its
/// pixel `(ox, oy)` is the mean over the window of that pixel.
pub proof fn lemma_filtered_sample(r: RasterModel, w: FilterWindow, ox: int, oy: int, c: int)
    requires
        w.fits(r),
        box_filtered(r, w).contains(ox, oy),
        0 <= c < r.channels(),
    ensures
        box_filtered(r, w).wf(),
        0 <= box_filtered(r, w).sample_index(ox, oy, c) < box_filtered(r, w).pixels.len(),
        filtered_byte(r, w, box_filtered(r, w).sample_index(ox, oy, c)) == window_mean(
            r,
            w,
            ox,
            oy,
            c,
        ),
        box_filtered(r, w).sample(ox, oy, c) == window_mean(r, w, ox, oy, c),
{
    let out = box_filtered(r, w);
    let ch = r.channels() as int;
    let ow = out_width(r, w);
    let pixel = oy * ow + ox;
    let i = out.sample_index(ox, oy, c);
    lemma_sample_index_bounds(out, ox, oy, c);
    assert(i == pixel * ch + c);
    lemma_fundamental_div_mod_converse(i, ch, pixel, c);
    lemma_fundamental_div_mod_converse(pixel, ow, oy, ox);
    lemma_window_mean_is_byte(r, w, ox, oy, c);
}

/// The filtered image needs no more bytes than its source.
pub proof fn lemma_filtered_is_smaller(r: RasterModel, w: FilterWindow)
    requires
        r.wf(),
        w.fits(r),
    ensures
        box_filtered(r, w).wf(),
        w.area() <= r.width * r.height,
        out_width(r, w) * out_height(r, w) <= r.width * r.height,
        box_filtered(r, w).pixels.len() <= r.pixels.len(),
{
    let ch = r.channels() as int;
    let ow = out_width(r, w);
    let oh = out_height(r, w);
    let rw = r.width as int;
    let rh = r.height as int;
    assert(ow * oh <= rw * rh) by (nonlinear_arith)
        requires
            0 <= ow <= rw,
            0 <= oh <= rh,
    ;
    assert(ow * oh * ch <= rw * rh * ch) by (nonlinear_arith)
        requires
            ow * oh <= rw * rh,
            0 <= ch,
    ;
    assert(0 <= ow * oh) by (nonlinear_arith)
        requires
            0 <= ow,
            0 <= oh,
    ;
    assert(0 <= ow * oh * ch) by (nonlinear_arith)
        requires
            0 <= ow * oh,
            0 <= ch,
    ;
    let cols = w.cols() as int;
    let rows = w.rows() as int;
    assert(cols * rows <= rw * rh) by (nonlinear_arith)
        requires
            0 <= cols <= rw,
            0 <= rows <= rh,
    ;
}

/// Every byte of the filtered image belongs to one channel of one of its
/// pixels.
pub proof fn lemma_byte_position(r: RasterModel, w: FilterWindow, i: int)
    requires
        w.fits(r),
        0 <= i < out_width(r, w) * out_height(r, w) * r.channels(),
    ensures
        0 <= i % (r.channels() as int) < r.channels(),
        box_filtered(r, w).contains(
            (i / (r.channels() as int)) % out_width(r, w),
            (i / (r.channels() as int)) / out_width(r, w),
        ),
        box_filtered(r, w).sample_index(
            (i / (r.channels() as int)) % out_width(r, w),
            (i / (r.channels() as int)) / out_width(r, w),
            i % (r.channels() as int),
        ) == i,
{
    let ch = r.channels() as int;
    let ow = out_width(r, w);
    let oh = out_height(r, w);
    let pixel = i / ch;
    assert(ow * oh * ch == ch * (ow * oh)) by (nonlinear_arith);
    lemma_multiply_divide_lt(i, ch, ow * oh);
    lemma_mod_pos_bound(i, ch);
    lemma_div_pos_is_pos(i, ch);
    lemma_multiply_divide_lt(pixel, ow, oh);
    lemma_mod_pos_bound(pixel, ow);
    lemma_div_pos_is_pos(pixel, ow);
    lemma_fundamental_div_mod(i, ch);
    lemma_fundamental_div_mod(pixel, ow);
    assert(ow * (pixel / ow) == (pixel / ow) * ow) by (nonlinear_arith);
    assert(ch * pixel == pixel * ch) by (nonlinear_arith);
}

} // verus!
