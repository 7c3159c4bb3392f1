//! The raster data model: geometry, channel layout and pixel bytes.

use vstd::prelude::*;

verus! {

/// How the bytes of one pixel are arranged. Every channel is one byte wide.
#[derive(Clone, Copy, Debug, PartialEq, Eq, Structural)]
pub enum ChannelLayout {
    /// One luminance byte.
    Gray8,
    /// Luminance, then alpha.
    GrayAlpha8,
    /// Red, green, blue.
    Rgb8,
    /// Red, green, blue, alpha.
    Rgba8,
}

impl ChannelLayout {
    /// Number of bytes that one pixel occupies.
    pub open spec fn channel_count(self) -> nat {
        match self {
            ChannelLayout::Gray8 => 1,
            ChannelLayout::GrayAlpha8 => 2,
            ChannelLayout::Rgb8 => 3,
            ChannelLayout::Rgba8 => 4,
        }
    }

    /// Number of bytes that one pixel occupies.
    pub fn channels(self) -> (n: usize)
        ensures
            n == self.channel_count(),
            1 <= n <= 4,
    {
        match self {
            ChannelLayout::Gray8 => 1,
            ChannelLayout::GrayAlpha8 => 2,
            ChannelLayout::Rgb8 => 3,
            ChannelLayout::Rgba8 => 4,
        }
    }
}

/// The mathematical content of a raster: what contracts speak about.
pub struct RasterModel {
    pub width: nat,
    pub height: nat,
    pub layout: ChannelLayout,
    pub pixels: Seq<u8>,
}

impl RasterModel {
    /// Bytes per pixel.
    pub open spec fn channels(self) -> nat {
        self.layout.channel_count()
    }

    /// Bytes per row.
    pub open spec fn row_stride(self) -> nat {
        self.width * self.channels()
    }

    /// Bytes in the whole image.
    pub open spec fn byte_len(self) -> nat {
        self.width * self.height * self.channels()
    }

    /// The buffer holds exactly one byte per channel of every pixel.
    pub open spec fn wf(self) -> bool {
        self.pixels.len() == self.byte_len()
    }

    /// Whether `(x, y)` names a pixel of the image.
    pub open spec fn contains(self, x: int, y: int) -> bool {
        0 <= x < self.width && 0 <= y < self.height
    }

    /// Position in the buffer of channel `c` of pixel `(x, y)`.
    pub open spec fn sample_index(self, x: int, y: int, c: int) -> int {
        (y * self.width + x) * self.channels() + c
    }

    /// Value of channel `c` of pixel `(x, y)`.
    pub open spec fn sample(self, x: int, y: int, c: int) -> int {
        self.pixels[self.sample_index(x, y, c)] as int
    }
}


/// Every sample of an image lies inside its buffer, and the pixels are laid
/// out one after another without gaps.
pub proof fn lemma_sample_index_bounds(r: RasterModel, x: int, y: int, c: int)
    requires
        r.wf(),
        r.contains(x, y),
        0 <= c < r.channels(),
    ensures
        0 <= y * r.width + x < r.width * r.height,
        0 <= r.sample_index(x, y, c) < r.pixels.len(),
        r.sample_index(x, y, 0) + r.channels() <= r.pixels.len(),
{
    let w = r.width as int;
    let h = r.height as int;
    let ch = r.channels() as int;
    let p = y * w + x;
    assert(0 <= p < w * h) by (nonlinear_arith)
        requires
            0 <= x < w,
            0 <= y < h,
            p == y * w + x,
    ;
    assert(0 <= p * ch && p * ch + ch <= w * h * ch) by (nonlinear_arith)
        requires
            0 <= p < w * h,
            0 < ch,
    ;
}

/// Within a row, pixel `x0 + k` starts `k` pixels after pixel `x0`.
pub proof fn lemma_sample_index_in_row(r: RasterModel, x0: int, y: int, k: int, c: int)
    ensures
        r.sample_index(x0 + k, y, c) == r.sample_index(x0, y, 0) + k * r.channels() + c,
{
    let w = r.width as int;
    let ch = r.channels() as int;
    assert((y * w + (x0 + k)) * ch == (y * w + x0) * ch + k * ch) by (nonlinear_arith);
}

/// A decoded image: geometry, channel layout and the row-major, channel
/// interleaved pixel bytes. The buffer always holds exactly
/// `width * height * channels` bytes.
#[derive(Debug, PartialEq, Eq)]
pub struct Raster {
    width: u32,
    height: u32,
    layout: ChannelLayout,
    pixels: Vec<u8>,
}

impl View for Raster {
    type V = RasterModel;

    closed spec fn view(&self) -> RasterModel {
        RasterModel {
            width: self.width as nat,
            height: self.height as nat,
            layout: self.layout,
            pixels: self.pixels@,
        }
    }
}

impl Raster {
    #[verifier::type_invariant]
    spec fn buffer_matches_geometry(&self) -> bool {
        self@.wf()
    }

    /// Builds a raster from its parts, or `None` when the buffer length is
    /// not `width * height * channels`.
    pub fn new(width: u32, height: u32, layout: ChannelLayout, pixels: Vec<u8>) -> (made: Option<
        Raster,
    >)
        ensures
            match made {
                Some(r) => r@ == (RasterModel {
                    width: width as nat,
                    height: height as nat,
                    layout,
                    pixels: pixels@,
                }) && r@.wf(),
                None => pixels@.len() != width * height * layout.channel_count(),
            },
    {
        let ch = layout.channels();
        assert(width * height <= 0xffff_ffff * 0xffff_ffff) by (nonlinear_arith)
            requires
                width <= 0xffff_ffff,
                height <= 0xffff_ffff,
        ;
        let area: u64 = (width as u64) * (height as u64);
        assert(area * ch <= 0xffff_ffff * 0xffff_ffff * 4) by (nonlinear_arith)
            requires
                0 <= area <= 0xffff_ffff * 0xffff_ffff,
                0 <= ch <= 4,
        ;
        let wanted: u128 = (area as u128) * (ch as u128);
        if pixels.len() as u128 == wanted {
            Some(Raster { width, height, layout, pixels })
        } else {
            None
        }
    }

    /// Builds a raster whose buffer is already known to match its geometry.
    pub(crate) fn assemble(width: u32, height: u32, layout: ChannelLayout, pixels: Vec<u8>) -> (r:
        Raster)
        requires
            pixels@.len() == width * height * layout.channel_count(),
        ensures
            r@ == (RasterModel {
                width: width as nat,
                height: height as nat,
                layout,
                pixels: pixels@,
            }),
            r@.wf(),
    {
        Raster { width, height, layout, pixels }
    }

    /// The geometry of a raster that exists in memory fits in 32 bits.
    pub proof fn lemma_geometry_bounds(&self)
        ensures
            self@.width <= u32::MAX,
            self@.height <= u32::MAX,
    {
    }

    /// Width in pixels.
    pub fn width(&self) -> (w: u32)
        ensures
            w == self@.width,
    {
        self.width
    }

    /// Height in pixels.
    pub fn height(&self) -> (h: u32)
        ensures
            h == self@.height,
    {
        self.height
    }

    /// Channel layout of every pixel.
    pub fn layout(&self) -> (l: ChannelLayout)
        ensures
            l == self@.layout,
    {
        self.layout
    }

    /// Bytes per pixel.
    pub fn channels(&self) -> (n: usize)
        ensures
            n == self@.channels(),
            1 <= n <= 4,
    {
        self.layout.channels()
    }

    /// Bytes per row.
    pub fn row_stride(&self) -> (n: u64)
        ensures
            n == self@.row_stride(),
    {
        let ch = self.layout.channels();
        assert(self.width * ch <= 0xffff_ffff * 4) by (nonlinear_arith)
            requires
                self.width <= 0xffff_ffff,
                0 <= ch <= 4,
        ;
        (self.width as u64) * (ch as u64)
    }

    /// The whole buffer, row by row.
    pub fn pixels(&self) -> (bytes: &[u8])
        ensures
            bytes@ == self@.pixels,
            self@.wf(),
    {
        proof {
            use_type_invariant(self);
        }
        self.pixels.as_slice()
    }

    /// Gives the buffer back.
    pub fn into_pixels(self) -> (bytes: Vec<u8>)
        ensures
            bytes@ == self@.pixels,
            self@.wf(),
    {
        proof {
            use_type_invariant(&self);
        }
        self.pixels
    }

    /// Position in the buffer of the first channel byte of pixel `(x, y)`.
    fn pixel_offset(&self, x: u32, y: u32) -> (offset: usize)
        requires
            self@.contains(x as int, y as int),
        ensures
            offset == self@.sample_index(x as int, y as int, 0),
            offset + self@.channels() <= self@.pixels.len() <= usize::MAX,
            self@.wf(),
    {
        let ch = self.layout.channels();
        proof {
            use_type_invariant(self);
            lemma_sample_index_bounds(self@, x as int, y as int, 0);
            let p = y as int * self@.width + x as int;
            assert(0 <= y as int * self@.width <= p) by (nonlinear_arith)
                requires
                    0 <= y,
                    0 <= self@.width,
                    0 <= x,
                    p == y as int * self@.width + x as int,
            ;
            assert(p <= p * ch <= p * ch + ch) by (nonlinear_arith)
                requires
                    0 <= p,
                    1 <= ch,
            ;
            assert(self@.sample_index(x as int, y as int, 0) == p * ch);
            assert(self.pixels.len() == self@.pixels.len());
        }
        let pixel: usize = (y as usize) * (self.width as usize) + (x as usize);
        pixel * ch
    }

    /// The bytes of the `cols` pixels of row `y` that start at column `x0`.
    pub(crate) fn span(&self, x0: u32, y: u32, cols: u32) -> (bytes: &[u8])
        requires
            1 <= cols,
            x0 + cols <= self@.width,
            y < self@.height,
        ensures
            self@.wf(),
            bytes@.len() == cols * self@.channels(),
            bytes@ == self@.pixels.subrange(
                self@.sample_index(x0 as int, y as int, 0),
                self@.sample_index(x0 as int, y as int, 0) + cols * self@.channels(),
            ),
            self@.sample_index(x0 as int, y as int, 0) + cols * self@.channels()
                <= self@.pixels.len(),
    {
        let ch = self.layout.channels();
        let start = self.pixel_offset(x0, y);
        proof {
            lemma_sample_index_bounds(self@, x0 + cols - 1, y as int, 0);
            lemma_sample_index_in_row(self@, x0 as int, y as int, cols - 1, 0);
            assert((cols - 1) * ch + ch == cols * ch) by (nonlinear_arith);
            assert(0 <= cols * ch) by (nonlinear_arith)
                requires
                    0 <= cols,
                    0 <= ch,
            ;
        }
        let len: usize = (cols as usize) * ch;
        vstd::slice::slice_subrange(self.pixels.as_slice(), start, start + len)
    }

    /// The channel bytes of pixel `(x, y)`, or `None` when the image has no
    /// such pixel.
    pub fn pixel(&self, x: u32, y: u32) -> (found: Option<&[u8]>)
        ensures
            match found {
                Some(bytes) => {
                    &&& self@.contains(x as int, y as int)
                    &&& bytes@.len() == self@.channels()
                    &&& forall|c: int|
                        0 <= c < self@.channels() ==> #[trigger] bytes@[c] as int == self@.sample(
                            x as int,
                            y as int,
                            c,
                        )
                },
                None => !self@.contains(x as int, y as int),
            },
    {
        if x < self.width && y < self.height {
            let start = self.pixel_offset(x, y);
            let ch = self.layout.channels();
            let bytes = vstd::slice::slice_subrange(self.pixels.as_slice(), start, start + ch);
            assert forall|c: int| 0 <= c < ch implies #[trigger] bytes@[c] as int == self@.sample(
                x as int,
                y as int,
                c,
            ) by {
                assert(self@.sample_index(x as int, y as int, c) == start + c);
            }
            Some(bytes)
        } else {
            None
        }
    }
}

impl Clone for Raster {
    fn clone(&self) -> (copy: Raster)
        ensures
            copy@ == self@,
    {
        proof {
            use_type_invariant(self);
        }
        Raster {
            width: self.width,
            height: self.height,
            layout: self.layout,
            pixels: self.pixels.clone(),
        }
    }
}

} // verus!
