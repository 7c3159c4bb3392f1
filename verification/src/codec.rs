//! The PNG container: bytes to raster and back. The container format itself
//! is the business of the `png` crate; this module decides which decoded
//! frames are rasters and what is handed to the encoder.

use crate::raster::{ChannelLayout, Raster, RasterModel};
use vstd::prelude::*;

verus! {

/// The side on which a PNG stream was refused, as the `png` crate reports
/// it.
#[derive(Clone, Copy, Debug, PartialEq, Eq, Structural)]
pub enum ContainerFault {
    /// The stream ended early or could not be read or written.
    Io,
    /// The stream is not a valid PNG, or the image cannot be one.
    Format,
    /// A buffer or a call did not match the image.
    Parameter,
    /// The image needs more memory than the codec allows itself.
    LimitsExceeded,
}

/// Why bytes could not be turned into a raster.
#[derive(Clone, Copy, Debug, PartialEq, Eq, Structural)]
pub enum DecodeError {
    /// The PNG decoder refused the stream.
    Container(ContainerFault),
    /// The frame is not 8-bit grayscale, grayscale with alpha, RGB or RGBA.
    UnsupportedLayout,
    /// The frame holds fewer bytes than its geometry asks for.
    FrameTooShort,
}

/// Why a raster could not be turned into bytes.
#[derive(Clone, Copy, Debug, PartialEq, Eq, Structural)]
pub enum EncodeError {
    /// The PNG encoder refused the image.
    Container(ContainerFault),
}

/// One frame as the PNG decoder hands it out, before it is known to be a
/// raster.
#[derive(Debug)]
pub struct DecodedFrame {
    /// Width in pixels.
    pub width: u32,
    /// Height in pixels.
    pub height: u32,
    /// The colour type code of the PNG format: 0 grayscale, 2 RGB,
    /// 3 palette index, 4 grayscale with alpha, 6 RGBA.
    pub color_type: u8,
    /// Bits per sample: 1, 2, 4, 8 or 16.
    pub bit_depth: u8,
    /// The output buffer, which starts with the frame, row by row.
    pub data: Vec<u8>,
}

/// The mathematical content of a decoded frame.
pub struct FrameModel {
    pub width: nat,
    pub height: nat,
    pub color_type: nat,
    pub bit_depth: nat,
    pub data: Seq<u8>,
}

impl View for DecodedFrame {
    type V = FrameModel;

    open spec fn view(&self) -> FrameModel {
        FrameModel {
            width: self.width as nat,
            height: self.height as nat,
            color_type: self.color_type as nat,
            bit_depth: self.bit_depth as nat,
            data: self.data@,
        }
    }
}

/// The channel layout that a PNG colour type code and bit depth stand for,
/// if this library has one for them.
pub open spec fn layout_of_codes(color_type: nat, bit_depth: nat) -> Option<ChannelLayout> {
    if bit_depth != 8 {
        None
    } else if color_type == 0 {
        Some(ChannelLayout::Gray8)
    } else if color_type == 2 {
        Some(ChannelLayout::Rgb8)
    } else if color_type == 4 {
        Some(ChannelLayout::GrayAlpha8)
    } else if color_type == 6 {
        Some(ChannelLayout::Rgba8)
    } else {
        None
    }
}

/// The PNG colour type code that stands for a layout.
pub open spec fn color_type_code(layout: ChannelLayout) -> nat {
    match layout {
        ChannelLayout::Gray8 => 0,
        ChannelLayout::Rgb8 => 2,
        ChannelLayout::GrayAlpha8 => 4,
        ChannelLayout::Rgba8 => 6,
    }
}

/// The frame that stands for a raster: what the encoder is given, and what
/// a decoder has to hand back for the raster to return.
pub open spec fn frame_of_raster(r: RasterModel) -> FrameModel {
    FrameModel {
        width: r.width,
        height: r.height,
        color_type: color_type_code(r.layout),
        bit_depth: 8,
        data: r.pixels,
    }
}

/// The raster that a decoded frame holds: its geometry, the layout that its
/// codes stand for, and the first `width * height * channels` bytes of its
/// buffer.
pub open spec fn raster_of_frame(f: FrameModel) -> Result<RasterModel, DecodeError> {
    match layout_of_codes(f.color_type, f.bit_depth) {
        None => Err(DecodeError::UnsupportedLayout),
        Some(layout) => {
            let needed = f.width * f.height * layout.channel_count();
            if f.data.len() < needed {
                Err(DecodeError::FrameTooShort)
            } else {
                Ok(
                    RasterModel {
                        width: f.width,
                        height: f.height,
                        layout,
                        pixels: f.data.subrange(0, needed as int),
                    },
                )
            }
        },
    }
}

/// The mathematical content of what a decoder returned.
pub open spec fn decoded_view(res: Result<Raster, DecodeError>) -> Result<
    RasterModel,
    DecodeError,
> {
    match res {
        Ok(raster) => Ok(raster@),
        Err(e) => Err(e),
    }
}

impl ChannelLayout {
    /// The layout that a PNG colour type code and bit depth stand for.
    pub fn from_png_codes(color_type: u8, bit_depth: u8) -> (found: Option<ChannelLayout>)
        ensures
            found == layout_of_codes(color_type as nat, bit_depth as nat),
    {
        if bit_depth != 8 {
            None
        } else if color_type == 0 {
            Some(ChannelLayout::Gray8)
        } else if color_type == 2 {
            Some(ChannelLayout::Rgb8)
        } else if color_type == 4 {
            Some(ChannelLayout::GrayAlpha8)
        } else if color_type == 6 {
            Some(ChannelLayout::Rgba8)
        } else {
            None
        }
    }

    /// The PNG colour type code of the layout. Its bit depth is always 8.
    pub fn png_color_type(self) -> (code: u8)
        ensures
            code == color_type_code(self),
            layout_of_codes(code as nat, 8) == Some(self),
    {
        match self {
            ChannelLayout::Gray8 => 0,
            ChannelLayout::Rgb8 => 2,
            ChannelLayout::GrayAlpha8 => 4,
            ChannelLayout::Rgba8 => 6,
        }
    }
}

impl DecodedFrame {
    /// Turns the frame into a raster. The frame must be 8 bits per sample in
    /// one of the four layouts, and its buffer must hold at least
    /// `width * height * channels` bytes; what the buffer holds beyond them
    /// is dropped.
    pub fn into_raster(self) -> (res: Result<Raster, DecodeError>)
        ensures
            decoded_view(res) == raster_of_frame(self@),
            res matches Ok(raster) ==> raster@.wf(),
    {
        let layout = match ChannelLayout::from_png_codes(self.color_type, self.bit_depth) {
            Some(layout) => layout,
            None => {
                return Err(DecodeError::UnsupportedLayout);
            },
        };
        let ch = layout.channels();
        assert(self.width * self.height <= 0xffff_ffff * 0xffff_ffff) by (nonlinear_arith)
            requires
                self.width <= 0xffff_ffff,
                self.height <= 0xffff_ffff,
        ;
        let area: u64 = (self.width as u64) * (self.height as u64);
        assert(area * ch <= 0xffff_ffff * 0xffff_ffff * 4) by (nonlinear_arith)
            requires
                0 <= area <= 0xffff_ffff * 0xffff_ffff,
                0 <= ch <= 4,
        ;
        let needed: u128 = (area as u128) * (ch as u128);
        let mut data = self.data;
        if (data.len() as u128) < needed {
            return Err(DecodeError::FrameTooShort);
        }
        data.truncate(needed as usize);
        Ok(Raster::assemble(self.width, self.height, layout, data))
    }
}

/// `png::DecodingError`, carried from the decoder to [`decoding_fault`]
/// without a look inside.
#[verifier::external_type_specification]
#[verifier::external_body]
pub struct ExDecodingError(png::DecodingError);

/// `png::EncodingError`, carried from the encoder to [`encoding_fault`]
/// without a look inside.
#[verifier::external_type_specification]
#[verifier::external_body]
pub struct ExEncodingError(png::EncodingError);

/// The first frame that the `png` crate decodes from a byte stream with its
/// default options, or `None` where it reports an error.
pub uninterp spec fn png_first_frame(bytes: Seq<u8>) -> Option<FrameModel>;

/// The byte stream that the `png` crate writes with its default options
/// for an image of 8 bits per sample, given its geometry, its colour type
/// code and its bytes, or `None` where it reports an error.
pub uninterp spec fn png_stream(width: u32, height: u32, color_type: u8, data: Seq<u8>) -> Option<
    Seq<u8>,
>;

/// Runs the `png` decoder on `bytes`: `png::Decoder::new` and `read_info`,
/// a buffer of `png::Reader::output_buffer_size` bytes, and
/// `png::Reader::next_frame` into it. Believed, not proved: the outcome
/// depends on `bytes` alone, so it is `png_first_frame(bytes)`. Nothing is
/// claimed about what the frame holds.
#[verifier::external_body]
fn png_read_frame(bytes: &[u8]) -> (res: Result<DecodedFrame, png::DecodingError>)
    ensures
        res matches Ok(frame) ==> png_first_frame(bytes@) == Some(frame@),
        res is Err ==> png_first_frame(bytes@) is None,
{
    let mut reader = png::Decoder::new(bytes).read_info()?;
    let mut data = vec![0u8; reader.output_buffer_size()];
    let info = reader.next_frame(&mut data)?;
    Ok(
        DecodedFrame {
            width: info.width,
            height: info.height,
            color_type: info.color_type as u8,
            bit_depth: info.bit_depth as u8,
            data,
        },
    )
}

/// Tells the variants of `png::DecodingError` apart. Nothing is claimed
/// about which one comes.
#[verifier::external_body]
fn decoding_fault(error: &png::DecodingError) -> (fault: ContainerFault) {
    match error {
        png::DecodingError::IoError(_) => ContainerFault::Io,
        png::DecodingError::Format(_) => ContainerFault::Format,
        png::DecodingError::Parameter(_) => ContainerFault::Parameter,
        png::DecodingError::LimitsExceeded => ContainerFault::LimitsExceeded,
    }
}

/// Runs the `png` encoder into a fresh buffer: `png::Encoder::new`,
/// `set_color` with `png::ColorType::from_u8` of the code, `write_header`
/// and `png::Writer::write_image_data`; the writer is dropped at once, which
/// ends the stream. The bit depth stays at the encoder's default of 8.
/// Believed, not proved: the outcome depends on the arguments alone, so it
/// is `png_stream` of them; and, as `write_header` checks, an image without
/// pixels is refused. Asked of the caller: a code that `from_u8` knows, and
/// a buffer of the length that the encoder works out from the geometry, so
/// that its own arithmetic stays within `usize`.
#[verifier::external_body]
fn png_write_frame(width: u32, height: u32, color_type: u8, data: &[u8]) -> (res: Result<
    Vec<u8>,
    png::EncodingError,
>)
    requires
        layout_of_codes(color_type as nat, 8) matches Some(layout) && data@.len() == width * height
            * layout.channel_count(),
    ensures
        res matches Ok(bytes) ==> png_stream(width, height, color_type, data@) == Some(bytes@),
        res is Err ==> png_stream(width, height, color_type, data@) is None,
        width == 0 || height == 0 ==> res is Err,
{
    let mut out = Vec::new();
    let mut encoder = png::Encoder::new(&mut out, width, height);
    encoder.set_color(png::ColorType::from_u8(color_type).unwrap());
    encoder.write_header()?.write_image_data(data)?;
    Ok(out)
}

/// Tells the variants of `png::EncodingError` apart. Nothing is claimed
/// about which one comes.
#[verifier::external_body]
fn encoding_fault(error: &png::EncodingError) -> (fault: ContainerFault) {
    match error {
        png::EncodingError::IoError(_) => ContainerFault::Io,
        png::EncodingError::Format(_) => ContainerFault::Format,
        png::EncodingError::Parameter(_) => ContainerFault::Parameter,
        png::EncodingError::LimitsExceeded => ContainerFault::LimitsExceeded,
    }
}

/// Decodes the first frame of a PNG stream into a raster. The stream is
/// refused where the decoder refuses it; a decoded frame becomes a raster
/// exactly as [`DecodedFrame::into_raster`] says.
pub fn decode(bytes: &[u8]) -> (res: Result<Raster, DecodeError>)
    ensures
        match png_first_frame(bytes@) {
            Some(frame) => decoded_view(res) == raster_of_frame(frame),
            None => res matches Err(DecodeError::Container(_)),
        },
        res matches Ok(raster) ==> raster@.wf(),
{
    match png_read_frame(bytes) {
        Ok(frame) => frame.into_raster(),
        Err(error) => Err(DecodeError::Container(decoding_fault(&error))),
    }
}

/// Encodes a raster as a PNG stream with its own geometry and layout, 8 bits
/// per sample. An image without pixels has no PNG stream.
pub fn encode(raster: &Raster) -> (res: Result<Vec<u8>, EncodeError>)
    ensures
        match png_stream(
            frame_of_raster(raster@).width as u32,
            frame_of_raster(raster@).height as u32,
            frame_of_raster(raster@).color_type as u8,
            frame_of_raster(raster@).data,
        ) {
            Some(stream) => res matches Ok(bytes) && bytes@ == stream,
            None => res matches Err(EncodeError::Container(_)),
        },
        raster@.width == 0 || raster@.height == 0 ==> res is Err,
{
    let color_type = raster.layout().png_color_type();
    match png_write_frame(raster.width(), raster.height(), color_type, raster.pixels()) {
        Ok(bytes) => Ok(bytes),
        Err(error) => Err(EncodeError::Container(encoding_fault(&error))),
    }
}

/// A frame that carries the geometry, the layout codes and the bytes of a
/// raster turns back into that raster: nothing is lost between a raster and
/// its frame.
pub proof fn lemma_frame_of_raster_round_trips(r: RasterModel)
    requires
        r.wf(),
    ensures
        raster_of_frame(frame_of_raster(r)) == Ok::<RasterModel, DecodeError>(r),
{
    assert(r.pixels.subrange(0, r.pixels.len() as int) =~= r.pixels);
}

} // verus!
