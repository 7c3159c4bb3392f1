use png_filter::codec::{decode, encode, ContainerFault, DecodeError, DecodedFrame, EncodeError};
use png_filter::raster::{ChannelLayout, Raster};
use png_filter::scalar::ScalarBoxFilter;
use png_filter::vectorized::VectorizedBoxFilter;
use png_filter::window::FilterWindow;

/// An RGB picture of a few overlapping waves.
fn wave(width: u32, height: u32) -> Raster {
    let mut pixels = Vec::new();
    for y in 0..height {
        for x in 0..width {
            let phase = (x * 9 + y * 5) % 64;
            let crest = if phase < 32 { phase * 8 } else { (63 - phase) * 8 };
            pixels.push(crest as u8);
            pixels.push(((x * 255) / width) as u8);
            pixels.push(((y * 255) / height) as u8);
        }
    }
    Raster::new(width, height, ChannelLayout::Rgb8, pixels).unwrap()
}

fn sixteen_bit_png() -> Vec<u8> {
    let mut out = Vec::new();
    let mut encoder = png::Encoder::new(&mut out, 2, 1);
    encoder.set_color(png::ColorType::Rgb);
    encoder.set_depth(png::BitDepth::Sixteen);
    let mut writer = encoder.write_header().unwrap();
    writer.write_image_data(&[0, 1, 0, 2, 0, 3, 0, 4, 0, 5, 0, 6]).unwrap();
    drop(writer);
    out
}

#[test]
fn same_output() {
    let file = encode(&wave(48, 32)).unwrap();
    let image = decode(&file).unwrap();
    let image_simd = decode(&file).unwrap();

    let image = ScalarBoxFilter::apply(&image, FilterWindow::new(1, 1)).unwrap();
    let image_simd = VectorizedBoxFilter::apply(&image_simd, FilterWindow::new(1, 1)).unwrap();

    assert_eq!(image.pixels(), image_simd.pixels());
}

#[test]
fn round_trip_keeps_geometry_layout_and_bytes() {
    let mut n = 0u32;
    for layout in [
        ChannelLayout::Gray8,
        ChannelLayout::GrayAlpha8,
        ChannelLayout::Rgb8,
        ChannelLayout::Rgba8,
    ] {
        let (width, height) = (13, 7);
        let mut pixels = Vec::new();
        for _ in 0..width * height * (layout.channels() as u32) {
            n = n.wrapping_mul(1664525).wrapping_add(1013904223);
            pixels.push((n >> 24) as u8);
        }
        let raster = Raster::new(width, height, layout, pixels.clone()).unwrap();
        let back = decode(&encode(&raster).unwrap()).unwrap();
        assert_eq!(back.width(), width);
        assert_eq!(back.height(), height);
        assert_eq!(back.layout(), layout);
        assert_eq!(back.pixels(), &pixels[..]);
        assert_eq!(back, raster);
    }
}

#[test]
fn encode_writes_a_png_stream() {
    let raster = wave(4, 3);
    let file = encode(&raster).unwrap();
    assert_eq!(&file[..8], &[137u8, 80, 78, 71, 13, 10, 26, 10][..]);
    assert_ne!(&file[..], raster.pixels());
    // The header chunk carries the geometry, 8 bits per sample and colour type 2.
    assert_eq!(&file[12..16], &b"IHDR"[..]);
    assert_eq!(&file[16..26], &[0u8, 0, 0, 4, 0, 0, 0, 3, 8, 2][..]);
    assert_eq!(&file[file.len() - 8..file.len() - 4], &b"IEND"[..]);
}

#[test]
fn encode_is_a_function_of_the_raster() {
    let a = encode(&wave(16, 9)).unwrap();
    let b = encode(&wave(16, 9)).unwrap();
    assert_eq!(a, b);
}

#[test]
fn decode_reads_what_the_encoder_of_the_png_crate_wrote() {
    let mut file = Vec::new();
    let mut encoder = png::Encoder::new(&mut file, 2, 2);
    encoder.set_color(png::ColorType::Rgba);
    encoder.set_depth(png::BitDepth::Eight);
    let mut writer = encoder.write_header().unwrap();
    let data: Vec<u8> = (100..116).collect();
    writer.write_image_data(&data).unwrap();
    drop(writer);
    let raster = decode(&file).unwrap();
    assert_eq!(raster.width(), 2);
    assert_eq!(raster.height(), 2);
    assert_eq!(raster.layout(), ChannelLayout::Rgba8);
    assert_eq!(raster.pixels(), &data[..]);
    assert_ne!(raster.pixels(), &file[..]);
}

#[test]
fn decode_refuses_what_is_no_png() {
    assert_eq!(decode(b"not a png at all"), Err(DecodeError::Container(ContainerFault::Format)));
    assert!(matches!(decode(&[]), Err(DecodeError::Container(_))));
}

#[test]
fn decode_refuses_a_truncated_stream() {
    let file = encode(&wave(32, 32)).unwrap();
    let cut = &file[..file.len() / 2];
    assert_eq!(decode(cut), Err(DecodeError::Container(ContainerFault::Io)));
}

#[test]
fn decode_refuses_an_image_beyond_the_limits() {
    // A header that announces rows of 300 million bytes, then some image data.
    let mut file = Vec::new();
    let mut encoder = png::Encoder::new(&mut file, 100_000_000, 1);
    encoder.set_color(png::ColorType::Rgb);
    let mut writer = encoder.write_header().unwrap();
    writer.write_chunk(png::chunk::IDAT, &[0x78, 0x9c, 0x03, 0x00, 0x00, 0x00, 0x00, 0x01]).unwrap();
    drop(writer);
    assert_eq!(decode(&file), Err(DecodeError::Container(ContainerFault::LimitsExceeded)));
}

#[test]
fn decode_refuses_sixteen_bit_samples() {
    assert_eq!(decode(&sixteen_bit_png()), Err(DecodeError::UnsupportedLayout));
}

#[test]
fn encode_refuses_an_image_without_pixels() {
    let empty = Raster::new(0, 0, ChannelLayout::Rgb8, Vec::new()).unwrap();
    assert_eq!(encode(&empty), Err(EncodeError::Container(ContainerFault::Format)));
    let flat = Raster::new(5, 0, ChannelLayout::Gray8, Vec::new()).unwrap();
    assert!(matches!(encode(&flat), Err(EncodeError::Container(_))));
}

#[test]
fn frame_becomes_a_raster() {
    let frame = DecodedFrame {
        width: 2,
        height: 1,
        color_type: 4,
        bit_depth: 8,
        data: vec![1, 2, 3, 4],
    };
    let raster = frame.into_raster().unwrap();
    assert_eq!(raster, Raster::new(2, 1, ChannelLayout::GrayAlpha8, vec![1, 2, 3, 4]).unwrap());
}

#[test]
fn frame_buffer_beyond_the_frame_is_dropped() {
    let frame = DecodedFrame {
        width: 1,
        height: 2,
        color_type: 2,
        bit_depth: 8,
        data: vec![1, 2, 3, 4, 5, 6, 7, 8, 9],
    };
    let raster = frame.into_raster().unwrap();
    assert_eq!(raster.pixels(), &[1u8, 2, 3, 4, 5, 6][..]);
}

#[test]
fn frame_with_a_short_buffer_is_refused() {
    let frame = DecodedFrame {
        width: 2,
        height: 2,
        color_type: 6,
        bit_depth: 8,
        data: vec![0; 15],
    };
    assert_eq!(frame.into_raster(), Err(DecodeError::FrameTooShort));
}

#[test]
fn frame_in_another_layout_is_refused() {
    for (color_type, bit_depth) in [(3u8, 8u8), (0, 16), (2, 16), (0, 1), (0, 4), (5, 8), (6, 16)] {
        let frame = DecodedFrame { width: 1, height: 1, color_type, bit_depth, data: vec![0; 8] };
        assert_eq!(frame.into_raster(), Err(DecodeError::UnsupportedLayout));
    }
}

#[test]
fn layout_codes_go_both_ways() {
    for layout in [
        ChannelLayout::Gray8,
        ChannelLayout::GrayAlpha8,
        ChannelLayout::Rgb8,
        ChannelLayout::Rgba8,
    ] {
        assert_eq!(ChannelLayout::from_png_codes(layout.png_color_type(), 8), Some(layout));
    }
    assert_eq!(ChannelLayout::Gray8.png_color_type(), 0);
    assert_eq!(ChannelLayout::Rgb8.png_color_type(), 2);
    assert_eq!(ChannelLayout::GrayAlpha8.png_color_type(), 4);
    assert_eq!(ChannelLayout::Rgba8.png_color_type(), 6);
    assert_eq!(ChannelLayout::from_png_codes(3, 8), None);
    assert_eq!(ChannelLayout::from_png_codes(2, 16), None);
}
