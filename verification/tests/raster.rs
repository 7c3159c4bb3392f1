use png_filter::lanes::{Lanes, LANES};
use png_filter::raster::{ChannelLayout, Raster};

#[test]
fn new_checks_the_buffer_length() {
    assert!(Raster::new(2, 2, ChannelLayout::Rgb8, vec![0; 12]).is_some());
    assert!(Raster::new(2, 2, ChannelLayout::Rgb8, vec![0; 11]).is_none());
    assert!(Raster::new(2, 2, ChannelLayout::Rgb8, vec![0; 13]).is_none());
    assert!(Raster::new(2, 2, ChannelLayout::Rgba8, vec![0; 16]).is_some());
    assert!(Raster::new(0, 5, ChannelLayout::Gray8, Vec::new()).is_some());
    assert!(Raster::new(u32::MAX, u32::MAX, ChannelLayout::Rgba8, vec![0; 4]).is_none());
}

#[test]
fn channel_counts() {
    assert_eq!(ChannelLayout::Gray8.channels(), 1);
    assert_eq!(ChannelLayout::GrayAlpha8.channels(), 2);
    assert_eq!(ChannelLayout::Rgb8.channels(), 3);
    assert_eq!(ChannelLayout::Rgba8.channels(), 4);
}

#[test]
fn accessors_give_geometry_and_bytes() {
    let pixels: Vec<u8> = (0..24).collect();
    let r = Raster::new(4, 2, ChannelLayout::Rgb8, pixels.clone()).unwrap();
    assert_eq!(r.width(), 4);
    assert_eq!(r.height(), 2);
    assert_eq!(r.layout(), ChannelLayout::Rgb8);
    assert_eq!(r.channels(), 3);
    assert_eq!(r.row_stride(), 12);
    assert_eq!(r.pixels(), &pixels[..]);
    assert_eq!(r.pixel(0, 0), Some(&[0u8, 1, 2][..]));
    assert_eq!(r.pixel(3, 0), Some(&[9u8, 10, 11][..]));
    assert_eq!(r.pixel(0, 1), Some(&[12u8, 13, 14][..]));
    assert_eq!(r.pixel(3, 1), Some(&[21u8, 22, 23][..]));
    assert_eq!(r.pixel(4, 0), None);
    assert_eq!(r.pixel(0, 2), None);
    assert_eq!(r.pixel(u32::MAX, u32::MAX), None);
    let copy = r.clone();
    assert_eq!(copy, r);
    assert_eq!(r.into_pixels(), pixels);
}

#[test]
fn lanes_work_lane_by_lane() {
    assert_eq!(LANES, 4);
    assert_eq!(Lanes::splat(7).lanes, [7, 7, 7, 7]);
    assert_eq!(Lanes::gather_or_default(&[1, 2, 3]).lanes, [1, 2, 3, 0]);
    assert_eq!(Lanes::gather_or_default(&[9]).lanes, [9, 0, 0, 0]);
    assert_eq!(Lanes::gather_or_default(&[]).lanes, [0, 0, 0, 0]);
    assert_eq!(Lanes::gather_or_default(&[1, 2, 3, 4, 5]).lanes, [1, 2, 3, 4]);
    let a = Lanes { lanes: [10, 20, 30, 0] };
    let b = Lanes { lanes: [1, 2, 3, 4] };
    let sum = a.accumulate(&b);
    assert_eq!(sum.lanes, [11, 22, 33, 4]);
    assert_eq!(sum.divide(3).lanes, [3, 7, 11, 1]);
    assert_eq!(sum.lane(0), 11);
    assert_eq!(sum.lane(3), 4);
}
