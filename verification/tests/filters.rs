use png_filter::raster::{ChannelLayout, Raster};
use png_filter::scalar::ScalarBoxFilter;
use png_filter::vectorized::VectorizedBoxFilter;
use png_filter::window::{FilterError, FilterWindow, WindowPlan};

fn gradient(width: u32, height: u32, layout: ChannelLayout) -> Raster {
    let ch = layout.channels();
    let mut pixels = Vec::new();
    for y in 0..height {
        for x in 0..width {
            for c in 0..ch {
                let v = (x * 7 + y * 13 + (c as u32) * 31 + x * y) % 256;
                pixels.push(v as u8);
            }
        }
    }
    Raster::new(width, height, layout, pixels).unwrap()
}

fn rows_times_ten() -> Raster {
    let mut pixels = Vec::new();
    for y in 0..5u8 {
        for _x in 0..5 {
            for _c in 0..3 {
                pixels.push(y * 10);
            }
        }
    }
    Raster::new(5, 5, ChannelLayout::Rgb8, pixels).unwrap()
}

/// The mean written out by hand, straight from the definition.
fn mean_by_hand(r: &Raster, nx: u32, ny: u32, ox: u32, oy: u32, c: usize) -> u8 {
    let ch = r.channels();
    let mut sum: u64 = 0;
    for y in oy..=oy + 2 * ny {
        for x in ox..=ox + 2 * nx {
            let i = ((y as usize) * (r.width() as usize) + x as usize) * ch + c;
            sum += r.pixels()[i] as u64;
        }
    }
    (sum / ((2 * nx as u64 + 1) * (2 * ny as u64 + 1))) as u8
}

#[test]
fn five_by_five_rows_times_ten() {
    let r = rows_times_ten();
    let out = ScalarBoxFilter::apply(&r, FilterWindow::new(1, 1)).unwrap();
    assert_eq!(out.width(), 3);
    assert_eq!(out.height(), 3);
    assert_eq!(out.layout(), ChannelLayout::Rgb8);
    // Rows 0, 10, 20 average to 10; rows 10, 20, 30 to 20; rows 20, 30, 40 to 30.
    let expected: Vec<u8> = vec![
        10, 10, 10, 10, 10, 10, 10, 10, 10, 20, 20, 20, 20, 20, 20, 20, 20, 20, 30, 30, 30, 30,
        30, 30, 30, 30, 30,
    ];
    assert_eq!(out.pixels(), &expected[..]);
    assert_eq!(out.pixel(1, 1), Some(&[20u8, 20, 20][..]));
    let lanes = VectorizedBoxFilter::apply(&r, FilterWindow::new(1, 1)).unwrap();
    assert_eq!(lanes.pixels(), &expected[..]);
}

#[test]
fn mean_truncates() {
    // 1 + 2 + 2 = 5, and 5 / 3 is 1; 255 + 255 + 254 = 764, and 764 / 3 is 254.
    let r = Raster::new(3, 1, ChannelLayout::GrayAlpha8, vec![1, 255, 2, 255, 2, 254]).unwrap();
    let w = FilterWindow::new(1, 0);
    let out = ScalarBoxFilter::apply(&r, w).unwrap();
    assert_eq!(out.width(), 1);
    assert_eq!(out.height(), 1);
    assert_eq!(out.pixels(), &[1u8, 254][..]);
    let lanes = VectorizedBoxFilter::apply(&r, w).unwrap();
    assert_eq!(lanes.pixels(), &[1u8, 254][..]);
}

#[test]
fn window_is_not_square() {
    // 4 columns and 3 rows of gray; the window is 3 wide and 1 tall.
    let r = Raster::new(
        4,
        3,
        ChannelLayout::Gray8,
        vec![0, 3, 6, 9, 10, 20, 30, 40, 255, 255, 255, 0],
    )
    .unwrap();
    let out = ScalarBoxFilter::apply(&r, FilterWindow::new(1, 0)).unwrap();
    assert_eq!(out.width(), 2);
    assert_eq!(out.height(), 3);
    assert_eq!(out.pixels(), &[3u8, 6, 20, 30, 255, 170][..]);
    // 1 wide and 3 tall.
    let out = VectorizedBoxFilter::apply(&r, FilterWindow::new(0, 1)).unwrap();
    assert_eq!(out.width(), 4);
    assert_eq!(out.height(), 1);
    assert_eq!(out.pixels(), &[88u8, 92, 97, 16][..]);
}

#[test]
fn filters_agree_on_every_layout() {
    let layouts = [
        ChannelLayout::Gray8,
        ChannelLayout::GrayAlpha8,
        ChannelLayout::Rgb8,
        ChannelLayout::Rgba8,
    ];
    for layout in layouts {
        let r = gradient(9, 7, layout);
        for (nx, ny) in [(0, 0), (1, 1), (2, 1), (0, 3), (4, 3), (4, 0)] {
            let w = FilterWindow::new(nx, ny);
            let a = ScalarBoxFilter::apply(&r, w).unwrap();
            let b = VectorizedBoxFilter::apply(&r, w).unwrap();
            assert_eq!(a, b);
            assert_eq!(a.pixels(), b.pixels());
        }
    }
}

#[test]
fn filters_match_the_definition() {
    let r = gradient(8, 6, ChannelLayout::Rgba8);
    let (nx, ny) = (2, 1);
    let out = VectorizedBoxFilter::apply(&r, FilterWindow::new(nx, ny)).unwrap();
    assert_eq!(out.width(), 4);
    assert_eq!(out.height(), 4);
    for oy in 0..out.height() {
        for ox in 0..out.width() {
            let got = out.pixel(ox, oy).unwrap();
            for c in 0..4 {
                assert_eq!(got[c], mean_by_hand(&r, nx, ny, ox, oy, c));
            }
        }
    }
}

#[test]
fn geometry_shrinks_by_twice_the_half_extents() {
    let r = gradient(11, 9, ChannelLayout::Rgb8);
    for (nx, ny) in [(0u32, 0u32), (1, 0), (0, 1), (3, 2), (5, 4)] {
        let w = FilterWindow::new(nx, ny);
        for out in [
            ScalarBoxFilter::apply(&r, w).unwrap(),
            VectorizedBoxFilter::apply(&r, w).unwrap(),
        ] {
            assert_eq!(out.width(), 11 - 2 * nx);
            assert_eq!(out.height(), 9 - 2 * ny);
            assert_eq!(out.layout(), ChannelLayout::Rgb8);
            assert_eq!(out.pixels().len() as u32, (11 - 2 * nx) * (9 - 2 * ny) * 3);
        }
    }
}

#[test]
fn identity_window_returns_the_input() {
    for layout in [ChannelLayout::Gray8, ChannelLayout::Rgb8, ChannelLayout::Rgba8] {
        let r = gradient(6, 5, layout);
        let w = FilterWindow::new(0, 0);
        assert_eq!(ScalarBoxFilter::apply(&r, w).unwrap(), r);
        assert_eq!(VectorizedBoxFilter::apply(&r, w).unwrap(), r);
    }
}

#[test]
fn identity_window_is_refused_on_an_empty_image() {
    let r = Raster::new(0, 0, ChannelLayout::Rgb8, Vec::new()).unwrap();
    let w = FilterWindow::new(0, 0);
    assert_eq!(ScalarBoxFilter::apply(&r, w), Err(FilterError::InvalidParameter));
    assert_eq!(VectorizedBoxFilter::apply(&r, w), Err(FilterError::InvalidParameter));
}

#[test]
fn oversized_window_is_refused() {
    let r = gradient(6, 4, ChannelLayout::Rgb8);
    // 2 * 3 == 6 is not below the width; 2 * 2 == 4 is not below the height.
    for (nx, ny) in [(3u32, 0u32), (0, 2), (3, 2), (100, 0), (0, 100), (u32::MAX, u32::MAX)] {
        let w = FilterWindow::new(nx, ny);
        assert!(!w.fits_in(&r));
        assert_eq!(w.plan(&r), Err(FilterError::InvalidParameter));
        assert_eq!(ScalarBoxFilter::apply(&r, w), Err(FilterError::InvalidParameter));
        assert_eq!(VectorizedBoxFilter::apply(&r, w), Err(FilterError::InvalidParameter));
    }
    // The largest windows that still fit.
    let w = FilterWindow::new(2, 1);
    assert!(w.fits_in(&r));
    let out = ScalarBoxFilter::apply(&r, w).unwrap();
    assert_eq!((out.width(), out.height()), (2, 2));
}

#[test]
fn uniform_image_stays_uniform() {
    let colour = [17u8, 200, 255];
    let mut pixels = Vec::new();
    for _ in 0..7 * 5 {
        pixels.extend_from_slice(&colour);
    }
    let r = Raster::new(7, 5, ChannelLayout::Rgb8, pixels).unwrap();
    for (nx, ny) in [(0u32, 0u32), (1, 1), (3, 2), (2, 0)] {
        let w = FilterWindow::new(nx, ny);
        for out in [
            ScalarBoxFilter::apply(&r, w).unwrap(),
            VectorizedBoxFilter::apply(&r, w).unwrap(),
        ] {
            assert_eq!(out.width(), 7 - 2 * nx);
            for oy in 0..out.height() {
                for ox in 0..out.width() {
                    assert_eq!(out.pixel(ox, oy), Some(&colour[..]));
                }
            }
        }
    }
}

#[test]
fn plan_holds_the_geometry() {
    let r = gradient(10, 8, ChannelLayout::Rgba8);
    let w = FilterWindow::new(2, 3);
    let plan = w.plan(&r).unwrap();
    assert_eq!(
        plan,
        WindowPlan {
            window: w,
            out_width: 6,
            out_height: 2,
            cols: 5,
            rows: 7,
            area: 35,
            out_len: 48,
        }
    );
}
