use rustography::pipeline::{ImageManipulator, TransformError};
use rustography::raster::RasterBuffer;
use rustography::transform::{
    aspect_fill, border, calculate_dimensions, longest_side_dimensions, resize_longest_side,
};

/// A raster whose bytes count up, so that every pixel differs from the fill.
fn counting(width: u32, height: u32) -> RasterBuffer {
    let n = (width * height * 4) as usize;
    let bytes: Vec<u8> = (0..n).map(|i| (i % 200) as u8).collect();
    RasterBuffer::from_raw(width, height, bytes).unwrap()
}

/// A raster of one colour.
fn solid(width: u32, height: u32, px: [u8; 4]) -> RasterBuffer {
    let mut bytes = Vec::with_capacity((width * height * 4) as usize);
    for _ in 0..width * height {
        bytes.extend_from_slice(&px);
    }
    RasterBuffer::from_raw(width, height, bytes).unwrap()
}

#[test]
fn from_raw_checks_the_byte_count() {
    assert!(RasterBuffer::from_raw(2, 2, vec![0; 16]).is_some());
    assert!(RasterBuffer::from_raw(2, 2, vec![0; 15]).is_none());
    assert!(RasterBuffer::from_raw(2, 2, vec![0; 17]).is_none());
    assert!(RasterBuffer::from_raw(0, 2, vec![]).is_none());
    assert!(RasterBuffer::from_raw(2, 0, vec![]).is_none());
}

#[test]
fn pixel_reads_row_major() {
    let b = counting(3, 2);
    assert_eq!(b.pixel(0, 0), [0, 1, 2, 3]);
    assert_eq!(b.pixel(2, 0), [8, 9, 10, 11]);
    assert_eq!(b.pixel(1, 1), [16, 17, 18, 19]);
}

#[test]
fn border_frames_and_keeps_interior() {
    let src = counting(3, 2);
    let r = border(src.clone(), 2);
    assert_eq!((r.width(), r.height()), (7, 6));
    for y in 0..6 {
        for x in 0..7 {
            let inside = (2..5).contains(&x) && (2..4).contains(&y);
            if inside {
                assert_eq!(r.pixel(x, y), src.pixel(x - 2, y - 2));
            } else {
                assert_eq!(r.pixel(x, y), [255; 4]);
            }
        }
    }
}

#[test]
fn border_zero_is_identity() {
    let src = counting(5, 3);
    let r = border(src.clone(), 0);
    assert_eq!((r.width(), r.height()), (5, 3));
    assert_eq!(r.pixels(), src.pixels());
}

#[test]
fn calculate_dimensions_pads_vertically_or_horizontally() {
    assert_eq!(calculate_dimensions(1000, 2000, 1, 1), (2000, 2000));
    assert_eq!(calculate_dimensions(2000, 1000, 1, 1), (2000, 2000));
    // 10 wide at 4:5 asks for a height of 12.5, rounded up to 13.
    assert_eq!(calculate_dimensions(10, 10, 4, 5), (10, 13));
    assert_eq!(calculate_dimensions(10, 10, 5, 4), (13, 10));
}

#[test]
fn aspect_fill_centres_the_content() {
    let src = counting(10, 20);
    let r = aspect_fill(src.clone(), 1, 1);
    assert_eq!((r.width(), r.height()), (20, 20));
    for y in 0..20 {
        for x in 0..20 {
            if (5..15).contains(&x) {
                assert_eq!(r.pixel(x, y), src.pixel(x - 5, y));
            } else {
                assert_eq!(r.pixel(x, y), [255; 4]);
            }
        }
    }
}

#[test]
fn aspect_fill_odd_padding_goes_to_the_trailing_side() {
    let src = counting(4, 3);
    // 4 wide at 1:2 asks for a height of 8: five rows, two above.
    let r = aspect_fill(src.clone(), 1, 2);
    assert_eq!((r.width(), r.height()), (4, 8));
    assert_eq!(r.pixel(0, 1), [255; 4]);
    assert_eq!(r.pixel(0, 2), src.pixel(0, 0));
    assert_eq!(r.pixel(3, 4), src.pixel(3, 2));
    assert_eq!(r.pixel(3, 5), [255; 4]);
}

#[test]
fn aspect_fill_skips_a_one_pixel_growth() {
    let src = counting(5, 4);
    // 5 wide at 1:1 asks for a height of 5; the offset (5 - 4) / 2 is zero.
    let r = aspect_fill(src.clone(), 1, 1);
    assert_eq!((r.width(), r.height()), (5, 4));
    assert_eq!(r.pixels(), src.pixels());
}

#[test]
fn aspect_fill_ratio_within_one_pixel() {
    for &(w, h, rw, rh) in &[(10u32, 20u32, 3u32, 2u32), (7, 3, 2, 3), (9, 9, 16, 9), (13, 5, 4, 5)] {
        let r = aspect_fill(counting(w, h), rw, rh);
        let d = r.width() as i64 * rh as i64 - r.height() as i64 * rw as i64;
        assert!(d.abs() <= rw.max(rh) as i64);
        assert!(r.width() >= w && r.height() >= h);
    }
}

#[test]
fn aspect_fill_is_idempotent() {
    let once = aspect_fill(counting(10, 20), 4, 5);
    let twice = aspect_fill(once.clone(), 4, 5);
    assert_eq!((once.width(), once.height()), (16, 20));
    assert_eq!((twice.width(), twice.height()), (16, 20));
    assert_eq!(once.pixels(), twice.pixels());
}

#[test]
fn aspect_fill_tall_ratio_can_pad_again() {
    // At 1:3 a 1 x 10 image is padded to 4 x 10, whose width asks for 12 rows.
    let once = aspect_fill(counting(1, 10), 1, 3);
    assert_eq!((once.width(), once.height()), (4, 10));
    let twice = aspect_fill(once, 1, 3);
    assert_eq!((twice.width(), twice.height()), (4, 12));
}

#[test]
fn longest_side_dimensions_round() {
    assert_eq!(longest_side_dimensions(40, 30, 27), (27, 20));
    assert_eq!(longest_side_dimensions(30, 40, 27), (20, 27));
    assert_eq!(longest_side_dimensions(4000, 3000, 1350), (1350, 1012));
    assert_eq!(longest_side_dimensions(1000, 1, 10), (10, 1));
    assert_eq!(longest_side_dimensions(50, 50, 50), (50, 50));
}

#[test]
fn longest_side_exact_half_rounds_down() {
    assert_eq!(longest_side_dimensions(4, 3, 2), (2, 1));
    assert_eq!(longest_side_dimensions(8, 5, 4), (4, 2));
    assert_eq!(longest_side_dimensions(7, 8, 4), (3, 4));
    // Just above a half rounds up.
    assert_eq!(longest_side_dimensions(1000, 501, 2), (2, 1));
    assert_eq!(longest_side_dimensions(1000, 751, 2), (2, 2));
}

#[test]
fn resize_longest_side_resamples() {
    let src = solid(8, 4, [10, 20, 30, 255]);
    let r = resize_longest_side(src, 4);
    assert_eq!((r.width(), r.height()), (4, 2));
    assert_eq!(r.pixels().len(), 4 * 2 * 4);
    assert_eq!(r.pixel(1, 1), [10, 20, 30, 255]);
}

#[test]
fn resize_longest_side_upscales_portrait() {
    let r = resize_longest_side(counting(3, 6), 12);
    assert_eq!((r.width(), r.height()), (6, 12));
}

#[test]
fn resize_to_current_size_keeps_bytes() {
    let src = counting(6, 4);
    let r = resize_longest_side(src.clone(), 6);
    assert_eq!(r.pixels(), src.pixels());
}

#[test]
fn fill_to_aspect_ratio_scenario() {
    let src = counting(1000, 2000);
    let r = ImageManipulator::new(src.clone()).fill_to_aspect_ratio(1, 1).apply().unwrap();
    assert_eq!((r.width(), r.height()), (2000, 2000));
    assert_eq!(r.pixel(499, 0), [255; 4]);
    assert_eq!(r.pixel(500, 0), src.pixel(0, 0));
    assert_eq!(r.pixel(1499, 1999), src.pixel(999, 1999));
    assert_eq!(r.pixel(1500, 1999), [255; 4]);
}

#[test]
fn add_border_scenario() {
    let src = solid(4000, 3000, [1, 2, 3, 255]);
    let r = ImageManipulator::new(src).add_border(20).apply().unwrap();
    assert_eq!((r.width(), r.height()), (4040, 3040));
    for &(x, y) in &[(0, 0), (19, 19), (4039, 0), (0, 3039), (4039, 3039), (2000, 19), (19, 1500), (4020, 1500), (2000, 3020)] {
        assert_eq!(r.pixel(x, y), [255; 4]);
    }
    assert_eq!(r.pixel(20, 20), [1, 2, 3, 255]);
    assert_eq!(r.pixel(4019, 3019), [1, 2, 3, 255]);
}

#[test]
fn longest_side_scenario() {
    let src = solid(4000, 3000, [90, 120, 150, 255]);
    let r = ImageManipulator::new(src).longest_side(1350).apply().unwrap();
    assert_eq!((r.width(), r.height()), (1350, 1012));
}

#[test]
fn add_border_zero_keeps_pixels() {
    let src = counting(64, 48);
    let r = ImageManipulator::new(src.clone()).add_border(0).apply().unwrap();
    assert_eq!((r.width(), r.height()), (64, 48));
    assert_eq!(r.into_raw(), src.into_raw());
}

#[test]
fn stages_apply_in_fixed_order() {
    let src = counting(10, 20);
    let a = ImageManipulator::new(src.clone())
        .longest_side(30)
        .fill_to_aspect_ratio(1, 1)
        .add_border(5)
        .apply()
        .unwrap();
    let b = ImageManipulator::new(src.clone())
        .add_border(5)
        .fill_to_aspect_ratio(1, 1)
        .longest_side(30)
        .apply()
        .unwrap();
    let manual = resize_longest_side(aspect_fill(border(src, 5), 1, 1), 30);
    assert_eq!((a.width(), a.height()), (30, 30));
    assert_eq!(a.pixels(), manual.pixels());
    assert_eq!(b.pixels(), manual.pixels());
}

#[test]
fn nothing_requested_keeps_the_raster() {
    let src = counting(7, 5);
    let r = ImageManipulator::new(src.clone()).apply().unwrap();
    assert_eq!(r.pixels(), src.pixels());
}

#[test]
fn oversized_border_is_an_error() {
    let r = ImageManipulator::new(counting(2, 2)).add_border(usize::MAX).apply();
    assert_eq!(r.err(), Some(TransformError::CanvasTooLarge));
    let r = ImageManipulator::new(counting(2, 2)).add_border(u32::MAX as usize).apply();
    assert_eq!(r.err(), Some(TransformError::CanvasTooLarge));
}

#[test]
fn oversized_fill_and_resize_are_errors() {
    let r = ImageManipulator::new(counting(2, 2)).fill_to_aspect_ratio(u32::MAX, 1).apply();
    assert_eq!(r.err(), Some(TransformError::CanvasTooLarge));
    let r = ImageManipulator::new(counting(2, 2)).longest_side(u32::MAX as usize + 1).apply();
    assert_eq!(r.err(), Some(TransformError::CanvasTooLarge));
}
