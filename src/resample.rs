//! Lanczos resampling, done by the `image` crate.

use crate::raster::fits_canvas;
use vstd::prelude::*;

verus! {

/// Relies on `image::imageops::resize` with `FilterType::Lanczos3` over an
/// `RgbaImage`: its result holds `new_width * new_height` pixels. The sampled
/// values come from floating point and may differ between platforms, so
/// nothing is stated of them. `from_raw` succeeds on a buffer of exactly
/// `width * height * 4` bytes; the resize allocates a `width` x `new_height`
/// and a `new_width` x `new_height` buffer of four samples per pixel.
#[verifier::external_body]
pub(crate) fn lanczos3_resample(
    pixels: &Vec<u8>,
    width: u32,
    height: u32,
    new_width: u32,
    new_height: u32,
) -> (r: Vec<u8>)
    requires
        pixels@.len() == width * height * 4,
        fits_canvas(width as int, height as int),
        fits_canvas(new_width as int, new_height as int),
        fits_canvas(width as int, new_height as int),
    ensures
        r@.len() == new_width * new_height * 4,
{
    let source = image::RgbaImage::from_raw(width, height, pixels.clone()).unwrap();
    image::imageops::resize(&source, new_width, new_height, image::imageops::FilterType::Lanczos3)
        .into_raw()
}

} // verus!
