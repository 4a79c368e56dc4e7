//! The three geometric stages: border, aspect-ratio fill and longest-side
//! resize. Each takes a raster and hands back the transformed one.

use crate::raster::{canvas_fits, fits_canvas, pasted, RasterBuffer, RasterView};
use crate::resample::lanczos3_resample;
use vstd::arithmetic::div_mod::lemma_fundamental_div_mod;
use vstd::prelude::*;

verus! {

/// `a / b` rounded up.
pub open spec fn ceil_div(a: nat, b: nat) -> nat {
    if a % b == 0 {
        a / b
    } else {
        a / b + 1
    }
}

/// `a / b` rounded to the nearest integer, an exact half rounded down.
pub open spec fn round_div(a: nat, b: nat) -> nat {
    ((2 * a + b - 1) as nat) / (2 * b)
}

/// The raster framed by `thickness` pixels of the fill colour on each side.
pub open spec fn bordered(v: RasterView, thickness: nat) -> RasterView {
    pasted(v, v.width + 2 * thickness, v.height + 2 * thickness, thickness, thickness)
}

/// The canvas size that the aspect-ratio fill aims for: the height that the
/// width asks for when that does not shrink the image, else the width that
/// the height asks for.
pub open spec fn fill_target(width: nat, height: nat, ratio_w: nat, ratio_h: nat) -> (nat, nat) {
    let candidate_height = ceil_div(width * ratio_h, ratio_w);
    if candidate_height >= height {
        (width, candidate_height)
    } else {
        (ceil_div(height * ratio_w, ratio_h), height)
    }
}

/// Where the image content lands on the filled canvas: centred along the
/// axis that grows, any odd pixel left on the trailing side.
pub open spec fn fill_offset(width: nat, height: nat, ratio_w: nat, ratio_h: nat) -> (nat, nat) {
    let (tw, th) = fill_target(width, height, ratio_w, ratio_h);
    if width < tw {
        (((tw - width) as nat) / 2, 0)
    } else {
        (0, ((th - height) as nat) / 2)
    }
}

/// Whether the fill changes the raster at all: it does unless both offsets
/// are zero.
pub open spec fn fill_pads(v: RasterView, ratio_w: nat, ratio_h: nat) -> bool {
    let (xo, yo) = fill_offset(v.width, v.height, ratio_w, ratio_h);
    xo > 0 || yo > 0
}

/// Whether the canvas that the fill needs can be allocated.
pub open spec fn fill_fits(v: RasterView, ratio_w: nat, ratio_h: nat) -> bool {
    let (tw, th) = fill_target(v.width, v.height, ratio_w, ratio_h);
    fill_pads(v, ratio_w, ratio_h) ==> fits_canvas(tw as int, th as int)
}

/// The raster padded with the fill colour to the ratio `ratio_w : ratio_h`.
pub open spec fn aspect_filled(v: RasterView, ratio_w: nat, ratio_h: nat) -> RasterView {
    let (tw, th) = fill_target(v.width, v.height, ratio_w, ratio_h);
    let (xo, yo) = fill_offset(v.width, v.height, ratio_w, ratio_h);
    if fill_pads(v, ratio_w, ratio_h) {
        pasted(v, tw, th, xo, yo)
    } else {
        v
    }
}

/// The size that fits within a `longest` x `longest` box with the aspect ratio
/// kept: the longer side becomes `longest`, the other is scaled and rounded,
/// and is never below one pixel.
pub open spec fn longest_side_target(width: nat, height: nat, longest: nat) -> (nat, nat) {
    if width >= height {
        (longest, vstd::math::max(1, round_div(height * longest, width) as int) as nat)
    } else {
        (vstd::math::max(1, round_div(width * longest, height) as int) as nat, longest)
    }
}

/// Whether the resampler can hold the target canvas and its intermediate
/// (old width, new height) canvas.
pub open spec fn resize_fits(v: RasterView, longest: nat) -> bool {
    let (nw, nh) = longest_side_target(v.width, v.height, longest);
    fits_canvas(nw as int, nh as int) && fits_canvas(v.width as int, nh as int)
}

/// What holds of every outcome of resampling `v` so that its longest side is
/// `longest`: the result is well formed and has the size of
/// `longest_side_target`, and it is `v` itself when `v` already has that size.
pub open spec fn resized_longest(v: RasterView, longest: nat, r: RasterView) -> bool {
    let (nw, nh) = longest_side_target(v.width, v.height, longest);
    &&& r.wf()
    &&& r.width == nw
    &&& r.height == nh
    &&& (nw == v.width && nh == v.height ==> r == v)
}

/// `ceil_div(a, b)` is the least multiple count of `b` that reaches `a`.
pub proof fn lemma_ceil_div(a: nat, b: nat)
    requires
        b > 0,
    ensures
        ceil_div(a, b) * b >= a,
        ceil_div(a, b) * b < a + b,
{
    lemma_fundamental_div_mod(a as int, b as int);
    let q = a / b;
    let r = a % b;
    if r == 0 {
        assert(q * b == a) by (nonlinear_arith)
            requires
                a == b * q + r,
                r == 0,
        ;
    } else {
        assert((q + 1) * b == b * q + b) by (nonlinear_arith);
    }
}

/// The product of two `u32` values, rounded up by one divisor step, stays in `u64`.
proof fn lemma_product_fits(a: int, b: int)
    requires
        0 <= a <= u32::MAX,
        0 <= b <= u32::MAX,
    ensures
        a * b + 1 <= u64::MAX,
        0 <= a * b,
{
    assert(a * b <= u32::MAX * u32::MAX) by (nonlinear_arith)
        requires
            0 <= a <= u32::MAX,
            0 <= b <= u32::MAX,
    ;
    assert(0 <= a * b) by (nonlinear_arith)
        requires
            0 <= a,
            0 <= b,
    ;
}

/// The canvas size of the aspect-ratio fill, in machine integers.
pub fn calculate_dimensions(source_width: u32, source_height: u32, ratio_w: u32, ratio_h: u32) -> (r: (u64, u64))
    requires
        ratio_w > 0,
        ratio_h > 0,
    ensures
        r.0 == fill_target(source_width as nat, source_height as nat, ratio_w as nat, ratio_h as nat).0,
        r.1 == fill_target(source_width as nat, source_height as nat, ratio_w as nat, ratio_h as nat).1,
{
    proof {
        lemma_product_fits(source_width as int, ratio_h as int);
        lemma_product_fits(source_height as int, ratio_w as int);
    }
    let wide = (source_width as u64) * (ratio_h as u64);
    let width_based_height = wide / (ratio_w as u64) + if wide % (ratio_w as u64) == 0 {
        0
    } else {
        1
    };
    if width_based_height >= source_height as u64 {
        (source_width as u64, width_based_height)
    } else {
        let tall = (source_height as u64) * (ratio_w as u64);
        let height_based_width = tall / (ratio_h as u64) + if tall % (ratio_h as u64) == 0 {
            0
        } else {
            1
        };
        (height_based_width, source_height as u64)
    }
}

/// Whether the canvas of a `thickness` border fits.
pub fn border_fits(image: &RasterBuffer, thickness: usize) -> (r: bool)
    ensures
        r == fits_canvas(image@.width + 2 * thickness, image@.height + 2 * thickness),
{
    if thickness > u32::MAX as usize {
        return false;
    }
    let t = thickness as u64;
    canvas_fits(image.width() as u64 + 2 * t, image.height() as u64 + 2 * t)
}

/// Frames the raster with `thickness` pixels of opaque white on every side.
pub fn border(image: RasterBuffer, thickness: u32) -> (r: RasterBuffer)
    requires
        fits_canvas(image@.width + 2 * thickness, image@.height + 2 * thickness),
    ensures
        r@ == bordered(image@, thickness as nat),
{
    let width = image.width();
    let height = image.height();
    image.fill_to_given_dimensions(width + 2 * thickness, height + 2 * thickness, thickness, thickness)
}

/// Whether the canvas of the aspect-ratio fill fits.
pub fn aspect_fill_fits(image: &RasterBuffer, ratio_w: u32, ratio_h: u32) -> (r: bool)
    requires
        ratio_w > 0,
        ratio_h > 0,
    ensures
        r == fill_fits(image@, ratio_w as nat, ratio_h as nat),
{
    let width = image.width();
    let height = image.height();
    let (expected_width, expected_height) = calculate_dimensions(width, height, ratio_w, ratio_h);
    let pads = if (width as u64) < expected_width {
        (expected_width - width as u64) / 2 > 0
    } else {
        (expected_height - height as u64) / 2 > 0
    };
    !pads || canvas_fits(expected_width, expected_height)
}

/// Pads the raster with opaque white along one axis, content centred, so
/// that its sides stand in the ratio `ratio_w : ratio_h`.
pub fn aspect_fill(image: RasterBuffer, ratio_w: u32, ratio_h: u32) -> (r: RasterBuffer)
    requires
        ratio_w > 0,
        ratio_h > 0,
        fill_fits(image@, ratio_w as nat, ratio_h as nat),
    ensures
        r@ == aspect_filled(image@, ratio_w as nat, ratio_h as nat),
{
    let width = image.width();
    let height = image.height();
    let (expected_width, expected_height) = calculate_dimensions(width, height, ratio_w, ratio_h);
    let mut x_offset: u64 = 0;
    let mut y_offset: u64 = 0;
    if (width as u64) < expected_width {
        x_offset = (expected_width - width as u64) / 2;
    } else {
        y_offset = (expected_height - height as u64) / 2;
    }
    if x_offset > 0 || y_offset > 0 {
        image.fill_to_given_dimensions(
            expected_width as u32,
            expected_height as u32,
            x_offset as u32,
            y_offset as u32,
        )
    } else {
        image
    }
}

/// The size of the longest-side resize, in machine integers.
pub fn longest_side_dimensions(width: u32, height: u32, longest: u32) -> (r: (u32, u32))
    requires
        width > 0,
        height > 0,
        longest > 0,
    ensures
        r.0 == longest_side_target(width as nat, height as nat, longest as nat).0,
        r.1 == longest_side_target(width as nat, height as nat, longest as nat).1,
{
    proof {
        lemma_product_fits(height as int, longest as int);
        lemma_product_fits(width as int, longest as int);
    }
    if width >= height {
        let scaled = (2 * ((height as u128) * (longest as u128)) + width as u128 - 1) / (2 * width as u128);
        proof {
            assert(scaled <= longest) by (nonlinear_arith)
                requires
                    scaled == (2 * (height * longest) + width - 1) / (2 * width),
                    height <= width,
                    width > 0,
            ;
        }
        (longest, if scaled == 0 { 1 } else { scaled as u32 })
    } else {
        let scaled = (2 * ((width as u128) * (longest as u128)) + height as u128 - 1) / (2 * height as u128);
        proof {
            assert(scaled <= longest) by (nonlinear_arith)
                requires
                    scaled == (2 * (width * longest) + height - 1) / (2 * height),
                    width < height,
                    height > 0,
            ;
        }
        (if scaled == 0 { 1 } else { scaled as u32 }, longest)
    }
}

/// Whether the canvases of the longest-side resize fit.
pub fn resize_fits_check(image: &RasterBuffer, longest: u32) -> (r: bool)
    requires
        longest > 0,
    ensures
        r == resize_fits(image@, longest as nat),
{
    let width = image.width();
    let height = image.height();
    let (new_width, new_height) = longest_side_dimensions(width, height, longest);
    canvas_fits(new_width as u64, new_height as u64) && canvas_fits(width as u64, new_height as u64)
}

/// Resamples the raster with a Lanczos filter so that its longest side is
/// `longest` pixels, the aspect ratio kept.
pub fn resize_longest_side(image: RasterBuffer, longest: u32) -> (r: RasterBuffer)
    requires
        longest > 0,
        resize_fits(image@, longest as nat),
    ensures
        resized_longest(image@, longest as nat, r@),
{
    let width = image.width();
    let height = image.height();
    let (new_width, new_height) = longest_side_dimensions(width, height, longest);
    if new_width == width && new_height == height {
        return image;
    }
    let pixels = lanczos3_resample(image.pixels(), width, height, new_width, new_height);
    match RasterBuffer::from_raw(new_width, new_height, pixels) {
        Some(r) => r,
        None => {
            proof {
                assert(false);
            }
            image
        },
    }
}

} // verus!
