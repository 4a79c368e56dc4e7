//! Properties that hold across the stages, stated over the models.

use crate::raster::{lemma_pasted_at, pasted, RasterView, FILL_CHANNEL};
use crate::transform::{
    aspect_filled, bordered, ceil_div, fill_offset, fill_pads, fill_target, lemma_ceil_div,
    longest_side_target, resized_longest, round_div,
};
use vstd::arithmetic::div_mod::lemma_fundamental_div_mod;
use vstd::prelude::*;

verus! {

/// A border of `t` pixels makes the raster `2t` wider and `2t` higher; the
/// rectangle at `(t, t)` of the input size holds the input bytes, and
/// every other pixel is the fill colour.
pub proof fn lemma_border_frame(v: RasterView, t: nat)
    requires
        v.wf(),
    ensures
        bordered(v, t).wf(),
        bordered(v, t).width == v.width + 2 * t,
        bordered(v, t).height == v.height + 2 * t,
        forall|x: int, y: int, c: int|
            0 <= x < v.width + 2 * t && 0 <= y < v.height + 2 * t && 0 <= c < 4 ==> #[trigger] bordered(
                v,
                t,
            ).byte(x, y, c) == if t <= x < t + v.width && t <= y < t + v.height {
                v.byte(x - t, y - t, c)
            } else {
                FILL_CHANNEL
            },
{
    let w = v.width + 2 * t;
    let h = v.height + 2 * t;
    assert forall|x: int, y: int, c: int|
        0 <= x < w && 0 <= y < h && 0 <= c < 4 implies #[trigger] bordered(v, t).byte(x, y, c) == if t
        <= x < t + v.width && t <= y < t + v.height {
        v.byte(x - t, y - t, c)
    } else {
        FILL_CHANNEL
    } by {
        lemma_pasted_at(v, w, h, t, t, x, y, c);
    }
    assert(w * h * 4 > 0) by (nonlinear_arith)
        requires
            w > 0,
            h > 0,
    ;
}

/// A border of zero pixels leaves the raster byte for byte as it was.
pub proof fn lemma_border_zero(v: RasterView)
    requires
        v.wf(),
    ensures
        bordered(v, 0) == v,
{
    let r = bordered(v, 0);
    let w = v.width as int;
    assert forall|i: int| 0 <= i < r.bytes.len() implies r.bytes[i] == v.bytes[i] by {
        let p = i / 4;
        let x = p % w;
        let y = p / w;
        lemma_fundamental_div_mod(i, 4);
        lemma_fundamental_div_mod(p, w);
        assert(p < w * v.height) by (nonlinear_arith)
            requires
                i == 4 * p + i % 4,
                0 <= i % 4,
                i < w * v.height * 4,
        ;
        assert(y < v.height) by (nonlinear_arith)
            requires
                p == w * y + x,
                0 <= x,
                p < w * v.height,
                w > 0,
        ;
        assert(0 <= y) by (nonlinear_arith)
            requires
                p == w * y + x,
                x < w,
                0 <= p,
                w > 0,
        ;
        assert((y * w + x) * 4 + i % 4 == i) by (nonlinear_arith)
            requires
                p == w * y + x,
                i == 4 * p + i % 4,
        ;
    }
    assert(r.bytes =~= v.bytes);
}

/// After the aspect-ratio fill the sides stand in the ratio `ratio_w :
/// ratio_h` up to one pixel on one axis (the height is within one pixel of
/// `width * ratio_h / ratio_w`, or the width within one pixel of
/// `height * ratio_w / ratio_h`), the canvas only grows, and the whole input
/// lies on it at the centring offset.
pub proof fn lemma_aspect_fill_ratio(v: RasterView, ratio_w: nat, ratio_h: nat)
    requires
        v.wf(),
        ratio_w > 0,
        ratio_h > 0,
    ensures
        ({
            let r = aspect_filled(v, ratio_w, ratio_h);
            let d = r.width * ratio_h - r.height * ratio_w;
            let (xo, yo) = if fill_pads(v, ratio_w, ratio_h) {
                fill_offset(v.width, v.height, ratio_w, ratio_h)
            } else {
                (0nat, 0nat)
            };
            &&& r.wf()
            &&& (-ratio_w <= d <= ratio_w || -ratio_h <= d <= ratio_h)
            &&& xo + v.width <= r.width
            &&& yo + v.height <= r.height
            &&& forall|x: int, y: int, c: int|
                xo <= x < xo + v.width && yo <= y < yo + v.height && 0 <= c < 4
                    ==> #[trigger] r.byte(x, y, c) == v.byte(x - xo, y - yo, c)
        }),
{
    let w = v.width;
    let h = v.height;
    let r = aspect_filled(v, ratio_w, ratio_h);
    let (tw, th) = fill_target(w, h, ratio_w, ratio_h);
    let (xo, yo) = fill_offset(w, h, ratio_w, ratio_h);
    let ch = ceil_div(w * ratio_h, ratio_w);
    lemma_ceil_div(w * ratio_h, ratio_w);
    if ch >= h {
        assert(tw == w && th == ch);
        if fill_pads(v, ratio_w, ratio_h) {
            assert(-ratio_w <= w * ratio_h - ch * ratio_w <= ratio_w);
        } else {
            assert(ch <= h + 1);
            assert(-ratio_w <= w * ratio_h - h * ratio_w <= ratio_w) by (nonlinear_arith)
                requires
                    ch * ratio_w >= w * ratio_h,
                    ch * ratio_w < w * ratio_h + ratio_w,
                    h <= ch <= h + 1,
                    ratio_w > 0,
            ;
        }
    } else {
        let cw = ceil_div(h * ratio_w, ratio_h);
        lemma_ceil_div(h * ratio_w, ratio_h);
        assert(cw > w) by (nonlinear_arith)
            requires
                ch * ratio_w >= w * ratio_h,
                ch < h,
                cw * ratio_h >= h * ratio_w,
                ratio_w > 0,
                ratio_h > 0,
        ;
        assert(tw == cw && th == h);
        if fill_pads(v, ratio_w, ratio_h) {
            assert(-ratio_h <= cw * ratio_h - h * ratio_w <= ratio_h);
        } else {
            assert(cw <= w + 1);
            assert(-ratio_h <= w * ratio_h - h * ratio_w <= ratio_h) by (nonlinear_arith)
                requires
                    cw * ratio_h >= h * ratio_w,
                    cw * ratio_h < h * ratio_w + ratio_h,
                    w < cw <= w + 1,
                    ratio_h > 0,
            ;
        }
    }
    if fill_pads(v, ratio_w, ratio_h) {
        assert(tw * th * 4 > 0) by (nonlinear_arith)
            requires
                tw > 0,
                th > 0,
        ;
        assert forall|x: int, y: int, c: int|
            xo <= x < xo + w && yo <= y < yo + h && 0 <= c < 4 implies #[trigger] r.byte(x, y, c)
            == v.byte(x - xo, y - yo, c) by {
            lemma_pasted_at(v, tw, th, xo, yo, x, y, c);
        }
    }
}

/// A second fill to the same ratio changes nothing, once the first has
/// brought the height within one pixel of `width * ratio_h / ratio_w`.
pub proof fn lemma_aspect_fill_idempotent(v: RasterView, ratio_w: nat, ratio_h: nat)
    requires
        v.wf(),
        ratio_w > 0,
        ratio_h > 0,
        aspect_filled(v, ratio_w, ratio_h).width * ratio_h <= (aspect_filled(v, ratio_w, ratio_h).height
            + 1) * ratio_w,
    ensures
        aspect_filled(aspect_filled(v, ratio_w, ratio_h), ratio_w, ratio_h) == aspect_filled(
            v,
            ratio_w,
            ratio_h,
        ),
{
    let w = v.width;
    let h = v.height;
    let r = aspect_filled(v, ratio_w, ratio_h);
    if fill_pads(v, ratio_w, ratio_h) {
        let ch = ceil_div(w * ratio_h, ratio_w);
        lemma_ceil_div(w * ratio_h, ratio_w);
        if ch >= h {
            assert(r.width == w && r.height == ch);
            assert(fill_target(r.width, r.height, ratio_w, ratio_h) == (w, ch));
            assert(!fill_pads(r, ratio_w, ratio_h));
        } else {
            let cw = ceil_div(h * ratio_w, ratio_h);
            lemma_ceil_div(h * ratio_w, ratio_h);
            assert(cw > w) by (nonlinear_arith)
                requires
                    ch * ratio_w >= w * ratio_h,
                    ch < h,
                    cw * ratio_h >= h * ratio_w,
                    ratio_w > 0,
                    ratio_h > 0,
            ;
            assert(r.width == cw && r.height == h);
            let ch2 = ceil_div(cw * ratio_h, ratio_w);
            lemma_ceil_div(cw * ratio_h, ratio_w);
            assert(h <= ch2 <= h + 1) by (nonlinear_arith)
                requires
                    ch2 * ratio_w >= cw * ratio_h,
                    ch2 * ratio_w < cw * ratio_h + ratio_w,
                    cw * ratio_h >= h * ratio_w,
                    cw * ratio_h <= (h + 1) * ratio_w,
                    ratio_w > 0,
            ;
            assert(fill_target(cw, h, ratio_w, ratio_h) == (cw, ch2));
            assert(!fill_pads(r, ratio_w, ratio_h));
        }
    }
}

/// After the longest-side resize to `longest`, the longer side is `longest`
/// and the shorter is the other side scaled by `longest / longer side`,
/// rounded to the nearest integer with an exact half going down; where that rounds to zero the side is one pixel instead, which
/// the requirement leaves out.
pub proof fn lemma_resize_longest(v: RasterView, longest: nat, r: RasterView)
    requires
        v.wf(),
        longest > 0,
        v.width >= v.height ==> round_div(v.height * longest, v.width) >= 1,
        v.width < v.height ==> round_div(v.width * longest, v.height) >= 1,
        resized_longest(v, longest, r),
    ensures
        ({
            if v.width >= v.height {
                r.width == longest && r.height == round_div(v.height * longest, v.width)
                    && r.height <= r.width
            } else {
                r.height == longest && r.width == round_div(v.width * longest, v.height)
                    && r.width <= r.height
            }
        }),
{
    let w = v.width;
    let h = v.height;
    if w >= h {
        let s = round_div(h * longest, w);
        assert(s <= longest) by (nonlinear_arith)
            requires
                s == (2 * (h * longest) + w - 1) / (2 * w as int),
                h <= w,
                w > 0,
        ;
    } else {
        let s = round_div(w * longest, h);
        assert(s <= longest) by (nonlinear_arith)
            requires
                s == (2 * (w * longest) + h - 1) / (2 * h as int),
                w < h,
                w > 0,
                longest > 0,
        ;
    }
}

} // verus!
