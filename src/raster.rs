//! The in-memory raster buffer and its mathematical model.

use vstd::arithmetic::div_mod::lemma_fundamental_div_mod_converse;
use vstd::prelude::*;

verus! {

/// Value of every channel of the fill colour (opaque white).
pub const FILL_CHANNEL: u8 = 255;

/// Mathematical model of a raster: its dimensions and its row-major RGBA bytes.
pub struct RasterView {
    pub width: nat,
    pub height: nat,
    pub bytes: Seq<u8>,
}

impl RasterView {
    /// Positive dimensions and four bytes for each pixel.
    pub open spec fn wf(self) -> bool {
        &&& self.width > 0
        &&& self.height > 0
        &&& self.bytes.len() == self.width * self.height * 4
    }

    /// Channel `c` of the pixel in column `x` and row `y`.
    pub open spec fn byte(self, x: int, y: int, c: int) -> u8 {
        self.bytes[(y * self.width + x) * 4 + c]
    }
}

/// Whether a canvas of `width` x `height` RGBA pixels can be addressed on this
/// machine, with dimensions that fit the `u32` of the image codec.
pub open spec fn fits_canvas(width: int, height: int) -> bool {
    &&& 0 < width <= u32::MAX
    &&& 0 < height <= u32::MAX
    &&& width * height * 4 <= usize::MAX
}

/// Byte `i` of a canvas `width` pixels wide, filled with the fill colour and
/// with `src` pasted with its top left corner at `(x_offset, y_offset)`.
pub open spec fn pasted_byte(src: RasterView, width: nat, x_offset: nat, y_offset: nat, i: int) -> u8 {
    let p = i / 4;
    let c = i % 4;
    let x = p % (width as int);
    let y = p / (width as int);
    if x_offset <= x < x_offset + src.width && y_offset <= y < y_offset + src.height {
        src.byte(x - x_offset, y - y_offset, c)
    } else {
        FILL_CHANNEL
    }
}

/// A `width` x `height` canvas of the fill colour with `src` pasted at
/// `(x_offset, y_offset)`.
pub open spec fn pasted(src: RasterView, width: nat, height: nat, x_offset: nat, y_offset: nat) -> RasterView {
    RasterView {
        width,
        height,
        bytes: Seq::new(width * height * 4, |i: int| pasted_byte(src, width, x_offset, y_offset, i)),
    }
}

/// The flat index of channel `c` of pixel `(x, y)` splits back into its parts.
pub proof fn lemma_index_parts(width: int, x: int, y: int, c: int)
    requires
        width > 0,
        0 <= x < width,
        0 <= y,
        0 <= c < 4,
    ensures
        ((y * width + x) * 4 + c) / 4 == y * width + x,
        ((y * width + x) * 4 + c) % 4 == c,
        (y * width + x) % width == x,
        (y * width + x) / width == y,
{
    lemma_fundamental_div_mod_converse((y * width + x) * 4 + c, 4, y * width + x, c);
    lemma_fundamental_div_mod_converse(y * width + x, width, y, x);
}

/// The flat index of channel `c` of pixel `(x, y)` lies inside a
/// `width` x `height` raster.
pub proof fn lemma_index_bound(width: int, height: int, x: int, y: int, c: int)
    requires
        0 <= x < width,
        0 <= y < height,
        0 <= c < 4,
    ensures
        0 <= (y * width + x) * 4 + c < width * height * 4,
{
    assert(y * width + x < width * height) by (nonlinear_arith)
        requires
            0 <= x < width,
            0 <= y < height,
    ;
    assert(0 <= y * width) by (nonlinear_arith)
        requires
            0 <= x < width,
            0 <= y,
    ;
}

/// Every byte of a pasted canvas, read by coordinates.
pub proof fn lemma_pasted_at(
    src: RasterView,
    width: nat,
    height: nat,
    x_offset: nat,
    y_offset: nat,
    x: int,
    y: int,
    c: int,
)
    requires
        width > 0,
        0 <= x < width,
        0 <= y < height,
        0 <= c < 4,
    ensures
        pasted(src, width, height, x_offset, y_offset).byte(x, y, c) == if x_offset <= x < x_offset
            + src.width && y_offset <= y < y_offset + src.height {
            src.byte(x - x_offset, y - y_offset, c)
        } else {
            FILL_CHANNEL
        },
{
    lemma_index_parts(width as int, x, y, c);
    lemma_index_bound(width as int, height as int, x, y, c);
}

/// Whether a `width` x `height` canvas fits, decided on machine integers.
pub fn canvas_fits(width: u64, height: u64) -> (r: bool)
    ensures
        r == fits_canvas(width as int, height as int),
{
    if width == 0 || height == 0 || width > u32::MAX as u64 || height > u32::MAX as u64 {
        return false;
    }
    proof {
        assert(width * height * 4 <= 4 * u32::MAX * u32::MAX) by (nonlinear_arith)
            requires
                width <= u32::MAX,
                height <= u32::MAX,
        ;
    }
    (width as u128) * (height as u128) * 4 <= usize::MAX as u128
}

/// An RGBA image held as row-major bytes, four per pixel.
pub struct RasterBuffer {
    width: u32,
    height: u32,
    pixels: Vec<u8>,
}

impl View for RasterBuffer {
    type V = RasterView;

    closed spec fn view(&self) -> RasterView {
        RasterView { width: self.width as nat, height: self.height as nat, bytes: self.pixels@ }
    }
}

impl Clone for RasterBuffer {
    /// A copy with the same dimensions and bytes.
    fn clone(&self) -> (r: RasterBuffer)
        ensures
            r@ == self@,
    {
        proof {
            use_type_invariant(self);
        }
        let pixels = self.pixels.clone();
        proof {
            assert(pixels@ =~= self.pixels@);
        }
        RasterBuffer { width: self.width, height: self.height, pixels }
    }
}

impl RasterBuffer {
    #[verifier::type_invariant]
    spec fn inv(&self) -> bool {
        &&& self@.wf()
        &&& fits_canvas(self.width as int, self.height as int)
    }

    /// Wraps row-major RGBA bytes; `None` when a dimension is zero or the byte
    /// count is not four per pixel.
    pub fn from_raw(width: u32, height: u32, pixels: Vec<u8>) -> (r: Option<RasterBuffer>)
        ensures
            r is Some <==> (width > 0 && height > 0 && pixels@.len() == width * height * 4),
            r matches Some(b) ==> b@ == (RasterView {
                width: width as nat,
                height: height as nat,
                bytes: pixels@,
            }),
    {
        if width == 0 || height == 0 {
            return None;
        }
        let n = pixels.len();
        if (n / 4) / (height as usize) != width as usize || n % 4 != 0 || (n / 4) % (height as usize) != 0 {
            proof {
                if pixels@.len() == width * height * 4 {
                    lemma_fundamental_div_mod_converse(n as int, 4, (width * height) as int, 0);
                    lemma_fundamental_div_mod_converse((n / 4) as int, height as int, width as int, 0);
                }
            }
            return None;
        }
        proof {
            let q = n / 4;
            vstd::arithmetic::div_mod::lemma_fundamental_div_mod(n as int, 4);
            vstd::arithmetic::div_mod::lemma_fundamental_div_mod(q as int, height as int);
            assert(n == width * height * 4) by (nonlinear_arith)
                requires
                    n == 4 * q,
                    q == height * width,
            ;
        }
        Some(RasterBuffer { width, height, pixels })
    }

    /// The width; every raster is well formed and fits a canvas.
    pub fn width(&self) -> (r: u32)
        ensures
            r == self@.width,
            self@.wf(),
            fits_canvas(self@.width as int, self@.height as int),
    {
        proof {
            use_type_invariant(self);
        }
        self.width
    }

    /// The height; every raster is well formed and fits a canvas.
    pub fn height(&self) -> (r: u32)
        ensures
            r == self@.height,
            self@.wf(),
            fits_canvas(self@.width as int, self@.height as int),
    {
        proof {
            use_type_invariant(self);
        }
        self.height
    }

    /// The row-major RGBA bytes.
    pub fn pixels(&self) -> (r: &Vec<u8>)
        ensures
            r@ == self@.bytes,
    {
        &self.pixels
    }

    /// Gives up the buffer and returns its bytes.
    pub fn into_raw(self) -> (r: Vec<u8>)
        ensures
            r@ == self@.bytes,
    {
        self.pixels
    }

    /// The four channels of the pixel in column `x` and row `y`.
    pub fn pixel(&self, x: u32, y: u32) -> (r: [u8; 4])
        requires
            x < self@.width,
            y < self@.height,
        ensures
            forall|c: int| 0 <= c < 4 ==> r[c] == self@.byte(x as int, y as int, c),
    {
        proof {
            use_type_invariant(self);
            lemma_index_bound(self.width as int, self.height as int, x as int, y as int, 3);
        }
        let base = ((y as usize) * (self.width as usize) + (x as usize)) * 4;
        [self.pixels[base], self.pixels[base + 1], self.pixels[base + 2], self.pixels[base + 3]]
    }

    /// A new `width` x `height` canvas of the fill colour with this raster
    /// copied onto it, its top left corner at `(x_offset, y_offset)`.
    pub fn fill_to_given_dimensions(&self, width: u32, height: u32, x_offset: u32, y_offset: u32) -> (r:
        RasterBuffer)
        requires
            fits_canvas(width as int, height as int),
            x_offset + self@.width <= width,
            y_offset + self@.height <= height,
        ensures
            r@ == pasted(self@, width as nat, height as nat, x_offset as nat, y_offset as nat),
    {
        proof {
            use_type_invariant(self);
        }
        let ghost src = self@;
        let ghost w = width as int;
        let sw = self.width;
        let sh = self.height;
        let mut out: Vec<u8> = Vec::new();
        let mut y: u32 = 0;
        while y < height
            invariant
                src == self@,
                w == width,
                sw == src.width,
                sh == src.height,
                src.wf(),
                fits_canvas(src.width as int, src.height as int),
                fits_canvas(width as int, height as int),
                x_offset + src.width <= width,
                y_offset + src.height <= height,
                y <= height,
                out@.len() == y * w * 4,
                forall|i: int|
                    0 <= i < out@.len() ==> #[trigger] out@[i] == pasted_byte(
                        src,
                        width as nat,
                        x_offset as nat,
                        y_offset as nat,
                        i,
                    ),
            decreases height - y,
        {
            let mut x: u32 = 0;
            while x < width
                invariant
                    src == self@,
                    w == width,
                    sw == src.width,
                    sh == src.height,
                    src.wf(),
                    fits_canvas(src.width as int, src.height as int),
                    fits_canvas(width as int, height as int),
                    x_offset + src.width <= width,
                    y_offset + src.height <= height,
                    y < height,
                    x <= width,
                    out@.len() == (y * w + x) * 4,
                    forall|i: int|
                        0 <= i < out@.len() ==> #[trigger] out@[i] == pasted_byte(
                            src,
                            width as nat,
                            x_offset as nat,
                            y_offset as nat,
                            i,
                        ),
                decreases width - x,
            {
                let ghost start = out@.len() as int;
                proof {
                    assert forall|i: int| start <= i < start + 4 implies #[trigger] pasted_byte(
                        src,
                        width as nat,
                        x_offset as nat,
                        y_offset as nat,
                        i,
                    ) == (if x_offset <= x < x_offset + sw && y_offset <= y < y_offset + sh {
                        src.byte(x - x_offset, y - y_offset, i - start)
                    } else {
                        FILL_CHANNEL
                    }) by {
                        lemma_index_parts(w, x as int, y as int, i - start);
                    }
                    lemma_index_bound(w, height as int, x as int, y as int, 3);
                }
                if x_offset <= x && x < x_offset + sw && y_offset <= y && y < y_offset + sh {
                    let sx = x - x_offset;
                    let sy = y - y_offset;
                    proof {
                        lemma_index_bound(sw as int, sh as int, sx as int, sy as int, 3);
                        assert(0 <= sy * sw) by (nonlinear_arith)
                            requires
                                0 <= sy,
                                0 <= sw,
                        ;
                    }
                    let base = ((sy as usize) * (sw as usize) + (sx as usize)) * 4;
                    out.push(self.pixels[base]);
                    out.push(self.pixels[base + 1]);
                    out.push(self.pixels[base + 2]);
                    out.push(self.pixels[base + 3]);
                } else {
                    out.push(FILL_CHANNEL);
                    out.push(FILL_CHANNEL);
                    out.push(FILL_CHANNEL);
                    out.push(FILL_CHANNEL);
                }
                proof {
                    assert(out@.len() == ((y * w + x) + 1) * 4);
                    assert forall|i: int| 0 <= i < out@.len() implies #[trigger] out@[i]
                        == pasted_byte(src, width as nat, x_offset as nat, y_offset as nat, i) by {
                        if i >= start {
                            assert(out@[i] == out@[start + (i - start)]);
                        }
                    }
                }
                x = x + 1;
            }
            proof {
                assert(out@.len() == (y + 1) * w * 4) by (nonlinear_arith)
                    requires
                        out@.len() == (y * w + w) * 4,
                ;
            }
            y = y + 1;
        }
        proof {
            assert(out@.len() == w * height * 4) by (nonlinear_arith)
                requires
                    out@.len() == height * w * 4,
            ;
            assert(out@ =~= pasted(src, width as nat, height as nat, x_offset as nat, y_offset as nat).bytes);
        }
        RasterBuffer { width, height, pixels: out }
    }
}

} // verus!
