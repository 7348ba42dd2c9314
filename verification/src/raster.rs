//! The pixel model: an RGBA raster held as a flat byte buffer, and the
//! ghost-level "frame" view `(width, height, bytes)` that all contracts
//! speak of. A pixel `(x, y)` occupies the four bytes starting at
//! `4 * (y * width + x)`, in channel order R, G, B, A.

use vstd::prelude::*;
use vstd::arithmetic::div_mod::{
    lemma_div_pos_is_pos, lemma_fundamental_div_mod, lemma_mod_division_less_than_divisor,
    lemma_multiply_divide_lt,
};

verus! {

/// A ghost image: width, height, and the flat RGBA byte sequence.
pub type Frame = (int, int, Seq<u8>);

/// One RGBA pixel value.
#[derive(Clone, Copy, PartialEq, Eq, Structural, Debug)]
pub struct Rgba {
    pub r: u8,
    pub g: u8,
    pub b: u8,
    pub a: u8,
}

/// A decoded raster image, normalized to 8-bit RGBA.
pub struct Raster {
    pub width: u32,
    pub height: u32,
    pub data: Vec<u8>,
}

impl View for Raster {
    type V = Frame;

    open spec fn view(&self) -> Frame {
        (self.width as int, self.height as int, self.data@)
    }
}

/// A frame is well formed when it holds exactly four bytes per pixel.
pub open spec fn frame_wf(f: Frame) -> bool {
    &&& f.0 >= 0
    &&& f.1 >= 0
    &&& f.2.len() == 4 * (f.0 * f.1)
}

/// Channel `c` of pixel `(x, y)` of frame `f`.
pub open spec fn fchan(f: Frame, x: int, y: int, c: int) -> u8 {
    f.2[4 * (y * f.0 + x) + c]
}

/// Pixel `(x, y)` of frame `f` as an RGBA value.
pub open spec fn fpx(f: Frame, x: int, y: int) -> Rgba {
    Rgba {
        r: fchan(f, x, y, 0),
        g: fchan(f, x, y, 1),
        b: fchan(f, x, y, 2),
        a: fchan(f, x, y, 3),
    }
}

/// The all-zero (transparent black) frame of the given size.
pub open spec fn blank_frame(w: int, h: int) -> Frame {
    (w, h, Seq::new((4 * (w * h)) as nat, |i: int| 0u8))
}

impl Raster {
    /// The raster's byte buffer holds exactly its pixels.
    pub open spec fn wf(self) -> bool {
        frame_wf(self@)
    }

    /// Channel `c` of pixel `(x, y)`.
    pub open spec fn chan(self, x: int, y: int, c: int) -> u8 {
        fchan(self@, x, y, c)
    }

    /// Pixel `(x, y)` as an RGBA value.
    pub open spec fn px(self, x: int, y: int) -> Rgba {
        fpx(self@, x, y)
    }
}

/// A product of non-negative sides is non-negative, and vanishes exactly
/// when a side does.
pub proof fn lemma_size_nonneg(w: int, h: int)
    by (nonlinear_arith)
    requires
        w >= 0,
        h >= 0,
    ensures
        w * h >= 0,
        (w * h == 0) <==> (w == 0 || h == 0),
{
}

/// A frame no larger than another on both sides holds no more pixels.
pub proof fn lemma_size_le(w1: int, h1: int, w2: int, h2: int)
    by (nonlinear_arith)
    requires
        0 <= w1 <= w2,
        0 <= h1 <= h2,
    ensures
        w1 * h1 <= w2 * h2,
{
}

/// Row-major pixel order: a pixel that comes earlier (lower row, or same
/// row and lower column) has a strictly smaller linear index.
pub proof fn lemma_row_major_lt(w: int, x1: int, y1: int, x2: int, y2: int)
    by (nonlinear_arith)
    requires
        0 <= x1 < w,
        0 <= x2 < w,
        0 <= y1,
        0 <= y2,
        y1 < y2 || (y1 == y2 && x1 < x2),
    ensures
        y1 * w + x1 < y2 * w + x2,
{
}

/// Every in-bounds pixel has a linear index below the pixel count.
pub proof fn lemma_pixel_in_count(w: int, h: int, x: int, y: int)
    by (nonlinear_arith)
    requires
        0 <= x < w,
        0 <= y < h,
    ensures
        0 <= y * w,
        y * w + x < w * h,
        4 * (y * w + x) + 4 <= 4 * (w * h),
{
}

/// A byte index into a frame decomposes into a pixel index and a channel,
/// and the pixel index into a column and a row.
pub proof fn lemma_byte_index(w: int, h: int, i: int)
    requires
        w >= 0,
        h >= 0,
        0 <= i < 4 * (w * h),
    ensures
        0 <= i % 4 < 4,
        0 <= i / 4 < w * h,
        i == 4 * (i / 4) + i % 4,
        0 <= (i / 4) % w < w,
        0 <= (i / 4) / w < h,
        i / 4 == ((i / 4) / w) * w + (i / 4) % w,
{
    lemma_fundamental_div_mod(i, 4);
    lemma_mod_division_less_than_divisor(i, 4);
    lemma_div_pos_is_pos(i, 4);
    lemma_multiply_divide_lt(i, 4, w * h);
    lemma_size_nonneg(w, h);
    let p = i / 4;
    lemma_fundamental_div_mod(p, w);
    vstd::arithmetic::mul::lemma_mul_is_commutative(w, p / w);
    lemma_mod_division_less_than_divisor(p, w);
    lemma_div_pos_is_pos(p, w);
    lemma_multiply_divide_lt(p, w, h);
}

/// A buffer whose bytes follow a per-pixel channel rule, read off in
/// row-major order, equals the frame built from that rule.
pub proof fn lemma_bytes_to_frame(data: Seq<u8>, w: int, h: int, rule: spec_fn(int, int, int) -> u8)
    requires
        w >= 0,
        h >= 0,
        data.len() == 4 * (w * h),
        forall|pp: int, c: int|
            0 <= pp < w * h && 0 <= c < 4 ==> #[trigger] data[4 * pp + c] == rule(pp % w, pp / w, c),
    ensures
        data == Seq::new((4 * (w * h)) as nat, |i: int| rule((i / 4) % w, (i / 4) / w, i % 4)),
{
    let target = Seq::new((4 * (w * h)) as nat, |i: int| rule((i / 4) % w, (i / 4) / w, i % 4));
    assert forall|i: int| 0 <= i < data.len() implies data[i] == target[i] by {
        lemma_byte_index(w, h, i);
        assert(data[4 * (i / 4) + i % 4] == rule((i / 4) % w, (i / 4) / w, i % 4));
    }
    assert(data =~= target);
}

impl Raster {
    /// Read pixel `(x, y)`.
    pub fn get_px(&self, x: u32, y: u32) -> (p: Rgba)
        requires
            self.wf(),
            x < self.width,
            y < self.height,
        ensures
            p == self.px(x as int, y as int),
    {
        proof {
            lemma_pixel_in_count(self.width as int, self.height as int, x as int, y as int);
        }
        let n: usize = self.data.len();
        let base: usize = 4 * (y as usize * self.width as usize + x as usize);
        assert(base + 4 <= n);
        Rgba {
            r: self.data[base],
            g: self.data[base + 1],
            b: self.data[base + 2],
            a: self.data[base + 3],
        }
    }

    /// A fresh raster of the given size with every byte zero, as
    /// `image` initializes a new buffer.
    pub fn blank(w: u32, h: u32) -> (r: Raster)
        requires
            4 * ((w as int) * (h as int)) <= usize::MAX,
        ensures
            r.wf(),
            r@ == blank_frame(w as int, h as int),
    {
        proof {
            lemma_size_nonneg(w as int, h as int);
        }
        let count: usize = w as usize * h as usize;
        let mut data: Vec<u8> = Vec::new();
        let mut p: usize = 0;
        while p < count
            invariant
                count == (w as int) * (h as int),
                p <= count,
                data@.len() == 4 * p,
                forall|j: int| 0 <= j < data@.len() ==> data@[j] == 0u8,
            decreases count - p,
        {
            data.push(0);
            data.push(0);
            data.push(0);
            data.push(0);
            p = p + 1;
        }
        let r = Raster { width: w, height: h, data };
        proof {
            assert(r@.2 =~= blank_frame(w as int, h as int).2);
        }
        r
    }
}

/// Append one pixel to a buffer under construction.
pub fn push_px(data: &mut Vec<u8>, p: Rgba)
    ensures
        final(data)@ == old(data)@ + seq![p.r, p.g, p.b, p.a],
{
    data.push(p.r);
    data.push(p.g);
    data.push(p.b);
    data.push(p.a);
    assert(data@ =~= old(data)@ + seq![p.r, p.g, p.b, p.a]);
}

} // verus!
