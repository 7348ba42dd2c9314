//! Quadrant slicing and uniform resize: a source raster is partitioned
//! into four equal quadrants (any odd trailing row or column is dropped),
//! and a set of quadrants can be rescaled to a uniform square size by
//! nearest-neighbor sampling.

use vstd::prelude::*;
use vstd::arithmetic::div_mod::{
    lemma_div_pos_is_pos, lemma_fundamental_div_mod, lemma_fundamental_div_mod_converse_div,
    lemma_fundamental_div_mod_converse_mod, lemma_mod_division_less_than_divisor,
    lemma_multiply_divide_lt,
};
use vstd::arithmetic::mul::{lemma_mul_basics, lemma_mul_is_commutative};
use crate::raster::{
    fchan, fpx, frame_wf, lemma_bytes_to_frame, lemma_pixel_in_count, lemma_size_le,
    lemma_size_nonneg, push_px, Frame, Raster,
};

verus! {

/// The size of one quadrant of a source image: each side is half the
/// source side, rounded down.
#[derive(Clone, Copy, PartialEq, Eq, Structural, Debug)]
pub struct Dimension {
    pub height: u32,
    pub width: u32,
    pub smallest: u32,
}

impl Dimension {
    /// The dimension that belongs to a source frame.
    pub open spec fn spec_of(f: Frame) -> Dimension {
        Dimension {
            height: (f.1 / 2) as u32,
            width: (f.0 / 2) as u32,
            smallest: if f.0 / 2 <= f.1 / 2 { (f.0 / 2) as u32 } else { (f.1 / 2) as u32 },
        }
    }
}

/// Quadrant width and height are the floored halves of the source sides;
/// `smallest` is the lesser of the two.
pub fn get_single_image_dimensions(img: &Raster) -> (d: Dimension)
    ensures
        d == Dimension::spec_of(img@),
        d.width == img.width as int / 2,
        d.height == img.height as int / 2,
        d.smallest == if d.width <= d.height { d.width } else { d.height },
{
    let h = img.height / 2;
    let w = img.width / 2;
    Dimension { height: h, width: w, smallest: if w <= h { w } else { h } }
}

/// Exactly four independently owned pixel buffers, indexed 0..3 in
/// row-major order: index = row * 2 + col, row = y-half, col = x-half.
pub struct QuadrantSet {
    pub top_left: Raster,
    pub top_right: Raster,
    pub bottom_left: Raster,
    pub bottom_right: Raster,
}

impl QuadrantSet {
    /// The quadrant at index `i` (row-major: `i == row * 2 + col`).
    pub open spec fn quadrant(self, i: int) -> Raster {
        if i == 0 {
            self.top_left
        } else if i == 1 {
            self.top_right
        } else if i == 2 {
            self.bottom_left
        } else {
            self.bottom_right
        }
    }

    pub open spec fn wf(self) -> bool {
        &&& self.top_left.wf()
        &&& self.top_right.wf()
        &&& self.bottom_left.wf()
        &&& self.bottom_right.wf()
    }

    /// All four quadrants share one width and height.
    pub open spec fn uniform(self, w: int, h: int) -> bool {
        forall|i: int| 0 <= i < 4 ==> (#[trigger] self.quadrant(i))@.0 == w
            && self.quadrant(i)@.1 == h
    }
}

/// The frame cut from `src` at offset `(ox, oy)` with size `w` by `h`.
pub open spec fn quadrant_frame(src: Frame, w: int, h: int, ox: int, oy: int) -> Frame {
    (
        w,
        h,
        Seq::new((4 * (w * h)) as nat, |i: int| fchan(src, ox + (i / 4) % w, oy + (i / 4) / w, i % 4)),
    )
}

/// The frame sampled from `src` at size `w` by `h` by nearest neighbor:
/// destination pixel `(x, y)` takes source pixel
/// `(x * srcW / w, y * srcH / h)`.
pub open spec fn resized_frame(src: Frame, w: int, h: int) -> Frame {
    (
        w,
        h,
        Seq::new(
            (4 * (w * h)) as nat,
            |i: int| fchan(src, ((i / 4) % w) * src.0 / w, ((i / 4) / w) * src.1 / h, i % 4),
        ),
    )
}

/// Four blank buffers of one size, ready to receive quadrants.
pub fn initialize_output(w: u32, h: u32) -> (out: QuadrantSet)
    requires
        4 * ((w as int) * (h as int)) <= usize::MAX,
    ensures
        out.wf(),
        forall|i: int| 0 <= i < 4 ==> (#[trigger] out.quadrant(i))@ == crate::raster::blank_frame(
            w as int, h as int),
{
    let out = QuadrantSet {
        top_left: Raster::blank(w, h),
        top_right: Raster::blank(w, h),
        bottom_left: Raster::blank(w, h),
        bottom_right: Raster::blank(w, h),
    };
    assert forall|i: int| 0 <= i < 4 implies (#[trigger] out.quadrant(i))@
        == crate::raster::blank_frame(w as int, h as int) by {
    }
    out
}

/// Copy the axis-aligned rectangle `[ox, ox+w) x [oy, oy+h)` out of `src`
/// into a fresh buffer.
fn copy_region(src: &Raster, ox: u32, oy: u32, w: u32, h: u32) -> (r: Raster)
    requires
        src.wf(),
        ox + w <= src.width,
        oy + h <= src.height,
    ensures
        r.wf(),
        r@ == quadrant_frame(src@, w as int, h as int, ox as int, oy as int),
{
    proof {
        lemma_size_nonneg(w as int, h as int);
        lemma_size_le(w as int, h as int, src.width as int, src.height as int);
    }
    let _src_bytes: usize = src.data.len();
    let count: usize = w as usize * h as usize;
    let mut data: Vec<u8> = Vec::new();
    let mut p: usize = 0;
    while p < count
        invariant
            src.wf(),
            ox + w <= src.width,
            oy + h <= src.height,
            count == (w as int) * (h as int),
            p <= count,
            data@.len() == 4 * p,
            forall|pp: int, c: int|
                0 <= pp < p && 0 <= c < 4 ==> #[trigger] data@[4 * pp + c] == fchan(
                    src@, ox + pp % (w as int), oy + pp / (w as int), c),
        decreases count - p,
    {
        proof {
            lemma_size_nonneg(w as int, h as int);
            lemma_multiply_divide_lt(p as int, w as int, h as int);
        }
        let x: u32 = (p % w as usize) as u32;
        let y: u32 = (p / w as usize) as u32;
        let px = src.get_px(ox + x, oy + y);
        let ghost pre = data@;
        push_px(&mut data, px);
        proof {
            assert forall|pp: int, c: int| 0 <= pp < p + 1 && 0 <= c < 4 implies #[trigger] data@[4
                * pp + c] == fchan(src@, ox + pp % (w as int), oy + pp / (w as int), c) by {
                if pp < p {
                    assert(data@[4 * pp + c] == pre[4 * pp + c]);
                } else {
                    assert(px == fpx(src@, ox + x, oy + y));
                }
            }
        }
        p = p + 1;
    }
    proof {
        lemma_bytes_to_frame(
            data@,
            w as int,
            h as int,
            |x: int, y: int, c: int| fchan(src@, ox + x, oy + y, c),
        );
    }
    let r = Raster { width: w, height: h, data };
    proof {
        assert(r@.2 =~= quadrant_frame(src@, w as int, h as int, ox as int, oy as int).2);
    }
    r
}

/// Split `img` into its four quadrants of size `new_img_size`. The
/// quadrants tile the top-left `2w` by `2h` region of the source; any
/// leftover row or column of an odd-sized source is dropped.
pub fn slice_images_view(img: &Raster, new_img_size: &Dimension) -> (out: QuadrantSet)
    requires
        img.wf(),
        2 * (new_img_size.width as int) <= img.width as int,
        2 * (new_img_size.height as int) <= img.height as int,
    ensures
        out.wf(),
        out.top_left@ == quadrant_frame(
            img@, new_img_size.width as int, new_img_size.height as int, 0, 0),
        out.top_right@ == quadrant_frame(
            img@,
            new_img_size.width as int,
            new_img_size.height as int,
            new_img_size.width as int,
            0,
        ),
        out.bottom_left@ == quadrant_frame(
            img@,
            new_img_size.width as int,
            new_img_size.height as int,
            0,
            new_img_size.height as int,
        ),
        out.bottom_right@ == quadrant_frame(
            img@,
            new_img_size.width as int,
            new_img_size.height as int,
            new_img_size.width as int,
            new_img_size.height as int,
        ),
{
    let w = new_img_size.width;
    let h = new_img_size.height;
    let out = QuadrantSet {
        top_left: copy_region(img, 0, 0, w, h),
        top_right: copy_region(img, w, 0, w, h),
        bottom_left: copy_region(img, 0, h, w, h),
        bottom_right: copy_region(img, w, h, w, h),
    };
    out
}

/// Nearest-neighbor sampling stays inside the source.
proof fn lemma_nn_in_bounds(x: int, s: int, d: int)
    by (nonlinear_arith)
    requires
        0 <= x < d,
        0 < s,
    ensures
        x * s < d * s,
{
}

/// A product of two 32-bit values fits in 64 bits.
proof fn lemma_u32_mul_fits(a: int, b: int)
    by (nonlinear_arith)
    requires
        0 <= a < 0x1_0000_0000,
        0 <= b < 0x1_0000_0000,
    ensures
        0 <= a * b <= 0xffff_fffe_0000_0001,
{
}

/// Rescale `src` to `w` by `h` by nearest-neighbor sampling.
pub fn resize_raster(src: &Raster, w: u32, h: u32) -> (r: Raster)
    requires
        src.wf(),
        src.width > 0,
        src.height > 0,
        4 * ((w as int) * (h as int)) <= usize::MAX,
    ensures
        r.wf(),
        r@ == resized_frame(src@, w as int, h as int),
{
    proof {
        lemma_size_nonneg(w as int, h as int);
    }
    let sw = src.width;
    let sh = src.height;
    let count: usize = w as usize * h as usize;
    let mut data: Vec<u8> = Vec::new();
    let mut p: usize = 0;
    while p < count
        invariant
            src.wf(),
            sw == src.width,
            sh == src.height,
            sw > 0,
            sh > 0,
            count == (w as int) * (h as int),
            p <= count,
            data@.len() == 4 * p,
            forall|pp: int, c: int|
                0 <= pp < p && 0 <= c < 4 ==> #[trigger] data@[4 * pp + c] == fchan(
                    src@,
                    (pp % (w as int)) * sw as int / (w as int),
                    (pp / (w as int)) * sh as int / (h as int),
                    c,
                ),
        decreases count - p,
    {
        proof {
            lemma_size_nonneg(w as int, h as int);
            lemma_multiply_divide_lt(p as int, w as int, h as int);
        }
        let x: u32 = (p % w as usize) as u32;
        let y: u32 = (p / w as usize) as u32;
        proof {
            lemma_u32_mul_fits(x as int, sw as int);
            lemma_u32_mul_fits(y as int, sh as int);
            lemma_nn_in_bounds(x as int, sw as int, w as int);
            lemma_nn_in_bounds(y as int, sh as int, h as int);
            lemma_multiply_divide_lt(x as int * sw as int, w as int, sw as int);
            lemma_multiply_divide_lt(y as int * sh as int, h as int, sh as int);
            lemma_div_pos_is_pos(x as int * sw as int, w as int);
            lemma_div_pos_is_pos(y as int * sh as int, h as int);
            vstd::arithmetic::mul::lemma_mul_nonnegative(x as int, sw as int);
            vstd::arithmetic::mul::lemma_mul_nonnegative(y as int, sh as int);
        }
        let sx: u32 = (x as u64 * sw as u64 / w as u64) as u32;
        let sy: u32 = (y as u64 * sh as u64 / h as u64) as u32;
        let px = src.get_px(sx, sy);
        let ghost pre = data@;
        push_px(&mut data, px);
        proof {
            assert forall|pp: int, c: int| 0 <= pp < p + 1 && 0 <= c < 4 implies #[trigger] data@[4
                * pp + c] == fchan(
                src@,
                (pp % (w as int)) * sw as int / (w as int),
                (pp / (w as int)) * sh as int / (h as int),
                c,
            ) by {
                if pp < p {
                    assert(data@[4 * pp + c] == pre[4 * pp + c]);
                } else {
                    assert(px == fpx(src@, sx as int, sy as int));
                }
            }
        }
        p = p + 1;
    }
    proof {
        lemma_bytes_to_frame(
            data@,
            w as int,
            h as int,
            |x: int, y: int, c: int| fchan(
                src@,
                x * src.width as int / (w as int),
                y * src.height as int / (h as int),
                c,
            ),
        );
    }
    let r = Raster { width: w, height: h, data };
    proof {
        assert(r@.2 =~= resized_frame(src@, w as int, h as int).2);
    }
    r
}

/// Rescale all four quadrants to one square size, nearest neighbor.
pub fn resize(images: QuadrantSet, size: u32) -> (out: QuadrantSet)
    requires
        images.wf(),
        size > 0,
        forall|i: int| 0 <= i < 4 ==> (#[trigger] images.quadrant(i))@.0 > 0
            && images.quadrant(i)@.1 > 0,
        4 * ((size as int) * (size as int)) <= usize::MAX,
    ensures
        out.wf(),
        forall|i: int| 0 <= i < 4 ==> (#[trigger] out.quadrant(i))@ == resized_frame(
            images.quadrant(i)@, size as int, size as int),
{
    assert(images.quadrant(0) == images.top_left);
    assert(images.quadrant(1) == images.top_right);
    assert(images.quadrant(2) == images.bottom_left);
    assert(images.quadrant(3) == images.bottom_right);
    let out = QuadrantSet {
        top_left: resize_raster(&images.top_left, size, size),
        top_right: resize_raster(&images.top_right, size, size),
        bottom_left: resize_raster(&images.bottom_left, size, size),
        bottom_right: resize_raster(&images.bottom_right, size, size),
    };
    assert forall|i: int| 0 <= i < 4 implies (#[trigger] out.quadrant(i))@ == resized_frame(
        images.quadrant(i)@, size as int, size as int) by {
    }
    out
}


/// The four quadrants of an even-sided source tile it exactly: pixel
/// `(x, y)` of the source appears at position `(x % qw, y % qh)` of the
/// quadrant with column `x / qw` and row `y / qh`, and nowhere else, so
/// reading the quadrants back reconstructs the source bit for bit with
/// no overlap and no gap.
pub proof fn lemma_quadrants_tile_source(src: Frame, x: int, y: int, c: int)
    requires
        frame_wf(src),
        src.0 == 2 * (src.0 / 2),
        src.1 == 2 * (src.1 / 2),
        0 <= x < src.0,
        0 <= y < src.1,
        0 <= c < 4,
    ensures
        ({
            let qw = src.0 / 2;
            let qh = src.1 / 2;
            let col = x / qw;
            let row = y / qh;
            &&& 0 <= col < 2
            &&& 0 <= row < 2
            &&& fchan(quadrant_frame(src, qw, qh, col * qw, row * qh), x % qw, y % qh, c) == fchan(
                src, x, y, c)
        }),
{
    let qw = src.0 / 2;
    let qh = src.1 / 2;
    let col = x / qw;
    let row = y / qh;
    lemma_multiply_divide_lt(x, qw, 2);
    lemma_multiply_divide_lt(y, qh, 2);
    lemma_div_pos_is_pos(x, qw);
    lemma_div_pos_is_pos(y, qh);
    let u = x % qw;
    let v = y % qh;
    lemma_mod_division_less_than_divisor(x, qw);
    lemma_mod_division_less_than_divisor(y, qh);
    lemma_pixel_in_count(qw, qh, u, v);
    let idx = 4 * (v * qw + u) + c;
    lemma_fundamental_div_mod_converse_div(idx, 4, v * qw + u, c);
    lemma_fundamental_div_mod_converse_mod(idx, 4, v * qw + u, c);
    lemma_fundamental_div_mod_converse_div(v * qw + u, qw, v, u);
    lemma_fundamental_div_mod_converse_mod(v * qw + u, qw, v, u);
    lemma_fundamental_div_mod(x, qw);
    lemma_fundamental_div_mod(y, qh);
    lemma_mul_is_commutative(qw, col);
    lemma_mul_is_commutative(qh, row);
}

/// The quadrant-set form of the tiling law: for a source with even sides
/// whose four quadrants were extracted as `slice_images_view` promises,
/// every source pixel is recovered from the quadrant at index
/// `row * 2 + col`.
pub proof fn lemma_slice_reconstructs_source(
    img: Frame,
    qs: QuadrantSet,
    x: int,
    y: int,
    c: int,
)
    requires
        frame_wf(img),
        img.0 == 2 * (img.0 / 2),
        img.1 == 2 * (img.1 / 2),
        qs.top_left@ == quadrant_frame(img, img.0 / 2, img.1 / 2, 0, 0),
        qs.top_right@ == quadrant_frame(img, img.0 / 2, img.1 / 2, img.0 / 2, 0),
        qs.bottom_left@ == quadrant_frame(img, img.0 / 2, img.1 / 2, 0, img.1 / 2),
        qs.bottom_right@ == quadrant_frame(img, img.0 / 2, img.1 / 2, img.0 / 2, img.1 / 2),
        0 <= x < img.0,
        0 <= y < img.1,
        0 <= c < 4,
    ensures
        ({
            let qw = img.0 / 2;
            let qh = img.1 / 2;
            let col = x / qw;
            let row = y / qh;
            fchan(qs.quadrant(row * 2 + col)@, x % qw, y % qh, c) == fchan(img, x, y, c)
        }),
{
    let qw = img.0 / 2;
    let qh = img.1 / 2;
    let col = x / qw;
    let row = y / qh;
    lemma_quadrants_tile_source(img, x, y, c);
    lemma_mul_basics(qw);
    lemma_mul_basics(qh);
    if col == 0 && row == 0 {
        assert(col * qw == 0 * qw && row * qh == 0 * qh);
        assert(qs.quadrant(row * 2 + col) == qs.top_left);
    } else if col == 1 && row == 0 {
        assert(col * qw == 1 * qw && row * qh == 0 * qh);
        assert(qs.quadrant(row * 2 + col) == qs.top_right);
    } else if col == 0 && row == 1 {
        assert(col * qw == 0 * qw && row * qh == 1 * qh);
        assert(qs.quadrant(row * 2 + col) == qs.bottom_left);
    } else {
        assert(col * qw == 1 * qw && row * qh == 1 * qh);
        assert(qs.quadrant(row * 2 + col) == qs.bottom_right);
    }
}

/// Extraction is deterministic: two runs of `slice_images_view` on the
/// same source and dimension yield byte-identical quadrant buffers,
/// because the slicing contract pins every byte of every quadrant.
pub proof fn lemma_extraction_idempotent(img: Frame, d: Dimension, a: QuadrantSet, b: QuadrantSet)
    requires
        a.top_left@ == quadrant_frame(img, d.width as int, d.height as int, 0, 0),
        a.top_right@ == quadrant_frame(img, d.width as int, d.height as int, d.width as int, 0),
        a.bottom_left@ == quadrant_frame(img, d.width as int, d.height as int, 0, d.height as int),
        a.bottom_right@ == quadrant_frame(
            img, d.width as int, d.height as int, d.width as int, d.height as int),
        b.top_left@ == quadrant_frame(img, d.width as int, d.height as int, 0, 0),
        b.top_right@ == quadrant_frame(img, d.width as int, d.height as int, d.width as int, 0),
        b.bottom_left@ == quadrant_frame(img, d.width as int, d.height as int, 0, d.height as int),
        b.bottom_right@ == quadrant_frame(
            img, d.width as int, d.height as int, d.width as int, d.height as int),
    ensures
        a.top_left@ == b.top_left@,
        a.top_right@ == b.top_right@,
        a.bottom_left@ == b.bottom_left@,
        a.bottom_right@ == b.bottom_right@,
{
}

} // verus!
