//! Watermark compositing: a greyscale-alpha watermark bitmap is first
//! rescaled to the target quadrant's extent, then alpha-blended onto the
//! quadrant, centered. The blend works in exact hundredths: a requested
//! transparency of `t` percent is floored at 50 percent, and with
//! `e = max(t, 50)` each colour channel becomes
//! `((100 - e) * 100 * dst + e * e * wm) / 10000` (the exact integer form
//! of `a1 * dst + a2 * wm * (1 - a1)` with `a2 = e / 100`, `a1 = 1 - a2`),
//! while the alpha channel becomes `((100 - e) * 100 + e * e) * 255 / 10000`.

use vstd::prelude::*;
use vstd::arithmetic::div_mod::lemma_multiply_divide_lt;
use crate::image_slicer::resized_frame;
use crate::raster::{
    blank_frame, fchan, fpx, lemma_bytes_to_frame, lemma_size_nonneg, push_px, Frame, Raster,
};

verus! {

/// The blend weight actually used for a requested transparency of `t`
/// percent: never below fifty percent.
pub open spec fn effective_pct(t: u16) -> int {
    if t < 50 {
        50
    } else {
        t as int
    }
}

/// One blended colour channel, in exact hundredths: with weight `e` out
/// of 100, `dst` keeps `(100 - e) / 100` and the watermark contributes
/// `e / 100` of itself weighted by `e / 100` of the remainder.
pub open spec fn blend_chan_val(e: int, d: u8, wmc: u8) -> int {
    ((100 - e) * 100 * (d as int) + e * e * (wmc as int)) / 10000
}

/// The blended alpha channel: the combined coverage of base and
/// watermark, scaled to a byte.
pub open spec fn blend_alpha_val(e: int) -> int {
    (((100 - e) * 100 + e * e) * 255) / 10000
}

/// Channel `c` of pixel `(x, y)` after blending `wm` onto `dst`,
/// centered; where the watermark exceeds the target it is clipped to the
/// centered overlap.
pub open spec fn blended_chan(dst: Frame, wm: Frame, t: u16, x: int, y: int, c: int) -> u8 {
    let e = effective_pct(t);
    let ow = if wm.0 <= dst.0 { wm.0 } else { dst.0 };
    let oh = if wm.1 <= dst.1 { wm.1 } else { dst.1 };
    let dx0 = (dst.0 - ow) / 2;
    let dy0 = (dst.1 - oh) / 2;
    let wx0 = (wm.0 - ow) / 2;
    let wy0 = (wm.1 - oh) / 2;
    if dx0 <= x < dx0 + ow && dy0 <= y < dy0 + oh {
        if c == 3 {
            blend_alpha_val(e) as u8
        } else {
            blend_chan_val(e, fchan(dst, x, y, c), fchan(wm, x - dx0 + wx0, y - dy0 + wy0, c)) as u8
        }
    } else {
        fchan(dst, x, y, c)
    }
}

/// The frame that blending `wm` onto `dst` with transparency `t` yields.
pub open spec fn blended_frame(dst: Frame, wm: Frame, t: u16) -> Frame {
    (
        dst.0,
        dst.1,
        Seq::new(
            (4 * (dst.0 * dst.1)) as nat,
            |i: int| blended_chan(dst, wm, t, (i / 4) % dst.0, (i / 4) / dst.0, i % 4),
        ),
    )
}

/// Bounds of the exact blend arithmetic: every intermediate fits well
/// inside 32 bits and the quotients fit in a byte.
proof fn lemma_blend_bounds(e: int, d: int, wmc: int)
    by (nonlinear_arith)
    requires
        50 <= e <= 100,
        0 <= d <= 255,
        0 <= wmc <= 255,
    ensures
        0 <= (100 - e) * 100 * d <= 1275000,
        0 <= e * e * wmc <= 2550000,
        (100 - e) * 100 * d + e * e * wmc <= 2550000,
        0 <= (100 - e) * 100 + e * e <= 10000,
{
}

/// Blend `watermark` onto `img`, centered, with the given transparency
/// percentage (floored at 50), and return the blended buffer.
pub fn add_watermark(img: Raster, watermark: &Raster, transparency: u16) -> (r: Raster)
    requires
        img.wf(),
        watermark.wf(),
        transparency <= 100,
    ensures
        r.wf(),
        r@ == blended_frame(img@, watermark@, transparency),
{
    proof {
        lemma_size_nonneg(img.width as int, img.height as int);
    }
    let w = img.width;
    let h = img.height;
    let e: u32 = if transparency < 50 {
        50
    } else {
        transparency as u32
    };
    let ow: u32 = if watermark.width <= w {
        watermark.width
    } else {
        w
    };
    let oh: u32 = if watermark.height <= h {
        watermark.height
    } else {
        h
    };
    let dx0: u32 = (w - ow) / 2;
    let dy0: u32 = (h - oh) / 2;
    let wx0: u32 = (watermark.width - ow) / 2;
    let wy0: u32 = (watermark.height - oh) / 2;
    let _img_bytes: usize = img.data.len();
    let count: usize = w as usize * h as usize;
    let mut data: Vec<u8> = Vec::new();
    let mut p: usize = 0;
    while p < count
        invariant
            img.wf(),
            watermark.wf(),
            w == img.width,
            h == img.height,
            transparency <= 100,
            e == effective_pct(transparency),
            ow == if watermark@.0 <= w as int { watermark@.0 } else { w as int },
            oh == if watermark@.1 <= h as int { watermark@.1 } else { h as int },
            dx0 == (w as int - ow as int) / 2,
            dy0 == (h as int - oh as int) / 2,
            wx0 == (watermark@.0 - ow as int) / 2,
            wy0 == (watermark@.1 - oh as int) / 2,
            count == (w as int) * (h as int),
            p <= count,
            data@.len() == 4 * p,
            forall|pp: int, c: int|
                0 <= pp < p && 0 <= c < 4 ==> #[trigger] data@[4 * pp + c] == blended_chan(
                    img@, watermark@, transparency, pp % (w as int), pp / (w as int), c),
        decreases count - p,
    {
        proof {
            lemma_size_nonneg(w as int, h as int);
            lemma_multiply_divide_lt(p as int, w as int, h as int);
        }
        let x: u32 = (p % w as usize) as u32;
        let y: u32 = (p / w as usize) as u32;
        let dpx = img.get_px(x, y);
        let px: crate::raster::Rgba;
        if x >= dx0 && x < dx0 + ow && y >= dy0 && y < dy0 + oh {
            let wpx = watermark.get_px(x - dx0 + wx0, y - dy0 + wy0);
            proof {
                lemma_blend_bounds(e as int, dpx.r as int, wpx.r as int);
                lemma_blend_bounds(e as int, dpx.g as int, wpx.g as int);
                lemma_blend_bounds(e as int, dpx.b as int, wpx.b as int);
            }
            let vr: u32 = ((100 - e) * 100 * (dpx.r as u32) + e * e * (wpx.r as u32)) / 10000;
            let vg: u32 = ((100 - e) * 100 * (dpx.g as u32) + e * e * (wpx.g as u32)) / 10000;
            let vb: u32 = ((100 - e) * 100 * (dpx.b as u32) + e * e * (wpx.b as u32)) / 10000;
            let va: u32 = (((100 - e) * 100 + e * e) * 255) / 10000;
            px = crate::raster::Rgba { r: vr as u8, g: vg as u8, b: vb as u8, a: va as u8 };
        } else {
            px = dpx;
        }
        let ghost pre = data@;
        push_px(&mut data, px);
        proof {
            assert forall|pp: int, c: int| 0 <= pp < p + 1 && 0 <= c < 4 implies #[trigger] data@[4
                * pp + c] == blended_chan(
                img@, watermark@, transparency, pp % (w as int), pp / (w as int), c) by {
                if pp < p {
                    assert(data@[4 * pp + c] == pre[4 * pp + c]);
                } else {
                    assert(dpx == fpx(img@, x as int, y as int));
                }
            }
        }
        p = p + 1;
    }
    proof {
        lemma_bytes_to_frame(
            data@,
            w as int,
            h as int,
            |x: int, y: int, c: int| blended_chan(img@, watermark@, transparency, x, y, c),
        );
    }
    let r = Raster { width: w, height: h, data };
    proof {
        assert(r@.2 =~= blended_frame(img@, watermark@, transparency).2);
    }
    r
}

/// Fit a rasterized glyph bitmap to the target extent by nearest-neighbor
/// sampling; an empty glyph bitmap stays empty, so that compositing it
/// leaves the target untouched.
pub fn create_watermark(glyphs: &Raster, size: (u32, u32)) -> (r: Raster)
    requires
        glyphs.wf(),
        4 * ((size.0 as int) * (size.1 as int)) <= usize::MAX,
    ensures
        r.wf(),
        glyphs.width > 0 && glyphs.height > 0 ==> r@ == resized_frame(
            glyphs@, size.0 as int, size.1 as int),
        !(glyphs.width > 0 && glyphs.height > 0) ==> r@ == blank_frame(0, 0),
{
    if glyphs.width > 0 && glyphs.height > 0 {
        crate::image_slicer::resize_raster(glyphs, size.0, size.1)
    } else {
        Raster::blank(0, 0)
    }
}

/// A transparency request below fifty percent blends exactly as fifty
/// percent does: the effective weight is floored, never the raw request.
pub proof fn lemma_transparency_floor(dst: Frame, wm: Frame, t: u16)
    requires
        t < 50,
    ensures
        effective_pct(t) == 50,
        blended_frame(dst, wm, t) == blended_frame(dst, wm, 50u16),
{
    assert forall|i: int| 0 <= i < blended_frame(dst, wm, t).2.len() implies blended_frame(
        dst, wm, t).2[i] == blended_frame(dst, wm, 50u16).2[i] by {
    }
    assert(blended_frame(dst, wm, t).2 =~= blended_frame(dst, wm, 50u16).2);
}

/// Centering within integer-floor tolerance: when the watermark fits
/// inside the target on an axis, the leading margin `(qw - ww) / 2` and
/// the trailing margin differ by at most one pixel.
pub proof fn lemma_watermark_centered(qw: int, ww: int)
    requires
        0 <= ww <= qw,
    ensures
        ({
            let leading = (qw - ww) / 2;
            let trailing = qw - ww - leading;
            leading <= trailing <= leading + 1
        }),
{
}

} // verus!
