//! The request pipeline: decode, compute the quadrant dimension, extract
//! the quadrants, optionally blend a watermark bitmap onto each, optionally
//! rescale them to a uniform square size, and encode the four results as
//! PNG. Strictly linear, no retries; a failure at any stage short-circuits
//! and no partial output is ever produced.

use vstd::prelude::*;
use crate::codec::{
    decoded_rgba, encode_quadrants, load_from_bytes, png_of, SliceError,
};
use crate::image_slicer::{
    get_single_image_dimensions, quadrant_frame, resize, resized_frame, slice_images_view,
    QuadrantSet,
};
use crate::raster::{blank_frame, lemma_size_le, Frame, Raster};
use crate::watermark::{add_watermark, blended_frame, create_watermark};

verus! {

/// Where a request's image comes from: a remote URL (fetched by the
/// caller), inline binary, or a base64 string.
pub enum ImageSource {
    Url(String),
    Binary(Vec<u8>),
    Base64(String),
}

/// The decision for a JSON payload: an image URL wins, else a base64
/// string, else the request carries no source.
pub fn source_from_payload(image_url: Option<String>, image_base64: Option<String>) -> (r: Result<
    ImageSource,
    SliceError,
>)
    ensures
        image_url matches Some(u) ==> (r matches Ok(s) && s == ImageSource::Url(u)),
        image_base64 matches Some(b) ==> (image_url is None ==> (r matches Ok(s) && s
            == ImageSource::Base64(b))),
        image_url is None && image_base64 is None ==> (r matches Err(e) && e is MissingSource),
{
    match image_url {
        Some(u) => Ok(ImageSource::Url(u)),
        None => match image_base64 {
            Some(b) => Ok(ImageSource::Base64(b)),
            None => Err(SliceError::MissingSource),
        },
    }
}

/// The x offset of quadrant `i` in the source: the right half for odd
/// indices.
pub open spec fn quadrant_origin_x(src: Frame, i: int) -> int {
    if i == 1 || i == 3 {
        src.0 / 2
    } else {
        0
    }
}

/// The y offset of quadrant `i` in the source: the bottom half for
/// indices 2 and 3.
pub open spec fn quadrant_origin_y(src: Frame, i: int) -> int {
    if i == 2 || i == 3 {
        src.1 / 2
    } else {
        0
    }
}

/// The lesser quadrant side of a source frame.
pub open spec fn smallest_side(src: Frame) -> int {
    if src.0 / 2 <= src.1 / 2 {
        src.0 / 2
    } else {
        src.1 / 2
    }
}

/// Whether a requested square size triggers the resize stage: only a
/// size strictly between zero and the lesser quadrant side does.
pub open spec fn resize_applies(src: Frame, scale_px: u32) -> bool {
    0 < scale_px && (scale_px as int) < smallest_side(src)
}

/// Quadrant `i` of `src` after slicing and the optional resize.
pub open spec fn sliced_quadrant(src: Frame, scale_px: u32, i: int) -> Frame {
    let base = quadrant_frame(
        src,
        src.0 / 2,
        src.1 / 2,
        quadrant_origin_x(src, i),
        quadrant_origin_y(src, i),
    );
    if resize_applies(src, scale_px) {
        resized_frame(base, scale_px as int, scale_px as int)
    } else {
        base
    }
}

/// The watermark bitmap fitted to the quadrant extent; an empty bitmap
/// stays empty.
pub open spec fn fitted_watermark(wm: Frame, qw: int, qh: int) -> Frame {
    if wm.0 > 0 && wm.1 > 0 {
        resized_frame(wm, qw, qh)
    } else {
        blank_frame(0, 0)
    }
}

/// Quadrant `i` of `src` after slicing, watermarking and the optional
/// resize.
pub open spec fn watermarked_quadrant(src: Frame, scale_px: u32, wm: Frame, t: u16, i: int) -> Frame {
    let qw = src.0 / 2;
    let qh = src.1 / 2;
    let base = quadrant_frame(src, qw, qh, quadrant_origin_x(src, i), quadrant_origin_y(src, i));
    let marked = blended_frame(base, fitted_watermark(wm, qw, qh), t);
    if resize_applies(src, scale_px) {
        resized_frame(marked, scale_px as int, scale_px as int)
    } else {
        marked
    }
}

/// Slice a decoded raster into its four quadrants; rescale them to
/// `scale_px` square exactly when `0 < scale_px < smallest`.
pub fn slice(img: &Raster, scale_px: u32) -> (out: QuadrantSet)
    requires
        img.wf(),
    ensures
        out.wf(),
        forall|i: int| 0 <= i < 4 ==> (#[trigger] out.quadrant(i))@ == sliced_quadrant(
            img@, scale_px, i),
        resize_applies(img@, scale_px) ==> out.uniform(scale_px as int, scale_px as int),
        !resize_applies(img@, scale_px) ==> out.uniform(img@.0 / 2, img@.1 / 2),
{
    let single_img_size = get_single_image_dimensions(img);
    let sliced = slice_images_view(img, &single_img_size);
    let _quad_bytes: usize = sliced.top_left.data.len();
    proof {
        assert(sliced.quadrant(0) == sliced.top_left);
        assert(sliced.quadrant(1) == sliced.top_right);
        assert(sliced.quadrant(2) == sliced.bottom_left);
        assert(sliced.quadrant(3) == sliced.bottom_right);
    }
    if scale_px > 0 && scale_px < single_img_size.smallest {
        proof {
            lemma_size_le(
                scale_px as int,
                scale_px as int,
                single_img_size.width as int,
                single_img_size.height as int,
            );
        }
        let out = resize(sliced, scale_px);
        proof {
            assert forall|i: int| 0 <= i < 4 implies (#[trigger] out.quadrant(i))@
                == sliced_quadrant(img@, scale_px, i) by {
            }
            assert(out.uniform(scale_px as int, scale_px as int));
        }
        out
    } else {
        proof {
            assert forall|i: int| 0 <= i < 4 implies (#[trigger] sliced.quadrant(i))@
                == sliced_quadrant(img@, scale_px, i) by {
            }
            assert(sliced.uniform(img@.0 / 2, img@.1 / 2));
        }
        sliced
    }
}

/// Slice a decoded raster, blend the watermark bitmap (fitted to the
/// quadrant extent) onto each quadrant, then optionally rescale.
pub fn slice_with_watermark(
    img: &Raster,
    scale_px: u32,
    watermark: &Raster,
    transparency: u16,
) -> (out: QuadrantSet)
    requires
        img.wf(),
        watermark.wf(),
        transparency <= 100,
    ensures
        out.wf(),
        forall|i: int| 0 <= i < 4 ==> (#[trigger] out.quadrant(i))@ == watermarked_quadrant(
            img@, scale_px, watermark@, transparency, i),
        resize_applies(img@, scale_px) ==> out.uniform(scale_px as int, scale_px as int),
        !resize_applies(img@, scale_px) ==> out.uniform(img@.0 / 2, img@.1 / 2),
{
    let single_img_size = get_single_image_dimensions(img);
    let sliced = slice_images_view(img, &single_img_size);
    let _quad_bytes: usize = sliced.top_left.data.len();
    proof {
        assert(sliced.quadrant(0) == sliced.top_left);
        assert(sliced.quadrant(1) == sliced.top_right);
        assert(sliced.quadrant(2) == sliced.bottom_left);
        assert(sliced.quadrant(3) == sliced.bottom_right);
    }
    let wm_image = create_watermark(
        watermark,
        (single_img_size.width, single_img_size.height),
    );
    let marked = QuadrantSet {
        top_left: add_watermark(sliced.top_left, &wm_image, transparency),
        top_right: add_watermark(sliced.top_right, &wm_image, transparency),
        bottom_left: add_watermark(sliced.bottom_left, &wm_image, transparency),
        bottom_right: add_watermark(sliced.bottom_right, &wm_image, transparency),
    };
    proof {
        assert(marked.quadrant(0) == marked.top_left);
        assert(marked.quadrant(1) == marked.top_right);
        assert(marked.quadrant(2) == marked.bottom_left);
        assert(marked.quadrant(3) == marked.bottom_right);
    }
    if scale_px > 0 && scale_px < single_img_size.smallest {
        proof {
            lemma_size_le(
                scale_px as int,
                scale_px as int,
                single_img_size.width as int,
                single_img_size.height as int,
            );
        }
        let out = resize(marked, scale_px);
        proof {
            assert forall|i: int| 0 <= i < 4 implies (#[trigger] out.quadrant(i))@
                == watermarked_quadrant(img@, scale_px, watermark@, transparency, i) by {
            }
            assert(out.uniform(scale_px as int, scale_px as int));
        }
        out
    } else {
        proof {
            assert forall|i: int| 0 <= i < 4 implies (#[trigger] marked.quadrant(i))@
                == watermarked_quadrant(img@, scale_px, watermark@, transparency, i) by {
            }
            assert(marked.uniform(img@.0 / 2, img@.1 / 2));
        }
        marked
    }
}

/// Quadrant `i` of the whole pipeline: with a watermark bitmap it is
/// blended in, without one the quadrant passes through unchanged.
pub open spec fn processed_quadrant(
    src: Frame,
    scale_px: u32,
    wm: Option<Frame>,
    t: u16,
    i: int,
) -> Frame {
    match wm {
        Option::None => sliced_quadrant(src, scale_px, i),
        Option::Some(w) => watermarked_quadrant(src, scale_px, w, t, i),
    }
}

/// The whole pipeline for one request: decode the source bytes, slice,
/// optionally watermark, optionally rescale, and encode the four
/// quadrants as PNG, in index order. A source whose quadrants would be
/// empty (a side of zero or one pixel) is rejected as `DegenerateSource`
/// rather than yielding empty images.
pub fn process(
    bytes: &Vec<u8>,
    scale_px: u32,
    watermark: Option<&Raster>,
    transparency: u16,
) -> (r: Result<Vec<Vec<u8>>, SliceError>)
    requires
        transparency <= 100,
        watermark matches Some(wm) ==> wm.wf(),
    ensures
        decoded_rgba(bytes@) is None ==> (r matches Err(e) && e is DecodeFailed),
        decoded_rgba(bytes@) matches Some(src) ==> {
            let f = (src.0 as int, src.1 as int, src.2);
            let wmf = match watermark {
                Option::None => Option::<Frame>::None,
                Option::Some(wm) => Option::Some(wm@),
            };
            &&& (f.0 / 2 == 0 || f.1 / 2 == 0 ==> (r matches Err(e) && e is DegenerateSource))
            &&& (f.0 / 2 > 0 && f.1 / 2 > 0 ==> r is Ok)
            &&& (r matches Ok(v) ==> v@.len() == 4 && forall|i: int|
                0 <= i < 4 ==> {
                    let q = processed_quadrant(f, scale_px, wmf, transparency, i);
                    (#[trigger] v@[i])@ == png_of(q.0, q.1, q.2)
                })
        },
{
    let img = match load_from_bytes(bytes) {
        Ok(img) => img,
        Err(e) => {
            return Err(e);
        },
    };
    let single_img_size = get_single_image_dimensions(&img);
    if single_img_size.width == 0 || single_img_size.height == 0 {
        return Err(SliceError::DegenerateSource);
    }
    let quads = match watermark {
        Some(wm) => slice_with_watermark(&img, scale_px, wm, transparency),
        None => slice(&img, scale_px),
    };
    proof {
        if resize_applies(img@, scale_px) {
            assert(quads.uniform(scale_px as int, scale_px as int));
        } else {
            assert(quads.uniform(img@.0 / 2, img@.1 / 2));
        }
    }
    encode_quadrants(&quads)
}

} // verus!
