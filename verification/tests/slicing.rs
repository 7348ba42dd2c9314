//! Tests of the pixel-level components: dimension computation, quadrant
//! extraction, nearest-neighbor resize, and watermark compositing.

use izdu_slicer::image_slicer::{
    get_single_image_dimensions, initialize_output, resize, resize_raster, slice_images_view,
};
use izdu_slicer::raster::{Raster, Rgba};
use izdu_slicer::watermark::{add_watermark, create_watermark};

fn solid(w: u32, h: u32, px: [u8; 4]) -> Raster {
    let mut data = Vec::new();
    for _ in 0..(w as usize * h as usize) {
        data.extend_from_slice(&px);
    }
    Raster { width: w, height: h, data }
}

/// A raster whose pixel (x, y) holds (x, y, x + y, 255): every pixel is
/// distinct on small images, which makes copy errors visible.
fn gradient(w: u32, h: u32) -> Raster {
    let mut data = Vec::new();
    for y in 0..h {
        for x in 0..w {
            data.extend_from_slice(&[x as u8, y as u8, (x + y) as u8, 255]);
        }
    }
    Raster { width: w, height: h, data }
}

fn px_at(r: &Raster, x: u32, y: u32) -> [u8; 4] {
    let base = 4 * (y as usize * r.width as usize + x as usize);
    [r.data[base], r.data[base + 1], r.data[base + 2], r.data[base + 3]]
}

fn blend(e: u32, d: u8, wm: u8) -> u8 {
    (((100 - e) * 100 * d as u32 + e * e * wm as u32) / 10000) as u8
}

fn blend_alpha(e: u32) -> u8 {
    ((((100 - e) * 100 + e * e) * 255) / 10000) as u8
}

#[test]
fn dimensions_are_floored_halves() {
    let d = get_single_image_dimensions(&gradient(5, 4));
    assert_eq!((d.width, d.height, d.smallest), (2, 2, 2));
    let d = get_single_image_dimensions(&solid(400, 300, [9, 9, 9, 255]));
    assert_eq!((d.width, d.height, d.smallest), (200, 150, 150));
    let d = get_single_image_dimensions(&gradient(1, 1));
    assert_eq!((d.width, d.height, d.smallest), (0, 0, 0));
}

#[test]
fn initialize_output_is_blank() {
    let out = initialize_output(3, 2);
    for q in [&out.top_left, &out.top_right, &out.bottom_left, &out.bottom_right] {
        assert_eq!(q.width, 3);
        assert_eq!(q.height, 2);
        assert_eq!(q.data, vec![0u8; 24]);
    }
}

#[test]
fn quadrants_tile_even_source() {
    let img = gradient(6, 4);
    let d = get_single_image_dimensions(&img);
    let out = slice_images_view(&img, &d);
    let quads = [&out.top_left, &out.top_right, &out.bottom_left, &out.bottom_right];
    // Every source pixel is recovered from quadrant (y / qh) * 2 + (x / qw)
    // at position (x % qw, y % qh): no gap, no overlap, bit for bit.
    for y in 0..4u32 {
        for x in 0..6u32 {
            let q = quads[((y / d.height) * 2 + x / d.width) as usize];
            assert_eq!(px_at(q, x % d.width, y % d.height), px_at(&img, x, y));
        }
    }
}

#[test]
fn odd_row_and_column_are_dropped() {
    let img = gradient(5, 3);
    let d = get_single_image_dimensions(&img);
    assert_eq!((d.width, d.height), (2, 1));
    let out = slice_images_view(&img, &d);
    // The bottom-right quadrant starts at (2, 1); column 4 and row 2 of the
    // source appear nowhere.
    assert_eq!(px_at(&out.bottom_right, 0, 0), px_at(&img, 2, 1));
    assert_eq!(px_at(&out.bottom_right, 1, 0), px_at(&img, 3, 1));
}

#[test]
fn extraction_is_idempotent() {
    let img = gradient(8, 6);
    let d = get_single_image_dimensions(&img);
    let a = slice_images_view(&img, &d);
    let b = slice_images_view(&img, &d);
    assert_eq!(a.top_left.data, b.top_left.data);
    assert_eq!(a.top_right.data, b.top_right.data);
    assert_eq!(a.bottom_left.data, b.bottom_left.data);
    assert_eq!(a.bottom_right.data, b.bottom_right.data);
}

#[test]
fn degenerate_source_yields_empty_quadrants() {
    let img = gradient(1, 1);
    let d = get_single_image_dimensions(&img);
    let out = slice_images_view(&img, &d);
    assert_eq!((out.top_left.width, out.top_left.height), (0, 0));
    assert!(out.bottom_right.data.is_empty());
}

#[test]
fn nearest_neighbor_resize_samples_expected_pixels() {
    // A 2x2 checker enlarged to 4x4: destination (x, y) takes source
    // (x * 2 / 4, y * 2 / 4) = (x / 2, y / 2).
    let mut img = gradient(2, 2);
    img.data = vec![
        10, 0, 0, 255, 20, 0, 0, 255, //
        30, 0, 0, 255, 40, 0, 0, 255,
    ];
    let out = resize_raster(&img, 4, 4);
    assert_eq!((out.width, out.height), (4, 4));
    for y in 0..4u32 {
        for x in 0..4u32 {
            assert_eq!(px_at(&out, x, y), px_at(&img, x / 2, y / 2));
        }
    }
    // And shrunk to 1x1 it keeps the top-left sample.
    let one = resize_raster(&img, 1, 1);
    assert_eq!(px_at(&one, 0, 0), px_at(&img, 0, 0));
}

#[test]
fn resize_rescales_all_four_quadrants() {
    let img = gradient(8, 8);
    let d = get_single_image_dimensions(&img);
    let sliced = slice_images_view(&img, &d);
    let out = resize(sliced, 2);
    for q in [&out.top_left, &out.top_right, &out.bottom_left, &out.bottom_right] {
        assert_eq!((q.width, q.height), (2, 2));
    }
    // Nearest neighbor on the top-left quadrant: (x * 4 / 2, y * 4 / 2).
    let tl = slice_images_view(&img, &d).top_left;
    for y in 0..2u32 {
        for x in 0..2u32 {
            assert_eq!(px_at(&out.top_left, x, y), px_at(&tl, x * 2, y * 2));
        }
    }
}

#[test]
fn transparency_below_fifty_blends_as_fifty() {
    let wm = solid(4, 4, [0, 0, 0, 255]);
    let low = add_watermark(solid(4, 4, [255, 255, 255, 255]), &wm, 10);
    let floor = add_watermark(solid(4, 4, [255, 255, 255, 255]), &wm, 50);
    assert_eq!(low.data, floor.data);
    // The blended value follows max(t, 50), never the raw request:
    // 0.5 * 255 + 0.5 * 0 * 0.5 = 127.5, floored.
    assert_eq!(px_at(&low, 0, 0), [127, 127, 127, 191]);
    assert_eq!(blend(50, 255, 0), 127);
    assert_ne!(px_at(&low, 0, 0), [229, 229, 229, blend_alpha(10)]);
}

#[test]
fn transparency_above_fifty_is_honored() {
    let wm = solid(2, 2, [200, 100, 0, 255]);
    let out = add_watermark(solid(2, 2, [50, 50, 50, 255]), &wm, 80);
    let expect = [blend(80, 50, 200), blend(80, 50, 100), blend(80, 50, 0), blend_alpha(80)];
    assert_eq!(px_at(&out, 1, 1), expect);
    // Full transparency request keeps the watermark alone.
    let full = add_watermark(solid(2, 2, [50, 50, 50, 255]), &wm, 100);
    assert_eq!(px_at(&full, 0, 0), [200, 100, 0, 255]);
}

#[test]
fn watermark_is_centered_within_one_pixel() {
    // White 10x9 target, black 4x4 watermark: blended pixels (alpha 191)
    // form a box whose margins differ by at most one pixel per axis.
    let out = add_watermark(solid(10, 9, [255, 255, 255, 255]), &solid(4, 4, [0, 0, 0, 255]), 50);
    let mut min_x = u32::MAX;
    let mut max_x = 0;
    let mut min_y = u32::MAX;
    let mut max_y = 0;
    for y in 0..9u32 {
        for x in 0..10u32 {
            if px_at(&out, x, y) != [255, 255, 255, 255] {
                min_x = min_x.min(x);
                max_x = max_x.max(x);
                min_y = min_y.min(y);
                max_y = max_y.max(y);
            }
        }
    }
    assert_eq!((max_x - min_x + 1, max_y - min_y + 1), (4, 4));
    let (left, right) = (min_x, 10 - 1 - max_x);
    let (top, bottom) = (min_y, 9 - 1 - max_y);
    assert!(left.abs_diff(right) <= 1, "left {left} right {right}");
    assert!(top.abs_diff(bottom) <= 1, "top {top} bottom {bottom}");
}

#[test]
fn oversized_watermark_is_clipped_to_center() {
    // A 6x2 watermark on a 4x2 target: the centered 4x2 overlap of the
    // watermark (columns 1..5) lands on the whole target.
    let mut wm = gradient(6, 2);
    wm.data = (0..48u8).collect();
    let out = add_watermark(solid(4, 2, [100, 100, 100, 255]), &wm, 100);
    for y in 0..2u32 {
        for x in 0..4u32 {
            let w = px_at(&wm, x + 1, y);
            assert_eq!(px_at(&out, x, y), [w[0], w[1], w[2], 255]);
        }
    }
}

#[test]
fn create_watermark_fits_glyphs_to_extent() {
    let glyphs = solid(3, 1, [77, 77, 77, 77]);
    let fitted = create_watermark(&glyphs, (6, 4));
    assert_eq!((fitted.width, fitted.height), (6, 4));
    assert_eq!(px_at(&fitted, 5, 3), [77, 77, 77, 77]);
    // An empty glyph bitmap stays empty, so blending it changes nothing.
    let empty = create_watermark(&Raster { width: 0, height: 0, data: Vec::new() }, (6, 4));
    assert_eq!((empty.width, empty.height), (0, 0));
    let target = solid(4, 4, [1, 2, 3, 4]);
    let untouched = add_watermark(solid(4, 4, [1, 2, 3, 4]), &empty, 30);
    assert_eq!(untouched.data, target.data);
}
