//! End-to-end tests through the codec edge: PNG encode/decode, base64
//! sources, the full `process` pipeline, and the error taxonomy.

use izdu_slicer::codec::{encode_png, encode_quadrants, load_from_base64, load_from_bytes, SliceError};
use izdu_slicer::image_processor::{process, slice, source_from_payload, ImageSource};
use izdu_slicer::image_slicer::get_single_image_dimensions;
use izdu_slicer::raster::Raster;
use base64::Engine;

fn solid(w: u32, h: u32, px: [u8; 4]) -> Raster {
    let mut data = Vec::new();
    for _ in 0..(w as usize * h as usize) {
        data.extend_from_slice(&px);
    }
    Raster { width: w, height: h, data }
}

fn px_at(r: &Raster, x: u32, y: u32) -> [u8; 4] {
    let base = 4 * (y as usize * r.width as usize + x as usize);
    [r.data[base], r.data[base + 1], r.data[base + 2], r.data[base + 3]]
}

const RED: [u8; 4] = [255, 0, 0, 255];

#[test]
fn png_round_trip_preserves_pixels() {
    let img = solid(3, 2, [10, 20, 30, 40]);
    let bytes = encode_png(&img).unwrap();
    // A PNG stream, not the raw buffer handed back.
    assert_eq!(&bytes[..8], &[137, 80, 78, 71, 13, 10, 26, 10]);
    assert_ne!(bytes, img.data);
    let back = load_from_bytes(&bytes).unwrap();
    assert_eq!((back.width, back.height), (3, 2));
    assert_eq!(back.data, img.data);
}

#[test]
fn empty_image_cannot_be_encoded() {
    let img = Raster { width: 0, height: 0, data: Vec::new() };
    assert!(matches!(encode_png(&img), Err(SliceError::EncodeFailed(_))));
}

#[test]
fn garbage_bytes_are_a_decode_error() {
    let bytes = vec![1u8, 2, 3, 4, 5, 6, 7, 8, 9];
    assert!(matches!(load_from_bytes(&bytes), Err(SliceError::DecodeFailed(_))));
}

#[test]
fn base64_source_round_trips() {
    let img = solid(4, 4, [5, 6, 7, 255]);
    let png = encode_png(&img).unwrap();
    let encoded = base64::engine::general_purpose::STANDARD.encode(&png);
    // Surrounding whitespace is trimmed before decoding.
    let padded = format!("  {encoded}\n");
    let back = load_from_base64(&padded).unwrap();
    assert_eq!((back.width, back.height), (4, 4));
    assert_eq!(back.data, img.data);
}

#[test]
fn invalid_base64_is_its_own_error() {
    assert!(matches!(load_from_base64("!!! not base64 !!!"), Err(SliceError::InvalidBase64(_))));
    // Valid base64 of bytes that are no image decodes, then fails as image.
    let encoded = base64::engine::general_purpose::STANDARD.encode(b"just some text");
    assert!(matches!(load_from_base64(&encoded), Err(SliceError::DecodeFailed(_))));
}

#[test]
fn red_source_yields_four_red_quadrants() {
    // A 400x300 opaque red source, no resize, no watermark: four PNGs,
    // each 200x150, solid red, fully opaque.
    let png = encode_png(&solid(400, 300, RED)).unwrap();
    let outputs = process(&png, 0, None, 30).unwrap();
    assert_eq!(outputs.len(), 4);
    for out in &outputs {
        let q = load_from_bytes(out).unwrap();
        assert_eq!((q.width, q.height), (200, 150));
        for chunk in q.data.chunks(4) {
            assert_eq!(chunk, RED);
        }
    }
}

#[test]
fn watermarked_output_uses_the_floored_alpha() {
    // The same red source with a watermark bitmap and transparency 10:
    // every output pixel follows the max(t, 50) = 50 blend, not the raw
    // 10 percent request.
    let png = encode_png(&solid(400, 300, RED)).unwrap();
    let wm = solid(20, 20, [0, 0, 0, 255]);
    let outputs = process(&png, 0, Some(&wm), 10).unwrap();
    assert_eq!(outputs.len(), 4);
    for out in &outputs {
        let q = load_from_bytes(out).unwrap();
        assert_eq!((q.width, q.height), (200, 150));
        // 0.5 * 255 = 127.5 floored; combined alpha 0.75 * 255 floored.
        assert_eq!(px_at(&q, 100, 75), [127, 0, 0, 191]);
        assert_ne!(px_at(&q, 100, 75), [229, 0, 0, 232]);
    }
}

#[test]
fn scale_is_applied_only_strictly_inside_bounds() {
    let png = encode_png(&solid(40, 30, RED)).unwrap();
    // smallest = min(20, 15) = 15.
    for (scale, expect) in [(0u32, (20, 15)), (15, (20, 15)), (300, (20, 15)), (14, (14, 14)), (1, (1, 1))] {
        let outputs = process(&png, scale, None, 30).unwrap();
        for out in &outputs {
            let q = load_from_bytes(out).unwrap();
            assert_eq!((q.width, q.height), expect, "scale {scale}");
        }
    }
}

#[test]
fn one_pixel_source_is_rejected_as_degenerate() {
    // Policy for degenerate sources: a source whose quadrants would be
    // empty is a client error, not four empty images.
    let png = encode_png(&solid(1, 1, RED)).unwrap();
    assert!(matches!(process(&png, 0, None, 30), Err(SliceError::DegenerateSource)));
    let png = encode_png(&solid(300, 1, RED)).unwrap();
    assert!(matches!(process(&png, 300, None, 30), Err(SliceError::DegenerateSource)));
}

#[test]
fn undecodable_request_is_a_decode_error() {
    let bytes = vec![0u8; 64];
    assert!(matches!(process(&bytes, 0, None, 30), Err(SliceError::DecodeFailed(_))));
}

#[test]
fn encode_quadrants_streams_in_index_order() {
    let img = solid(8, 4, [1, 2, 3, 255]);
    let d = get_single_image_dimensions(&img);
    let quads = slice(&img, 0);
    let encoded = encode_quadrants(&quads).unwrap();
    assert_eq!(encoded.len(), 4);
    assert_eq!(encoded[0], encode_png(&quads.top_left).unwrap());
    assert_eq!(encoded[1], encode_png(&quads.top_right).unwrap());
    assert_eq!(encoded[2], encode_png(&quads.bottom_left).unwrap());
    assert_eq!(encoded[3], encode_png(&quads.bottom_right).unwrap());
    assert_eq!((d.width, d.height), (4, 2));
}

#[test]
fn payload_source_prefers_url_then_base64() {
    let r = source_from_payload(Some("http://example/a.png".to_string()), Some("Zm9v".to_string()));
    assert!(matches!(r, Ok(ImageSource::Url(u)) if u == "http://example/a.png"));
    let r = source_from_payload(None, Some("Zm9v".to_string()));
    assert!(matches!(r, Ok(ImageSource::Base64(b)) if b == "Zm9v"));
    let r = source_from_payload(None, None);
    assert!(matches!(r, Err(SliceError::MissingSource)));
}
