//! Decoding and encoding at the library's edge: bytes come in through the
//! `image` codec (and, for base64 payloads, through the `base64` crate)
//! and leave as PNG streams. The codecs themselves are trusted; what each
//! call returns is pinned by name so that everything around the calls is
//! verified.

use vstd::prelude::*;
use std::io::Cursor;
use base64::Engine;
use crate::image_slicer::QuadrantSet;
use crate::raster::Raster;

verus! {

/// What `image::load_from_memory` followed by `to_rgba8` yields for a
/// byte string: `None` where the bytes do not parse as a supported image,
/// else the RGBA raster's width, height and bytes.
pub uninterp spec fn decoded_rgba(bytes: Seq<u8>) -> Option<(u32, u32, Seq<u8>)>;

/// What base64 standard-alphabet decoding yields for a string: `None`
/// where the string is not valid base64.
pub uninterp spec fn base64_decoded(s: Seq<char>) -> Option<Seq<u8>>;

/// What `str::trim` yields for a string.
pub uninterp spec fn trimmed(s: Seq<char>) -> Seq<char>;

/// The PNG encoding of an RGBA raster of the given size.
pub uninterp spec fn png_of(w: int, h: int, data: Seq<u8>) -> Seq<u8>;

/// The errors a slicing request can end in.
#[derive(Debug)]
pub enum SliceError {
    /// The source bytes did not parse as a supported image format.
    DecodeFailed(String),
    /// The source string was not valid base64.
    InvalidBase64(String),
    /// A quadrant could not be encoded as PNG.
    EncodeFailed(String),
    /// The request carried no image source.
    MissingSource,
    /// The source image is too small to yield non-empty quadrants.
    DegenerateSource,
}

/// Relies on `image::load_from_memory` and `DynamicImage::to_rgba8`:
/// decoding is a function of the bytes alone, and `to_rgba8` fills a
/// fresh buffer of exactly four bytes per pixel.
#[verifier::external_body]
fn decode_rgba_bytes(bytes: &Vec<u8>) -> (r: Result<(u32, u32, Vec<u8>), String>)
    ensures
        r is Ok <==> decoded_rgba(bytes@) is Some,
        r matches Ok(v) ==> decoded_rgba(bytes@) == Some((v.0, v.1, v.2@)) && v.2@.len() == 4 * ((
        v.0 as int) * (v.1 as int)),
{
    match image::load_from_memory(bytes) {
        Ok(img) => {
            let rgba = img.to_rgba8();
            let w = rgba.width();
            let h = rgba.height();
            Ok((w, h, rgba.into_raw()))
        },
        Err(e) => Err(e.to_string()),
    }
}

/// Relies on `base64::engine::general_purpose::STANDARD.decode`: decoding
/// is a function of the string alone.
#[verifier::external_body]
fn base64_decode_std(s: &str) -> (r: Result<Vec<u8>, String>)
    ensures
        r is Ok <==> base64_decoded(s@) is Some,
        r matches Ok(v) ==> base64_decoded(s@) == Some(v@),
{
    match base64::engine::general_purpose::STANDARD.decode(s) {
        Ok(v) => Ok(v),
        Err(e) => Err(e.to_string()),
    }
}

/// Relies on `str::trim`: the result is a function of the string alone.
#[verifier::external_body]
fn trim_str(s: &str) -> (r: &str)
    ensures
        r@ == trimmed(s@),
{
    s.trim()
}

/// Relies on `image::RgbaImage::from_raw` and `write_to` with the PNG
/// format: encoding to an in-memory buffer is a function of size and
/// pixels alone, and fails exactly on an empty image (the PNG format
/// admits no zero width or height).
#[verifier::external_body]
fn encode_png_bytes(w: u32, h: u32, data: &Vec<u8>) -> (r: Result<Vec<u8>, String>)
    requires
        data@.len() == 4 * ((w as int) * (h as int)),
    ensures
        w > 0 && h > 0 ==> r is Ok,
        r matches Ok(v) ==> w > 0 && h > 0 && v@ == png_of(w as int, h as int, data@),
{
    let img = match image::RgbaImage::from_raw(w, h, data.clone()) {
        Some(i) => i,
        None => return Err(String::from("buffer does not fit the dimensions")),
    };
    let mut cursor = Cursor::new(Vec::new());
    match img.write_to(&mut cursor, image::ImageFormat::Png) {
        Ok(()) => Ok(cursor.into_inner()),
        Err(e) => Err(e.to_string()),
    }
}

/// Decode raw bytes into an RGBA raster. Returns `DecodeFailed` exactly
/// when the bytes do not parse as a supported image format.
pub fn load_from_bytes(bytes: &Vec<u8>) -> (r: Result<Raster, SliceError>)
    ensures
        r is Ok <==> decoded_rgba(bytes@) is Some,
        r matches Ok(img) ==> img.wf() && decoded_rgba(bytes@) == Some(
            (img.width, img.height, img.data@)),
        r matches Err(e) ==> e is DecodeFailed,
{
    match decode_rgba_bytes(bytes) {
        Ok((w, h, d)) => Ok(Raster { width: w, height: h, data: d }),
        Err(m) => Err(SliceError::DecodeFailed(m)),
    }
}

/// Decode a base64 string (trimmed first) into an RGBA raster. Returns
/// `InvalidBase64` exactly when the trimmed string is not valid base64,
/// and `DecodeFailed` exactly when the decoded bytes are no image.
pub fn load_from_base64(base64_str: &str) -> (r: Result<Raster, SliceError>)
    ensures
        base64_decoded(trimmed(base64_str@)) is None ==> (r matches Err(e) && e is InvalidBase64),
        base64_decoded(trimmed(base64_str@)) matches Some(b) ==> {
            &&& r is Ok <==> decoded_rgba(b) is Some
            &&& (r matches Ok(img) ==> img.wf() && decoded_rgba(b) == Some(
                (img.width, img.height, img.data@)))
            &&& (r matches Err(e) ==> e is DecodeFailed)
        },
{
    let t = trim_str(base64_str);
    match base64_decode_std(t) {
        Ok(bytes) => load_from_bytes(&bytes),
        Err(m) => Err(SliceError::InvalidBase64(m)),
    }
}

/// Encode one raster as PNG bytes. Succeeds exactly when the raster is
/// non-empty; the PNG format admits no zero-sized image.
pub fn encode_png(img: &Raster) -> (r: Result<Vec<u8>, SliceError>)
    requires
        img.wf(),
    ensures
        r is Ok <==> img.width > 0 && img.height > 0,
        r matches Ok(v) ==> v@ == png_of(img@.0, img@.1, img@.2),
        r matches Err(e) ==> e is EncodeFailed,
{
    match encode_png_bytes(img.width, img.height, &img.data) {
        Ok(v) => Ok(v),
        Err(m) => Err(SliceError::EncodeFailed(m)),
    }
}

/// Encode all four quadrants as PNG, in index order 0..3. All or
/// nothing: the first failure (an empty quadrant) yields the error and
/// no partial output.
pub fn encode_quadrants(images: &QuadrantSet) -> (r: Result<Vec<Vec<u8>>, SliceError>)
    requires
        images.wf(),
    ensures
        r is Ok <==> forall|i: int|
            0 <= i < 4 ==> (#[trigger] images.quadrant(i))@.0 > 0 && images.quadrant(i)@.1 > 0,
        r matches Ok(v) ==> v@.len() == 4 && forall|i: int|
            0 <= i < 4 ==> (#[trigger] v@[i])@ == png_of(
                images.quadrant(i)@.0,
                images.quadrant(i)@.1,
                images.quadrant(i)@.2,
            ),
        r matches Err(e) ==> e is EncodeFailed,
{
    proof {
        assert(images.quadrant(0) == images.top_left);
        assert(images.quadrant(1) == images.top_right);
        assert(images.quadrant(2) == images.bottom_left);
        assert(images.quadrant(3) == images.bottom_right);
    }
    let b0 = match encode_png(&images.top_left) {
        Ok(v) => v,
        Err(e) => return Err(e),
    };
    let b1 = match encode_png(&images.top_right) {
        Ok(v) => v,
        Err(e) => return Err(e),
    };
    let b2 = match encode_png(&images.bottom_left) {
        Ok(v) => v,
        Err(e) => return Err(e),
    };
    let b3 = match encode_png(&images.bottom_right) {
        Ok(v) => v,
        Err(e) => return Err(e),
    };
    let mut out: Vec<Vec<u8>> = Vec::new();
    out.push(b0);
    out.push(b1);
    out.push(b2);
    out.push(b3);
    Ok(out)
}

} // verus!
