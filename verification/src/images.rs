//! Decoded pictures: the compressed preview sent for analysis, and the facts
//! (size, perceptual hash) recorded when a picture is indexed.

use vstd::prelude::*;
use crate::phash::{difference_hash_hex, spec_difference_hash_hex};
use crate::text::{chars_of, push_str, string_from_chars};

verus! {

broadcast use vstd::string::group_string_axioms;

/// The width and height of the picture that `image::load_from_memory`
/// decodes from the bytes, or `None` when it reports an error.
pub uninterp spec fn spec_decoded_size(bytes: Seq<u8>) -> Option<(u32, u32)>;

/// The grey levels, row by row and one byte per pixel, of the picture decoded
/// from the bytes after `DynamicImage::thumbnail_exact` scaled it to exactly
/// `width` by `height` pixels and `to_luma8` took its luma.
pub uninterp spec fn spec_grey_grid(bytes: Seq<u8>, width: u32, height: u32) -> Seq<u8>;

/// The JPEG file that `JpegEncoder::new_with_quality(.., quality)` writes of
/// the picture decoded from the bytes, taken as 8-bit RGB at its own size.
pub uninterp spec fn spec_jpeg_full(bytes: Seq<u8>, quality: u8) -> Seq<u8>;

/// The JPEG file that `JpegEncoder::new_with_quality(.., quality)` writes of
/// the picture decoded from the bytes after `DynamicImage::thumbnail(side, side)`
/// scaled it, taken as 8-bit RGB.
pub uninterp spec fn spec_jpeg_within(bytes: Seq<u8>, side: u32, quality: u8) -> Seq<u8>;

/// The WebP file that `DynamicImage::write_to` writes of the picture decoded
/// from the bytes after `DynamicImage::thumbnail(side, side)` scaled it.
pub uninterp spec fn spec_webp_within(bytes: Seq<u8>, side: u32) -> Seq<u8>;

/// What the source of `resize_dimensions` (used by `DynamicImage::thumbnail`)
/// shows of the size a `width` by `height` picture is scaled to so that it
/// fits a square of `side`: each side is between 1 and `side`; the longer side
/// (of a picture with a side of at least 1) becomes `side`; and the shorter one
/// is the exact proportional length rounded, so it lies within one pixel of it.
pub open spec fn fits_square(width: u32, height: u32, side: u32, out_width: u32, out_height: u32) -> bool {
    &&& 1 <= out_width <= side
    &&& 1 <= out_height <= side
    &&& (width >= height && width >= 1) ==> out_width == side
        && out_height as int * width as int <= height as int * side as int + width as int
        && height as int * side as int <= out_height as int * width as int + width as int
    &&& (height >= width && height >= 1) ==> out_height == side
        && out_width as int * height as int <= width as int * side as int + height as int
        && width as int * side as int <= out_width as int * height as int + height as int
}

/// Calls `image::load_from_memory`, then `GenericImageView::dimensions` on the
/// picture; the size is named by `spec_decoded_size`, and a failure is kept as
/// the error's text.
#[verifier::external_body]
fn decoded_size(bytes: &[u8]) -> (out: Result<(u32, u32), String>)
    ensures
        match out {
            Ok((w, h)) => spec_decoded_size(bytes@) == Some((w, h)),
            Err(_) => spec_decoded_size(bytes@) is None,
        },
{
    match image::load_from_memory(bytes) {
        Ok(img) => Ok(image::GenericImageView::dimensions(&img)),
        Err(e) => Err(e.to_string()),
    }
}

/// Calls `image::load_from_memory`, `GenericImageView::dimensions`, and
/// `thumbnail_exact(width, height)`, `to_luma8` and `into_raw` on the picture.
/// `ImageBuffer::new` lays a luma picture out as one byte per pixel, so the
/// grid has `width * height` bytes.
#[verifier::external_body]
fn decoded_size_and_grid(bytes: &[u8], width: u32, height: u32) -> (out: Option<(u32, u32, Vec<u8>)>)
    requires
        width as int * height as int <= 0xffff_ffff,
    ensures
        match out {
            Some((w, h, grid)) => spec_decoded_size(bytes@) == Some((w, h))
                && grid@ == spec_grey_grid(bytes@, width, height)
                && grid@.len() == width as int * height as int,
            None => spec_decoded_size(bytes@) is None,
        },
{
    let img = image::load_from_memory(bytes).ok()?;
    let (w, h) = image::GenericImageView::dimensions(&img);
    Some((w, h, img.thumbnail_exact(width, height).to_luma8().into_raw()))
}

/// Calls `image::load_from_memory`, `to_rgb8`, then
/// `JpegEncoder::new_with_quality(..).encode_image` into memory; a failure is
/// kept as the error's text. The encoder refuses only a side of 0 or above
/// 65535, and writing into a `Vec` cannot fail, so a decodable picture of such
/// a size is always encoded.
#[verifier::external_body]
fn jpeg_full(bytes: &[u8], quality: u8) -> (out: Result<Vec<u8>, String>)
    requires
        1 <= quality <= 100,
    ensures
        out matches Ok(jpeg) ==> jpeg@ == spec_jpeg_full(bytes@, quality)
            && spec_decoded_size(bytes@) is Some,
        spec_decoded_size(bytes@) is None ==> out is Err,
        (spec_decoded_size(bytes@) matches Some((w, h)) && 1 <= w <= 65535 && 1 <= h <= 65535)
            ==> out is Ok,
{
    let rgb = image::load_from_memory(bytes).map_err(|e| e.to_string())?.to_rgb8();
    let mut output = std::io::Cursor::new(Vec::new());
    match image::codecs::jpeg::JpegEncoder::new_with_quality(&mut output, quality).encode_image(&rgb) {
        Ok(()) => Ok(output.into_inner()),
        Err(e) => Err(e.to_string()),
    }
}

/// Calls `image::load_from_memory`, `thumbnail(side, side)`, `to_rgb8`, then
/// `JpegEncoder::new_with_quality(..).encode_image` into memory; a failure is
/// kept as the error's text. The thumbnail's sides lie between 1 and `side`,
/// which the encoder accepts, so a decodable picture is always encoded.
#[verifier::external_body]
fn jpeg_within(bytes: &[u8], side: u32, quality: u8) -> (out: Result<Vec<u8>, String>)
    requires
        1 <= side <= 65535,
        1 <= quality <= 100,
    ensures
        out matches Ok(jpeg) ==> jpeg@ == spec_jpeg_within(bytes@, side, quality),
        out is Ok <==> spec_decoded_size(bytes@) is Some,
{
    let img = image::load_from_memory(bytes).map_err(|e| e.to_string())?;
    let rgb = img.thumbnail(side, side).to_rgb8();
    let mut output = std::io::Cursor::new(Vec::new());
    match image::codecs::jpeg::JpegEncoder::new_with_quality(&mut output, quality).encode_image(&rgb) {
        Ok(()) => Ok(output.into_inner()),
        Err(e) => Err(e.to_string()),
    }
}

/// Calls `image::load_from_memory`, `thumbnail(side, side)`,
/// `GenericImageView::dimensions`, then `write_to` into memory as WebP. The
/// sizes are those `resize_dimensions` gives (see `fits_square`); `write_to`
/// converts the picture to 8-bit colour, and the WebP encoder refuses only a
/// side of 0 or above 16384, so a decodable picture is always written.
#[verifier::external_body]
fn webp_within(bytes: &[u8], side: u32) -> (out: Option<(Vec<u8>, u32, u32)>)
    requires
        1 <= side <= 16384,
    ensures
        match out {
            Some((webp, w, h)) => webp@ == spec_webp_within(bytes@, side)
                && (spec_decoded_size(bytes@) matches Some((dw, dh))
                && fits_square(dw, dh, side, w, h)),
            None => spec_decoded_size(bytes@) is None,
        },
{
    let small = image::load_from_memory(bytes).ok()?.thumbnail(side, side);
    let (w, h) = image::GenericImageView::dimensions(&small);
    let mut output = std::io::Cursor::new(Vec::new());
    small.write_to(&mut output, image::ImageFormat::WebP).ok()?;
    Some((output.into_inner(), w, h))
}

/// A picture could not be decoded or encoded; `detail` says why.
#[derive(Debug, Clone)]
pub struct ImageFailure {
    pub detail: String,
}

impl ImageFailure {
    /// The message shown to the user.
    pub fn message(&self) -> (m: String)
        ensures
            m@ == "图片无法读取："@ + self.detail@,
    {
        let mut v = chars_of("图片无法读取：");
        push_str(&mut v, self.detail.as_str());
        string_from_chars(&v)
    }
}

/// The longest side of the preview sent for analysis.
pub const UPLOAD_MAX_SIDE: u32 = 1600;

/// The JPEG quality of the preview sent for analysis.
pub const UPLOAD_JPEG_QUALITY: u8 = 82;

/// Whether a picture of this size is scaled down before it is sent.
pub open spec fn needs_downscale(width: u32, height: u32) -> bool {
    width > UPLOAD_MAX_SIDE || height > UPLOAD_MAX_SIDE
}

/// The preview sent for analysis, and the size of the decoded picture.
#[derive(Debug, Clone)]
pub struct UploadPreview {
    pub jpeg: Vec<u8>,
    pub source_width: u32,
    pub source_height: u32,
    pub scaled: bool,
}

/// Decodes the file's bytes and re-encodes them as a JPEG of quality
/// `UPLOAD_JPEG_QUALITY`, scaled to fit `UPLOAD_MAX_SIDE` when a side is longer;
/// nothing but the pixels is kept. Every decodable picture with no empty side
/// gives a preview.
pub fn upload_preview(bytes: &[u8]) -> (out: Result<UploadPreview, ImageFailure>)
    ensures
        spec_decoded_size(bytes@) is None ==> out is Err,
        (spec_decoded_size(bytes@) matches Some((w, h)) && ((w >= 1 && h >= 1) || needs_downscale(w, h)))
            ==> out is Ok,
        out matches Ok(p) ==> spec_decoded_size(bytes@) == Some((p.source_width, p.source_height))
            && p.scaled == needs_downscale(p.source_width, p.source_height)
            && p.jpeg@ == (if p.scaled {
                spec_jpeg_within(bytes@, UPLOAD_MAX_SIDE, UPLOAD_JPEG_QUALITY)
            } else {
                spec_jpeg_full(bytes@, UPLOAD_JPEG_QUALITY)
            }),
{
    let (width, height) = match decoded_size(bytes) {
        Ok(size) => size,
        Err(detail) => return Err(ImageFailure { detail }),
    };
    let scaled = width > UPLOAD_MAX_SIDE || height > UPLOAD_MAX_SIDE;
    let encoded = if scaled {
        jpeg_within(bytes, UPLOAD_MAX_SIDE, UPLOAD_JPEG_QUALITY)
    } else {
        jpeg_full(bytes, UPLOAD_JPEG_QUALITY)
    };
    match encoded {
        Ok(jpeg) => Ok(UploadPreview { jpeg, source_width: width, source_height: height, scaled }),
        Err(detail) => Err(ImageFailure { detail }),
    }
}

/// The width of the grey grid a difference hash is taken from.
pub const DHASH_WIDTH: u32 = 9;

/// The height of the grey grid a difference hash is taken from.
pub const DHASH_HEIGHT: u32 = 8;

/// The perceptual hash of the picture decoded from the bytes: the difference
/// hash of its 9 by 8 grey thumbnail, as 16 hexadecimal digits; `None` when
/// the bytes do not decode.
pub open spec fn spec_picture_hash(bytes: Seq<u8>) -> Seq<char> {
    spec_difference_hash_hex(spec_grey_grid(bytes, DHASH_WIDTH, DHASH_HEIGHT))
}

/// The perceptual hash of the picture the bytes hold: the difference hash of
/// its 9 by 8 grey thumbnail, as 16 hexadecimal digits; `None` when the bytes
/// do not decode.
pub fn difference_hash(bytes: &[u8]) -> (out: Option<String>)
    ensures
        out is None <==> spec_decoded_size(bytes@) is None,
        out matches Some(s) ==> s@ == spec_picture_hash(bytes@),
{
    match decoded_size_and_grid(bytes, DHASH_WIDTH, DHASH_HEIGHT) {
        Some((_, _, grid)) => Some(difference_hash_hex(&grid)),
        None => None,
    }
}

/// What indexing records of a decoded picture.
#[derive(Debug, Clone)]
pub struct ImageFacts {
    pub width: u32,
    pub height: u32,
    pub perceptual_hash: String,
}

/// The size and perceptual hash of the picture the bytes hold; `None` when
/// they do not decode.
pub fn image_facts(bytes: &[u8]) -> (out: Option<ImageFacts>)
    ensures
        out is None <==> spec_decoded_size(bytes@) is None,
        out matches Some(f) ==> spec_decoded_size(bytes@) == Some((f.width, f.height))
            && f.perceptual_hash@ == spec_picture_hash(bytes@),
{
    match decoded_size_and_grid(bytes, DHASH_WIDTH, DHASH_HEIGHT) {
        Some((width, height, grid)) => Some(
            ImageFacts { width, height, perceptual_hash: difference_hash_hex(&grid) },
        ),
        None => None,
    }
}

/// The longest side of a cached grid thumbnail.
pub const GRID_THUMBNAIL_SIDE: u32 = 560;

/// The longest side of a cached preview.
pub const PREVIEW_SIDE: u32 = 1920;

/// The bound a cached picture is scaled to fit.
pub open spec fn spec_cache_side(preview: bool) -> u32 {
    if preview {
        PREVIEW_SIDE
    } else {
        GRID_THUMBNAIL_SIDE
    }
}

/// The bound a cached grid thumbnail or preview is scaled to fit.
pub fn cache_side(preview: bool) -> (side: u32)
    ensures
        side == spec_cache_side(preview),
{
    if preview {
        PREVIEW_SIDE
    } else {
        GRID_THUMBNAIL_SIDE
    }
}

/// A picture scaled for the cache, as a WebP file, with its size.
#[derive(Debug, Clone)]
pub struct CachedImage {
    pub webp: Vec<u8>,
    pub width: u32,
    pub height: u32,
}

/// The picture a file's bytes hold, scaled, keeping its aspect
/// ratio, to the largest size that fits the cache bound (`GRID_THUMBNAIL_SIDE`,
/// or `PREVIEW_SIDE` for a preview), and written as WebP; `None` when the bytes
/// do not decode.
pub fn cache_image(picture: &[u8], preview: bool) -> (out: Option<CachedImage>)
    ensures
        out is None <==> spec_decoded_size(picture@) is None,
        out matches Some(c) ==> c.webp@ == spec_webp_within(picture@, spec_cache_side(preview))
            && (spec_decoded_size(picture@) matches Some((w, h))
            && fits_square(w, h, spec_cache_side(preview), c.width, c.height)),
{
    let side = cache_side(preview);
    match webp_within(picture, side) {
        Some((webp, width, height)) => Some(CachedImage { webp, width, height }),
        None => None,
    }
}

} // verus!
