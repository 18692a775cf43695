//! Derived-tier rendering through the image codec: decode, crop-to-fill
//! resize, JPEG re-encode.

use vstd::prelude::*;

verus! {

/// Whether the image codec can decode the byte string as an image. The codec
/// guesses the format from the bytes themselves, so success is a function of
/// the bytes alone, and does not depend on the requested output size.
pub uninterp spec fn image_decodes(bytes: Seq<u8>) -> bool;

/// The JPEG bytes the codec produces when the image decoded from `bytes` is
/// crop-to-fill resized to `side` x `side` with the triangle filter and
/// re-encoded at `quality`: a deterministic function of the arguments alone.
pub uninterp spec fn scaled_jpeg_of(bytes: Seq<u8>, side: u32, quality: u8) -> Seq<u8>;

/// Relies on the image crate: `image::load_from_memory`, whose success
/// depends only on the bytes; `DynamicImage::resize_to_fill`, which returns
/// an image of exactly `side` x `side` pixels; `DynamicImage::to_rgb8`; and
/// `codecs::jpeg::JpegEncoder::new_with_quality` with `encode_image`, which
/// cannot fail when writing to an in-memory buffer at dimensions within
/// JPEG's limits (hence the bound on `side`). All of these are deterministic
/// in their inputs.
#[verifier::external_body]
pub(crate) fn scaled_jpeg(data: &[u8], side: u32, quality: u8) -> (r: Result<Vec<u8>, String>)
    requires
        1 <= side <= 65000,
    ensures
        r is Ok <==> image_decodes(data@),
        r is Ok ==> r->Ok_0@ == scaled_jpeg_of(data@, side, quality),
{
    let img = match image::load_from_memory(data) {
        Ok(i) => i,
        Err(e) => return Err(format!("Failed to decode image: {}", e)),
    };
    let resized = img.resize_to_fill(side, side, image::imageops::FilterType::Triangle);
    let rgb = resized.to_rgb8();
    let mut buffer = std::io::Cursor::new(Vec::new());
    let mut encoder = image::codecs::jpeg::JpegEncoder::new_with_quality(&mut buffer, quality);
    if let Err(e) = encoder.encode_image(&rgb) {
        return Err(format!("Failed to encode JPEG: {}", e));
    }
    Ok(buffer.into_inner())
}

} // verus!
