//! JPEG encoding and decoding through the `image` crate.
//!
//! What the codec produces takes pages to state and depends on its inputs alone, so
//! it is named here ([`jpeg_encoding`], [`jpeg_decoding`]) rather than spelled out;
//! the wrappers below tie every call to those names.
use vstd::prelude::*;
use image::codecs::jpeg::JpegEncoder;
use image::{ExtendedColorType, ImageError, ImageFormat};

verus! {

#[verifier::external_type_specification]
#[verifier::external_body]
pub struct ExImageError(image::ImageError);

/// The bytes that `image`'s baseline JPEG encoder writes for the packed 8-bit RGB
/// image `rgb` of `width` by `height` pixels at the given quality.
pub uninterp spec fn jpeg_encoding(rgb: Seq<u8>, width: u32, height: u32, quality: u8) -> Seq<u8>;

/// What `image` decodes from the JPEG stream `data`, converted to packed 8-bit RGB:
/// width, height and pixel bytes, or `None` where the stream is rejected.
pub uninterp spec fn jpeg_decoding(data: Seq<u8>) -> Option<(u32, u32, Seq<u8>)>;

/// JPEG can hold an image of these dimensions (each from 1 to 65535).
pub open spec fn jpeg_size_supported(width: u32, height: u32) -> bool {
    1 <= width <= 65535 && 1 <= height <= 65535
}

/// Calls `JpegEncoder::new_with_quality(..).encode(.., ExtendedColorType::Rgb8)` of
/// `image` into a fresh `Vec`.
///
/// Claimed: the encoder panics unless the buffer holds exactly `width * height * 3`
/// bytes (hence the `requires`); it fails exactly when a dimension is 0 or above
/// 65535 (its size check; writing into a `Vec` does not fail); otherwise it returns
/// the bytes named by [`jpeg_encoding`].
#[verifier::external_body]
pub(crate) fn encode_jpeg(rgb: &[u8], width: u32, height: u32, quality: u8) -> (r: Result<
    Vec<u8>,
    ImageError,
>)
    requires
        rgb@.len() == width * height * 3,
    ensures
        r is Ok <==> jpeg_size_supported(width, height),
        r matches Ok(out) ==> out@ == jpeg_encoding(rgb@, width, height, quality),
{
    let mut out: Vec<u8> = Vec::new();
    let res = JpegEncoder::new_with_quality(&mut out, quality).encode(
        rgb,
        width,
        height,
        ExtendedColorType::Rgb8,
    );
    match res {
        Ok(()) => Ok(out),
        Err(e) => Err(e),
    }
}

/// Calls `image::load_from_memory_with_format(data, ImageFormat::Jpeg)` and converts
/// the decoded image to packed 8-bit RGB (`to_rgb8`, then its width, height and raw
/// bytes).
///
/// Claimed: the outcome is the one named by [`jpeg_decoding`], and the pixel buffer
/// holds exactly three bytes per pixel (the decoder allocates its total byte count
/// and `to_rgb8` converts pixel by pixel); nothing is claimed of when a stream is
/// rejected or of the pixel values.
#[verifier::external_body]
pub(crate) fn decode_jpeg(data: &[u8]) -> (r: Result<(u32, u32, Vec<u8>), ImageError>)
    ensures
        match r {
            Ok((w, h, px)) => jpeg_decoding(data@) == Some((w, h, px@)) && px@.len() == w * h * 3,
            Err(_) => jpeg_decoding(data@) is None,
        },
{
    match image::load_from_memory_with_format(data, ImageFormat::Jpeg) {
        Ok(img) => {
            let rgb = img.to_rgb8();
            Ok((rgb.width(), rgb.height(), rgb.into_raw()))
        },
        Err(e) => Err(e),
    }
}

} // verus!
