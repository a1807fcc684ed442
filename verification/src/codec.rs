use vstd::prelude::*;

use crate::bitmap::Bitmap;

verus! {

/// The image codec's error type, opaque to the core; a decode failure is
/// mapped to [`crate::result::Error::Decode`] by the callers.
#[verifier::external_type_specification]
#[verifier::external_body]
pub struct ExImageError(image::ImageError);

/// What decoding a byte buffer as an image yields: `Some` of the RGBA8
/// width, height and pixel buffer when the bytes are a supported image
/// container, `None` when they are not. Decoding depends on the bytes
/// alone.
pub uninterp spec fn rgba_decoding(bytes: Seq<u8>) -> Option<(u32, u32, Seq<u8>)>;

/// The image-codec boundary.
///
/// Relies on `image::load_from_memory` for container detection and
/// decoding, and on `image::DynamicImage::into_rgba8` for conversion to an
/// RGBA8 buffer; an `image::ImageBuffer` holds exactly four bytes per
/// pixel, so the buffer length matches the dimensions.
#[verifier::external_body]
pub(crate) fn decode_rgba(bytes: &[u8]) -> (r: Result<Bitmap, image::ImageError>)
    ensures
        r is Ok <==> rgba_decoding(bytes@) is Some,
        r matches Ok(bm) ==> {
            let d = rgba_decoding(bytes@)->Some_0;
            &&& bm@.width == d.0
            &&& bm@.height == d.1
            &&& bm@.pixels == d.2
            &&& bm@.pixels.len() == 4 * bm@.width * bm@.height
        },
{
    let img = image::load_from_memory(bytes)?;
    let buf = img.into_rgba8();
    Ok(Bitmap { width: buf.width(), height: buf.height(), pixels: buf.into_raw() })
}

} // verus!
