use crate::img::Image;
use crate::img::ImageModel;
use vstd::prelude::*;

verus! {

/// The image that the codec reads out of a byte stream, as an RGBA model:
/// `None` where the bytes are not a decodable image. Decoding is a
/// function of the bytes alone.
pub uninterp spec fn decode_result(bytes: Seq<u8>) -> Option<ImageModel>;

/// The JPEG stream that the codec writes for an image at quality 85.
/// Encoding is a function of the image alone.
pub uninterp spec fn jpeg85_bytes(im: ImageModel) -> Seq<u8>;

/// Relies on image::load_from_memory, which guesses the format and
/// decodes the bytes, and on DynamicImage::to_rgba8 and
/// ImageBuffer::into_raw, which lay the pixels out as four bytes each in
/// row-major order. Every decoder of the crate rejects an image with a
/// zero dimension, so a decoded image is non-empty.
#[verifier::external_body]
pub(crate) fn decode_rgba(bytes: &[u8]) -> (r: Option<Image>)
    ensures
        match r {
            Some(im) => im.wf() && im.width >= 1 && im.height >= 1 && decode_result(bytes@)
                == Some(im@),
            None => decode_result(bytes@) is None,
        },
{
    match image::load_from_memory(bytes) {
        Ok(decoded) => {
            let buf = decoded.to_rgba8();
            let width = buf.width();
            let height = buf.height();
            Some(Image { width, height, data: buf.into_raw() })
        },
        Err(_) => None,
    }
}

/// Relies on image::codecs::jpeg::JpegEncoder at quality 85, which writes
/// a deterministic JPEG stream for the pixels it is given, fails only for
/// a dimension outside 1 to 65535 when the writer is an in-memory vector,
/// and preserves the image's dimensions: JPEG is lossy in the pixel
/// values, never in the width and height, so decoding the encoder's
/// output yields an image of the same dimensions. The decoder enforces a
/// 512 MiB allocation limit, so the round trip is only claimed for images
/// whose decoded form stays under it; the one caller encodes 1600 by 1200.
/// The alpha channel is dropped before encoding, as JPEG carries no alpha.
#[verifier::external_body]
pub(crate) fn encode_jpeg85(im: &Image) -> (r: Option<Vec<u8>>)
    requires
        im.wf(),
        im.width >= 1,
        im.height >= 1,
        3 * ((im.width as int) * (im.height as int)) <= 0x2000_0000,
    ensures
        im.width <= 65535 && im.height <= 65535 ==> r is Some,
        match r {
            Some(b) => b@ == jpeg85_bytes(im@) && (decode_result(jpeg85_bytes(im@)) matches Some(d)
                && d.width == im@.width && d.height == im@.height),
            None => true,
        },
{
    let buf = match image::RgbaImage::from_raw(im.width, im.height, im.data.clone()) {
        Some(b) => b,
        None => return None,
    };
    let rgb = image::DynamicImage::ImageRgba8(buf).to_rgb8();
    let mut out: Vec<u8> = Vec::new();
    let mut enc = image::codecs::jpeg::JpegEncoder::new_with_quality(&mut out, 85);
    match enc.encode_image(&rgb) {
        Ok(()) => Some(out),
        Err(_) => None,
    }
}

} // verus!
