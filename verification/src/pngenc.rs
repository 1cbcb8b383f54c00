//! PNG emission: the byte stream every output format of this crate is
//! built from.

use vstd::prelude::*;

use crate::error::IconError;
use crate::raster::{spec_pixels_bytes, Raster, MAX_DIM};

verus! {

/// The PNG stream that the encoder produces for the given interleaved
/// RGBA bytes, dimensions and compression choice (`best` selects highest
/// compression with adaptive filtering; otherwise the encoder default is
/// used). The encoder is a pure function of these inputs.
pub uninterp spec fn png_of(bytes: Seq<u8>, w: int, h: int, best: bool) -> Seq<u8>;

/// Relies on `image::codecs::png::PngEncoder::write_image` for RGBA
/// data: it writes one PNG stream for the buffer, whose length it
/// requires to be exactly `4*w*h`, into the supplied writer. For the
/// admitted inputs (nonzero dimensions, an exact-length buffer, an
/// in-memory writer) the encoder has no failure path, so the call
/// always succeeds.
#[verifier::external_body]
fn png_encode_rgba(bytes: &Vec<u8>, w: u32, h: u32, best: bool) -> (r: Result<Vec<u8>, IconError>)
    requires
        1 <= w <= MAX_DIM,
        1 <= h <= MAX_DIM,
        bytes@.len() == 4 * (w * h),
    ensures
        r is Ok,
        (r->Ok_0)@ == png_of(bytes@, w as int, h as int, best),
{
    let mut out: Vec<u8> = Vec::new();
    let compression = if best {
        image::codecs::png::CompressionType::Best
    } else {
        image::codecs::png::CompressionType::default()
    };
    let filter = image::codecs::png::FilterType::Adaptive;
    let enc = image::codecs::png::PngEncoder::new_with_quality(&mut out, compression, filter);
    match image::ImageEncoder::write_image(enc, bytes, w, h, image::ColorType::Rgba8) {
        Ok(()) => Ok(out),
        Err(_) => Err(IconError::EncodeFailed),
    }
}

/// The PNG stream for a raster under the given compression choice.
pub open spec fn spec_png(img: &Raster, best: bool) -> Seq<u8> {
    png_of(spec_pixels_bytes(img.pixels@), img.width as int, img.height as int, best)
}

/// Encode a raster as a PNG stream; encoding a well-formed raster
/// cannot fail.
pub fn encode_png(img: &Raster, best: bool) -> (r: Result<Vec<u8>, IconError>)
    requires
        img.wf(),
        1 <= img.width,
        1 <= img.height,
    ensures
        r is Ok,
        (r->Ok_0)@ == spec_png(img, best),
{
    let bytes = img.to_bytes();
    png_encode_rgba(&bytes, img.width, img.height, best)
}

} // verus!
