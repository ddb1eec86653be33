//! The boundary to the PNG encoder.
//!
//! The encoder is an opaque external collaborator: handed a width, a height
//! and a flat RGB8 buffer of matching length, it produces a complete PNG
//! byte stream in memory. Only the facts its source shows are assumed here;
//! everything around the call is verified.

use vstd::prelude::*;

verus! {

#[verifier::external_type_specification]
#[verifier::external_body]
pub struct ExEncodingError(png::EncodingError);

/// The PNG byte stream that encoding a width × height RGB8 buffer produces.
/// The encoder is deterministic, so the stream is a function of these
/// arguments alone; its exact content is not stated.
pub uninterp spec fn png_encoding(width: u32, height: u32, data: Seq<u8>) -> Seq<u8>;

/// Relies on png's `Encoder::new` / `write_header` / `Writer::write_image_data`
/// / `Writer::finish`, encoding into an in-memory buffer, with the RGB color
/// type and the default 8-bit depth:
/// - `write_header` rejects exactly a zero width or height (RGB at 8 bits is
///   a valid combination, and writing to a `Vec` cannot fail);
/// - `write_image_data` then rejects exactly a buffer whose length is not
///   `3 * width * height` bytes;
/// - otherwise every call succeeds and the buffer holds the complete stream.
/// The length bound keeps the encoder's internal row-size arithmetic, which
/// its source computes in `usize`, from overflowing.
#[verifier::external_body]
pub(crate) fn png_encode_rgb8(width: u32, height: u32, data: &[u8]) -> (r: Result<Vec<u8>, png::EncodingError>)
    requires
        3 * (width as int) * (height as int) + (height as int) <= usize::MAX as int,
    ensures
        (r is Ok) <==> (width > 0 && height > 0 && data@.len() == 3 * (width as int) * (height as int)),
        r matches Ok(b) ==> b@ == png_encoding(width, height, data@),
{
    let mut out: Vec<u8> = Vec::new();
    let mut encoder = png::Encoder::new(&mut out, width, height);
    encoder.set_color(png::ColorType::Rgb);
    let mut writer = match encoder.write_header() {
        Ok(w) => w,
        Err(e) => return Err(e),
    };
    if let Err(e) = writer.write_image_data(data) {
        return Err(e);
    }
    if let Err(e) = writer.finish() {
        return Err(e);
    }
    Ok(out)
}

} // verus!
