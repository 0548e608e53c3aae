use crate::image::{rgb_bytes, Image};
use vstd::prelude::*;

verus! {

#[verifier::external_type_specification]
#[verifier::external_body]
pub struct ExEncodingError(png::EncodingError);

/// The PNG file that png's encoder writes, with its default settings, for an
/// 8-bit RGB picture of the given size and raw pixel bytes.
pub uninterp spec fn png_rgb8(width: u32, height: u32, data: Seq<u8>) -> Seq<u8>;

/// Relies on png's `Encoder` (`new`, `set_color`, `set_depth`,
/// `write_header`) and `Writer` (`write_image_data`, `finish`) to write an
/// 8-bit RGB picture as a PNG file in memory. The header is refused for a
/// zero width or height; with sequence validation off, as it is by default,
/// nothing else is refused, and writing into a `Vec` cannot fail.
#[verifier::external_body]
fn encode_rgb8(width: u32, height: u32, data: &[u8]) -> (r: Result<Vec<u8>, png::EncodingError>)
    requires
        data@.len() == 3 * width * height,
    ensures
        r is Ok ==> r->Ok_0@ == png_rgb8(width, height, data@),
        r is Ok ==> width > 0 && height > 0,
        width > 0 && height > 0 ==> r is Ok,
{
    let mut bytes: Vec<u8> = Vec::new();
    {
        let mut encoder = png::Encoder::new(&mut bytes, width, height);
        encoder.set_color(png::ColorType::Rgb);
        encoder.set_depth(png::BitDepth::Eight);
        let mut writer = encoder.write_header()?;
        writer.write_image_data(data)?;
        writer.finish()?;
    }
    Ok(bytes)
}

/// Why a picture could not be turned into PNG bytes.
#[derive(Debug, Clone, Copy, PartialEq, Eq, Structural)]
pub enum EncodeError {
    /// A side of the picture does not fit in the 32 bits that PNG gives it.
    TooLarge,
    /// The encoder refused the picture.
    Encoding,
}

impl Image {
    /// The picture as an 8-bit RGB PNG file.
    pub fn encode_png(&self) -> (r: Result<Vec<u8>, EncodeError>)
        requires
            self@.wf(),
            3 * self@.pixels.len() <= usize::MAX,
        ensures
            r == Err::<Vec<u8>, EncodeError>(EncodeError::TooLarge) <==> (self@.width > u32::MAX
                || self@.height > u32::MAX),
            r is Ok ==> r->Ok_0@ == png_rgb8(
                self@.width as u32,
                self@.height as u32,
                rgb_bytes(self@.pixels),
            ),
            self@.width <= u32::MAX && self@.height <= u32::MAX && (self@.width == 0
                || self@.height == 0) ==> r == Err::<Vec<u8>, EncodeError>(EncodeError::Encoding),
            self@.width <= u32::MAX && self@.height <= u32::MAX && self@.width > 0 && self@.height
                > 0 ==> r is Ok,
    {
        let width = self.width();
        let height = self.height();
        if width > u32::MAX as usize || height > u32::MAX as usize {
            return Err(EncodeError::TooLarge);
        }
        let data = self.to_vec();
        proof {
            crate::image::lemma_rgb_bytes_len(self@.pixels);
            let (w, h) = (self@.width as int, self@.height as int);
            assert(3 * (w * h) == 3 * w * h) by (nonlinear_arith);
        }
        match encode_rgb8(width as u32, height as u32, data.as_slice()) {
            Ok(bytes) => Ok(bytes),
            Err(_) => Err(EncodeError::Encoding),
        }
    }
}

} // verus!
