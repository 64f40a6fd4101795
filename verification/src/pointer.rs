//! The image that the compositor shows for the pointer.
use vstd::prelude::*;

verus! {

/// The width of the pointer image.
pub const POINTER_WIDTH: u32 = 64;

/// The height of the pointer image.
pub const POINTER_HEIGHT: u32 = 64;

/// `image::ImageBuffer::from_raw` for pixels of four bytes, of which the raw buffer is handed
/// out again: there is an image if and only if `data` has a byte for each channel of each
/// pixel, and a row is not too long to be counted. Bytes beyond these are kept.
#[verifier::external_body]
fn rgba_from_raw(width: u32, height: u32, data: Vec<u8>) -> (image: Option<Vec<u8>>)
    ensures
        image is Some <==> (4 * width <= usize::MAX && 4 * width * height <= data@.len()),
        image matches Some(raw) ==> raw@ == data@,
{
    image::ImageBuffer::<image::Rgba<u8>, Vec<u8>>::from_raw(width, height, data).map(
        |image| image.into_raw(),
    )
}

/// An image for the pointer: rows of pixels, four bytes each, red, green, blue and alpha.
pub struct PointerImage {
    pub width: u32,
    pub height: u32,
    pub pixels: Vec<u8>,
}

impl PointerImage {
    /// The image whose pixels are `bytes`: none if there are not enough of them.
    pub fn from_bytes(bytes: Vec<u8>) -> (image: Option<PointerImage>)
        ensures
            image is Some <==> 4 * POINTER_WIDTH * POINTER_HEIGHT <= bytes@.len(),
            image matches Some(image) ==> {
                &&& image.width == POINTER_WIDTH
                &&& image.height == POINTER_HEIGHT
                &&& image.pixels@ == bytes@
            },
    {
        match rgba_from_raw(POINTER_WIDTH, POINTER_HEIGHT, bytes) {
            Some(pixels) => Some(
                PointerImage { width: POINTER_WIDTH, height: POINTER_HEIGHT, pixels },
            ),
            None => None,
        }
    }
}

}
