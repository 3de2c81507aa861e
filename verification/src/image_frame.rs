use crate::messages::{CameraFrame, RG24_FOURCC};
use vstd::prelude::*;

verus! {

/// An RGB image built from a camera frame. Verus cannot declare the image
/// crate's buffer type (its pixel parameter is bounded by an outside trait),
/// so the buffer is held here, opaque to Verus, and described by
/// [`rgb_image_pixels`] and [`rgb_image_size`].
#[verifier::external_body]
pub struct RgbFrameImage {
    pub image: image::RgbImage,
}

/// The raw RGB bytes held by an image buffer.
pub uninterp spec fn rgb_image_pixels(img: RgbFrameImage) -> Seq<u8>;

/// The width and height an image buffer was made with, in this order.
pub uninterp spec fn rgb_image_size(img: RgbFrameImage) -> Seq<u32>;

/// Whether a buffer of `len` bytes can hold a `width` by `height` RGB image:
/// three bytes per pixel, with the row size fitting in a `usize`.
pub open spec fn rgb_fits(width: u32, height: u32, len: nat) -> bool {
    &&& 3 * width <= usize::MAX
    &&& 3 * width * height <= len
}

/// `ImageBuffer::from_raw` for 8-bit RGB: it returns a buffer exactly when
/// `3 * width` and then `3 * width * height` can be computed in a `usize`
/// (checked multiplications) and the product is at most the length of
/// `data`; the buffer keeps `data` and the given width and height.
#[verifier::external_body]
fn rgb_image_from_raw(width: u32, height: u32, data: Vec<u8>) -> (img: Option<RgbFrameImage>)
    ensures
        img is Some <==> rgb_fits(width, height, data@.len()),
        img is Some ==> rgb_image_pixels(img->Some_0) == data@,
        img is Some ==> rgb_image_size(img->Some_0) == seq![width, height],
{
    match image::RgbImage::from_raw(width, height, data) {
        Some(image) => Some(RgbFrameImage { image }),
        None => None,
    }
}

/// Why a camera frame could not be turned into an image.
#[derive(Clone, Copy, Debug, PartialEq, Eq, Structural)]
pub enum FrameError {
    /// The frame's pixel format is not packed 24-bit RGB; the code is kept.
    UnsupportedFourcc(u32),
    /// The frame holds fewer bytes than its size calls for.
    InvalidLength,
}

/// Builds the RGB image carried by a camera frame: the frame must be in the
/// RG24 format and hold at least three bytes per pixel.
pub fn image_from_frame(frame: &CameraFrame) -> (r: Result<RgbFrameImage, FrameError>)
    ensures
        frame.fourcc != RG24_FOURCC ==> r == Err::<RgbFrameImage, FrameError>(
            FrameError::UnsupportedFourcc(frame.fourcc),
        ),
        frame.fourcc == RG24_FOURCC && !rgb_fits(frame.width, frame.height, frame.data@.len())
            ==> r == Err::<RgbFrameImage, FrameError>(FrameError::InvalidLength),
        frame.fourcc == RG24_FOURCC && rgb_fits(frame.width, frame.height, frame.data@.len())
            ==> (r is Ok && rgb_image_pixels(r->Ok_0) == frame.data@ && rgb_image_size(r->Ok_0)
            == seq![frame.width, frame.height]),
{
    if frame.fourcc != RG24_FOURCC {
        return Err(FrameError::UnsupportedFourcc(frame.fourcc));
    }
    match rgb_image_from_raw(frame.width, frame.height, frame.data.clone()) {
        Some(img) => Ok(img),
        None => Err(FrameError::InvalidLength),
    }
}

} // verus!
