//! The RGBA images that texture decoding produces, held in `image` buffers.
use vstd::prelude::*;

verus! {

/// An 8-bit RGBA image, held in an `image::ImageBuffer`. The buffer type
/// cannot be declared to Verus (its parameter is bounded by the crate's
/// `Pixel` trait), so the struct is opaque and what it holds is named below.
#[verifier::external_body]
pub struct RgbaImage {
    buffer: image::ImageBuffer<image::Rgba<u8>, Vec<u8>>,
}

/// The raw channel bytes that an RGBA image holds, four per pixel, row by row.
pub uninterp spec fn image_bytes(img: RgbaImage) -> Seq<u8>;

/// The width and height that an RGBA image was made with.
pub uninterp spec fn image_size(img: RgbaImage) -> (u32, u32);

/// `image::ImageBuffer::<Rgba<u8>, Vec<u8>>::from_vec`, unwrapped: an image
/// of the given size over `buf`. `from_vec` gives `None` exactly when `buf`
/// holds fewer than `4 * width * height` bytes, which `requires` excludes; the
/// image keeps `buf` as its data.
#[verifier::external_body]
pub(crate) fn rgba_image_from_vec(width: u32, height: u32, buf: Vec<u8>) -> (res: RgbaImage)
    requires
        4 * width * height <= buf@.len(),
    ensures
        image_bytes(res) == buf@,
        image_size(res) == (width, height),
{
    RgbaImage { buffer: image::ImageBuffer::<image::Rgba<u8>, Vec<u8>>::from_vec(width, height, buf).unwrap() }
}

/// `ImageBuffer::width`: the width the image was made with.
#[verifier::external_body]
fn buffer_width(img: &RgbaImage) -> (res: u32)
    ensures
        res == image_size(*img).0,
{
    img.buffer.width()
}

/// `ImageBuffer::height`: the height the image was made with.
#[verifier::external_body]
fn buffer_height(img: &RgbaImage) -> (res: u32)
    ensures
        res == image_size(*img).1,
{
    img.buffer.height()
}

/// `ImageBuffer::as_raw`: the image's channel bytes.
#[verifier::external_body]
fn buffer_as_raw(img: &RgbaImage) -> (res: &Vec<u8>)
    ensures
        res@ == image_bytes(*img),
{
    img.buffer.as_raw()
}

impl RgbaImage {
    /// The width in pixels.
    pub fn width(&self) -> (res: u32)
        ensures
            res == image_size(*self).0,
    {
        buffer_width(self)
    }

    /// The height in pixels.
    pub fn height(&self) -> (res: u32)
        ensures
            res == image_size(*self).1,
    {
        buffer_height(self)
    }

    /// The channel bytes: red, green, blue and alpha of each pixel, row by row.
    pub fn as_raw(&self) -> (res: &Vec<u8>)
        ensures
            res@ == image_bytes(*self),
    {
        buffer_as_raw(self)
    }
}

} // verus!
