//! Decoding and scaling of incoming camera frames, done by the `image` crate.

use vstd::prelude::*;

use image::{DynamicImage, GenericImageView, ImageError};

verus! {

/// A decoded picture of any pixel format, as the `image` crate holds it.
#[verifier::external_type_specification]
#[verifier::external_body]
pub struct ExDynamicImage(DynamicImage);

/// Why the `image` crate could not decode a picture.
#[verifier::external_type_specification]
#[verifier::external_body]
pub struct ExImageError(ImageError);

/// Whether `image::load_from_memory` decodes `data`, and if so the picture's
/// `(width, height)`: the format and the size come from the headers, so they
/// are a function of the bytes. The pixels are not named: decoders may take
/// machine-specific paths that round differently.
pub uninterp spec fn decoded_size(data: Seq<u8>) -> Option<(u32, u32)>;

/// What `GenericImageView::dimensions` gives for a decoded picture:
/// `(width, height)` in pixels.
pub uninterp spec fn image_size(img: DynamicImage) -> (u32, u32);

/// What `DynamicImage::resize(width, height, FilterType::Triangle)` gives
/// for `img` (the triangle filter is plain arithmetic and rounding).
pub uninterp spec fn resized_image(img: DynamicImage, width: u32, height: u32) -> DynamicImage;

/// The pixels of `img` converted to 8-bit RGB by `DynamicImage::to_rgb8`,
/// row after row, three bytes (R, G, B) per pixel.
pub uninterp spec fn rgb8_pixels(img: DynamicImage) -> Seq<u8>;

/// Calls `image::load_from_memory`, which guesses the format from the first
/// bytes and decodes the whole picture. Claimed: whether it succeeds, and
/// the size of the picture, depend on the bytes alone (`decoded_size`).
/// Which pixels come out is not claimed.
#[verifier::external_body]
pub(crate) fn load_from_memory(data: &[u8]) -> (r: Result<DynamicImage, ImageError>)
    ensures
        match r {
            Ok(img) => decoded_size(data@) == Some(image_size(img)),
            Err(_) => decoded_size(data@) is None,
        },
{
    image::load_from_memory(data)
}

/// Calls `GenericImageView::dimensions` on a decoded picture. Claimed: the
/// result is `image_size(img)`.
#[verifier::external_body]
pub(crate) fn dimensions(img: &DynamicImage) -> (r: (u32, u32))
    ensures
        r == image_size(*img),
{
    img.dimensions()
}

/// Calls `DynamicImage::resize(width, height, FilterType::Triangle)`.
/// Claimed, from the crate's `resize_dimensions` (fill off): the result fits
/// in `width x height`, is at least one pixel each way, and reaches the
/// bound in one direction; a picture that already has the requested size
/// comes back as it is (a clone). How closely the other side follows the
/// aspect ratio is not claimed. Which pixels come out is left to the name
/// `resized_image`.
#[verifier::external_body]
pub(crate) fn resize(img: &DynamicImage, width: u32, height: u32) -> (r: DynamicImage)
    requires
        image_size(*img).0 >= 1,
        image_size(*img).1 >= 1,
        width >= 1,
        height >= 1,
    ensures
        r == resized_image(*img, width, height),
        1 <= image_size(r).0 <= width,
        1 <= image_size(r).1 <= height,
        image_size(r).0 == width || image_size(r).1 == height,
        image_size(*img) == (width, height) ==> r == *img,
{
    img.resize(width, height, image::imageops::FilterType::Triangle)
}

/// Calls `DynamicImage::to_rgb8` and hands out the buffer (`into_raw`).
/// Claimed: the buffer holds three bytes per pixel of the picture, row
/// after row; which bytes is left to the name `rgb8_pixels`.
#[verifier::external_body]
pub(crate) fn to_rgb8(img: &DynamicImage) -> (r: Vec<u8>)
    ensures
        r@ == rgb8_pixels(*img),
        r@.len() == image_size(*img).0 * image_size(*img).1 * 3,
{
    img.to_rgb8().into_raw()
}

} // verus!
