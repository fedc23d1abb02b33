//! The pixel container that a render fills: `image::DynamicImage`, and the
//! pixel type `image::Rgba` that goes into it.
//!
//! Nothing here is proved. Each contract states what the source of the `image`
//! crate shows of the item that it names.
use image::{DynamicImage, Rgba};
use vstd::prelude::*;

verus! {

/// `image::Rgba`: a pixel of four channels, red, green, blue and alpha.
#[verifier::external_type_specification]
#[verifier::external_body]
#[verifier::reject_recursive_types(T)]
pub struct ExRgba<T>(Rgba<T>);

/// `image::DynamicImage`: a grid of pixels in one of several layouts.
#[verifier::external_type_specification]
#[verifier::external_body]
pub struct ExDynamicImage(DynamicImage);

/// The four channels of a pixel in the order red, green, blue, alpha: the
/// array that `image::Rgba` wraps.
pub uninterp spec fn rgba_channels(p: Rgba<u8>) -> Seq<u8>;

/// What an image holds: for each coordinate `(x, y)` within its bounds, the
/// four channels that `GenericImageView::get_pixel(x, y)` hands out for it.
pub uninterp spec fn image_pixels(img: DynamicImage) -> Map<(int, int), Seq<u8>>;

/// Whether an image stores three 8-bit channels for each pixel, that is,
/// whether it is the variant `DynamicImage::ImageRgb8`.
pub uninterp spec fn holds_rgb8(img: DynamicImage) -> bool;

/// The coordinates of a grid `width` wide and `height` high.
pub open spec fn grid(width: int, height: int) -> Set<(int, int)> {
    Set::new(|c: (int, int)| 0 <= c.0 < width && 0 <= c.1 < height)
}

/// Builds a pixel with the constructor `image::Rgba`, which wraps the array of
/// the four channels as they are given.
#[verifier::external_body]
pub(crate) fn rgba(red: u8, green: u8, blue: u8, alpha: u8) -> (p: Rgba<u8>)
    ensures
        rgba_channels(p) == seq![red, green, blue, alpha],
{
    Rgba([red, green, blue, alpha])
}

/// Calls `DynamicImage::new_rgb8`, which allocates `3 * width * height` zeroed
/// bytes for an image of the variant `ImageRgb8`, and panics where that count
/// is more than a vector can hold. Reading a pixel of that variant gives its
/// three channels and the largest value for alpha.
#[verifier::external_body]
pub(crate) fn blank_rgb8(width: u32, height: u32) -> (img: DynamicImage)
    requires
        3 * width * height <= isize::MAX,
    ensures
        holds_rgb8(img),
        image_pixels(img).dom() == grid(width as int, height as int),
        forall|c: (int, int)| #[trigger]
            image_pixels(img).dom().contains(c) ==> image_pixels(img)[c] == seq![0u8, 0u8, 0u8, 255u8],
{
    DynamicImage::new_rgb8(width, height)
}

/// Calls `GenericImage::put_pixel` on a `DynamicImage`, which panics where the
/// coordinate is out of bounds. On the variant `ImageRgb8` it stores the red,
/// green and blue channels of the pixel at `(x, y)`, drops its alpha, and
/// leaves every other pixel and the layout as they were.
#[verifier::external_body]
pub(crate) fn put_pixel(img: &mut DynamicImage, x: u32, y: u32, pixel: Rgba<u8>)
    requires
        holds_rgb8(*old(img)),
        image_pixels(*old(img)).dom().contains((x as int, y as int)),
    ensures
        holds_rgb8(*final(img)),
        image_pixels(*final(img)) == image_pixels(*old(img)).insert(
            (x as int, y as int),
            seq![rgba_channels(pixel)[0], rgba_channels(pixel)[1], rgba_channels(pixel)[2], 255u8],
        ),
{
    image::GenericImage::put_pixel(img, x, y, pixel)
}

} // verus!
