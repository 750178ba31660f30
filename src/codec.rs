use vstd::prelude::*;

verus! {

/// A container format as the image crate reports it; opaque to proofs,
/// compared only for equality.
#[verifier::external_type_specification]
#[verifier::external_body]
pub struct ExImageFormat(image::ImageFormat);

/// The RGBA bytes that resampling `pixels` (of `width` by `height` pixels)
/// to `target_width` by `target_height` with a triangle filter yields.
pub uninterp spec fn resized(
    pixels: Seq<u8>,
    width: u32,
    height: u32,
    target_width: u32,
    target_height: u32,
) -> Seq<u8>;

/// Relies on the derived `PartialEq` of `image::ImageFormat`, an enum of
/// unit variants: two formats compare equal exactly when they are the same.
#[verifier::external_body]
pub(crate) fn same_format(a: &image::ImageFormat, b: &image::ImageFormat) -> (r: bool)
    ensures
        r == (*a == *b),
{
    a == b
}

/// Relies on `image::RgbaImage::from_raw`, which accepts a buffer of
/// `width * height * 4` bytes, and on `image::imageops::resize` with
/// `FilterType::Triangle`: it returns an image of exactly the target size,
/// and a copy of the source when the target size equals the source size.
/// `resize` indexes source pixels for every target pixel, so the source may
/// not be empty.
#[verifier::external_body]
pub(crate) fn resize_rgba(
    pixels: &Vec<u8>,
    width: u32,
    height: u32,
    target_width: u32,
    target_height: u32,
) -> (r: Vec<u8>)
    requires
        width > 0,
        height > 0,
        pixels@.len() == width * height * 4,
        target_width * target_height * 4 <= usize::MAX,
    ensures
        r@ == resized(pixels@, width, height, target_width, target_height),
        r@.len() == target_width * target_height * 4,
        target_width == width && target_height == height ==> r@ == pixels@,
{
    let source = image::RgbaImage::from_raw(width, height, pixels.clone()).unwrap();
    let filter = image::imageops::FilterType::Triangle;
    image::imageops::resize(&source, target_width, target_height, filter).into_raw()
}

} // verus!
