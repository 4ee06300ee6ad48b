//! Trusted bindings to the image crate's decoded-image type.
//!
//! A `DynamicImage` is opaque here: the verified pipeline reads its
//! dimensions through these bindings and works on those plain values.

use vstd::prelude::*;

verus! {

#[verifier::external_type_specification]
#[verifier::external_body]
pub struct ExDynamicImage(image::DynamicImage);

/// Relies on image::GenericImageView::dimensions for DynamicImage: the
/// image's width and height, about which nothing further is assumed.
#[verifier::external_body]
pub(crate) fn image_dimensions(img: &image::DynamicImage) -> (u32, u32) {
    image::GenericImageView::dimensions(img)
}

/// Relies on image::DynamicImage::resize_exact, which resamples to exactly
/// the requested dimensions (with a Triangle filter); the returned width and
/// height are read back from the result through
/// image::GenericImageView::dimensions.
#[verifier::external_body]
pub(crate) fn resize_exact_px(img: &image::DynamicImage, nwidth: u32, nheight: u32) -> (r: (
    image::DynamicImage,
    u32,
    u32,
))
    requires
        1 <= nwidth,
        1 <= nheight,
        nwidth as int * nheight as int <= 0x4000_0000,
    ensures
        r.1 == nwidth,
        r.2 == nheight,
{
    let out = img.resize_exact(nwidth, nheight, image::imageops::FilterType::Triangle);
    let (w, h) = image::GenericImageView::dimensions(&out);
    (out, w, h)
}

/// Relies on the Clone impl of image::DynamicImage to duplicate the decoded
/// pixels unchanged.
#[verifier::external_body]
pub(crate) fn copy_image(img: &image::DynamicImage) -> image::DynamicImage {
    img.clone()
}

} // verus!
