//! Decoded images, as the `image` crate holds them.
//!
//! A `DynamicImage` is opaque to the verifier. What the library knows of one
//! is the color that `get_pixel` gives for each of its pixels, under the name
//! [`image_rows`]. The functions here are the library's only calls into the
//! crate; their contracts are taken on trust from the crate's source.

use vstd::prelude::*;
use image::DynamicImage;
use image::GenericImage;
use image::GenericImageView;
use image::Rgba;
use crate::color::Color;

verus! {

/// `image::DynamicImage`: a decoded image in one of several pixel formats.
#[verifier::external_type_specification]
#[verifier::external_body]
pub struct ExDynamicImage(DynamicImage);

/// The pixels of an image, row by row from the top, each as the RGBA color
/// that `GenericImageView::get_pixel` gives for it. All rows have the same
/// length, the image's width.
pub uninterp spec fn image_rows(img: DynamicImage) -> Seq<Seq<Color>>;

/// Whether an image stores its pixels as 8-bit RGBA, so that a color written
/// to a pixel is read back unchanged.
pub uninterp spec fn image_is_rgba8(img: DynamicImage) -> bool;

/// Whether `rows` has `h` rows of `w` pixels each.
pub open spec fn rows_have_size(rows: Seq<Seq<Color>>, w: int, h: int) -> bool {
    &&& rows.len() == h
    &&& forall|y: int| 0 <= y < h ==> (#[trigger] rows[y]).len() == w
}

/// `rows` with the pixel `(x, y)` replaced by `c`.
pub open spec fn rows_with(rows: Seq<Seq<Color>>, x: int, y: int, c: Color) -> Seq<Seq<Color>> {
    rows.update(y, rows[y].update(x, c))
}

/// Width and height of an image: `GenericImageView::dimensions`.
///
/// Trusted: the image has as many rows as the height returned, each as long
/// as the width returned.
#[verifier::external_body]
pub(crate) fn image_dimensions(img: &DynamicImage) -> (r: (u32, u32))
    ensures
        rows_have_size(image_rows(*img), r.0 as int, r.1 as int),
{
    img.dimensions()
}

/// The color of one pixel: `GenericImageView::get_pixel`, which panics
/// outside the image.
///
/// Trusted: the result is the pixel's entry in `image_rows`, which is how
/// that name is defined.
#[verifier::external_body]
pub(crate) fn image_get_pixel(img: &DynamicImage, x: u32, y: u32) -> (c: Color)
    requires
        y < image_rows(*img).len(),
        x < image_rows(*img)[y as int].len(),
    ensures
        c == image_rows(*img)[y as int][x as int],
{
    let px: Rgba<u8> = img.get_pixel(x, y);
    Color { r: px[0], g: px[1], b: px[2], a: px[3] }
}

/// A new image of `w` by `h` pixels: `DynamicImage::new_rgba8`, which panics
/// where the pixel buffer's length overflows.
///
/// Trusted: the image stores 8-bit RGBA, and all of its pixels are zero in
/// all four channels.
#[verifier::external_body]
pub(crate) fn image_new_rgba8(w: u32, h: u32) -> (img: DynamicImage)
    requires
        4 * w * h <= usize::MAX,
    ensures
        image_is_rgba8(img),
        image_rows(img) == Seq::new(
            h as nat,
            |y: int| Seq::new(w as nat, |x: int| Color { r: 0, g: 0, b: 0, a: 0 }),
        ),
{
    DynamicImage::new_rgba8(w, h)
}

/// Writes one pixel: `GenericImage::put_pixel`, which panics outside the
/// image.
///
/// Trusted: on an image that stores 8-bit RGBA the color is stored as it is,
/// and no other pixel changes.
#[verifier::external_body]
pub(crate) fn image_put_pixel(img: &mut DynamicImage, x: u32, y: u32, c: Color)
    requires
        image_is_rgba8(*old(img)),
        y < image_rows(*old(img)).len(),
        x < image_rows(*old(img))[y as int].len(),
    ensures
        image_is_rgba8(*final(img)),
        image_rows(*final(img)) == rows_with(image_rows(*old(img)), x as int, y as int, c),
{
    img.put_pixel(x, y, Rgba([c.r, c.g, c.b, c.a]))
}

} // verus!
