//! The in-memory bitmap buffer.
//!
//! The pixel grid lives in `bmp::Image`, the buffer that the surrounding
//! program later serializes to a bitmap file. The buffer is opaque to the
//! verifier, so its contents are named by `pixel_grid` and `image_dims`,
//! and the two operations the rasterizer needs are wrapped with contracts
//! drawn from the `bmp` crate's source: a fresh buffer is black, and a
//! pixel write replaces exactly one cell, with `(x, y)` counted from the
//! top-left corner.

use vstd::prelude::*;
use crate::color::{Rgb, rgb_triple};

verus! {

#[verifier::external_type_specification]
#[verifier::external_body]
pub struct ExImage(bmp::Image);

#[verifier::external_type_specification]
#[verifier::external_body]
pub struct ExPixel(bmp::Pixel);

/// The contents of a bitmap buffer: the channel triple of each cell, keyed
/// by pixel coordinate with `(0, 0)` the top-left corner.
pub uninterp spec fn pixel_grid(img: bmp::Image) -> Map<(int, int), (u8, u8, u8)>;

/// The width and height a bitmap buffer was created with.
pub uninterp spec fn image_dims(img: bmp::Image) -> (u32, u32);

/// A grid of the given dimensions with every cell black, the state of a
/// fresh buffer.
pub open spec fn blank_grid(width: int, height: int) -> Map<(int, int), (u8, u8, u8)> {
    Map::new(
        |p: (int, int)| 0 <= p.0 < width && 0 <= p.1 < height,
        |p: (int, int)| (0u8, 0u8, 0u8),
    )
}

/// Relies on `bmp::Image::new`: builds a `width` by `height` buffer with
/// every pixel initialized to black. The size bound keeps the crate's
/// internal 32-bit row and file size arithmetic from overflowing.
#[verifier::external_body]
pub fn image_new(width: u32, height: u32) -> (img: bmp::Image)
    requires
        16 * (width as int) * (height as int) <= u32::MAX,
    ensures
        image_dims(img) == (width, height),
        pixel_grid(img) == blank_grid(width as int, height as int),
{
    bmp::Image::new(width, height)
}

/// Relies on `bmp::Image::set_pixel`: writes one pixel at `(x, y)`,
/// counted from the top-left corner, and leaves every other cell and the
/// dimensions unchanged.
#[verifier::external_body]
pub fn image_set_pixel(img: &mut bmp::Image, x: u32, y: u32, color: Rgb)
    requires
        x < image_dims(*old(img)).0,
        y < image_dims(*old(img)).1,
        16 * (image_dims(*old(img)).0 as int) * (image_dims(*old(img)).1 as int) <= u32::MAX,
    ensures
        image_dims(*final(img)) == image_dims(*old(img)),
        pixel_grid(*final(img)) == pixel_grid(*old(img)).insert(
            (x as int, y as int),
            rgb_triple(color),
        ),
{
    img.set_pixel(x, y, bmp::Pixel::new(color.r, color.g, color.b));
}

} // verus!
