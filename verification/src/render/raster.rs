//! Images of red, green and blue pixels, held in the buffers of the `image` crate.

use vstd::prelude::*;
use image::{ImageBuffer, Rgb, RgbImage};

verus! {

/// An image of red, green and blue pixels: an `image::RgbImage`, which holds the channels
/// of its pixels in one buffer, row by row. Every `Raster` is made by `ImageBuffer::from_fn`,
/// so its buffer holds exactly three channels for each pixel.
#[verifier::external_body]
pub struct Raster {
    buffer: RgbImage,
}

/// Width and height of an image, in pixels.
pub uninterp spec fn raster_size(raster: Raster) -> (int, int);

/// The channels of the pixels of an image, row by row, three for each pixel.
pub uninterp spec fn raster_data(raster: Raster) -> Seq<u8>;

/// Where the first channel of the pixel at column `x` and row `y` stands in the data of an
/// image of the given width.
pub open spec fn pixel_offset(width: int, x: int, y: int) -> int {
    (y * width + x) * 3
}

/// Whether the pixel at column `x` and row `y` of an image has the colour `c`.
pub open spec fn has_color(raster: Raster, x: int, y: int, c: Rgb<u8>) -> bool {
    let offset = pixel_offset(raster_size(raster).0, x, y);
    &&& raster_data(raster)[offset] == c.0[0]
    &&& raster_data(raster)[offset + 1] == c.0[1]
    &&& raster_data(raster)[offset + 2] == c.0[2]
}

/// Whether an image of the given size can be made: whether the number of its channels, and
/// on the way to it three times its width, can be counted in `usize`.
pub open spec fn fits(width: int, height: int) -> bool {
    &&& 3 * width <= usize::MAX
    &&& 3 * width * height <= usize::MAX
}

/// Calls `image`'s `ImageBuffer::from_fn`, which makes a buffer of `width * height` pixels
/// and sets the pixel at `(x, y)`, whose three channels stand from `(y * width + x) * 3` on,
/// to what the function it is given returns for `(x, y)`: here, to `columns[x][y]`. It
/// panics where `3 * width`, or that times `height`, does not fit in `usize`.
#[verifier::external_body]
pub(crate) fn raster_from_columns(width: u32, height: u32, columns: &Vec<Vec<Rgb<u8>>>) -> (raster:
    Raster)
    requires
        fits(width as int, height as int),
        columns.len() >= width,
        forall|x: int| 0 <= x < width ==> (#[trigger] columns[x]).len() >= height,
    ensures
        raster_size(raster) == (width as int, height as int),
        raster_data(raster).len() == width * height * 3,
        forall|x: int, y: int|
            0 <= x < width && 0 <= y < height ==> has_color(raster, x, y, #[trigger] columns[x][y]),
{
    Raster { buffer: ImageBuffer::from_fn(width, height, |x, y| columns[x as usize][y as usize]) }
}

/// Calls `image`'s `ImageBuffer::dimensions`, which returns the width and the height.
#[verifier::external_body]
fn raster_dimensions(raster: &Raster) -> (size: (u32, u32))
    ensures
        (size.0 as int, size.1 as int) == raster_size(*raster),
{
    raster.buffer.dimensions()
}

/// Calls `image`'s `ImageBuffer::as_raw`, which returns the buffer of the channels; it holds
/// three channels for each pixel and no more, because `ImageBuffer::from_fn` made it.
#[verifier::external_body]
fn raster_samples(raster: &Raster) -> (samples: &Vec<u8>)
    ensures
        samples@ == raster_data(*raster),
        samples@.len() == raster_size(*raster).0 * raster_size(*raster).1 * 3,
{
    raster.buffer.as_raw()
}

impl Raster {
    /// The width and the height, in pixels.
    pub fn dimensions(&self) -> (size: (u32, u32))
        ensures
            (size.0 as int, size.1 as int) == raster_size(*self),
    {
        raster_dimensions(self)
    }

    /// The channels of the pixels, row by row, three for each pixel.
    pub fn as_raw(&self) -> (samples: &Vec<u8>)
        ensures
            samples@ == raster_data(*self),
            samples@.len() == raster_size(*self).0 * raster_size(*self).1 * 3,
    {
        raster_samples(self)
    }

    /// The colour of the pixel at column `x` and row `y`, or `None` where the image has no
    /// such pixel.
    pub fn get_pixel_checked(&self, x: u32, y: u32) -> (pixel: Option<Rgb<u8>>)
        ensures
            pixel is Some <==> x < raster_size(*self).0 && y < raster_size(*self).1,
            pixel matches Some(c) ==> has_color(*self, x as int, y as int, c),
    {
        let (width, height) = raster_dimensions(self);
        if x >= width || y >= height {
            return None;
        }
        let samples = raster_samples(self);
        let count: usize = samples.len();
        proof {
            assert(count == width * height * 3);
            lemma_pixel_in_data(width as int, height as int, x as int, y as int);
            assert(raster_size(*self) == (width as int, height as int));
            assert(samples@.len() == width * height * 3);
            assert(pixel_offset(width as int, x as int, y as int) == (y * width + x) * 3);
        }
        let offset: usize = (y as usize * width as usize + x as usize) * 3;
        Some(Rgb([samples[offset], samples[offset + 1], samples[offset + 2]]))
    }
}

/// The three channels of every pixel of an image lie within its data.
proof fn lemma_pixel_in_data(width: int, height: int, x: int, y: int)
    requires
        0 <= x < width,
        0 <= y < height,
    ensures
        0 <= y * width <= y * width + x,
        0 <= pixel_offset(width, x, y),
        pixel_offset(width, x, y) + 3 <= width * height * 3,
{
    assert(0 <= y * width && (y + 1) * width <= height * width) by (nonlinear_arith)
        requires
            0 <= y < height,
            0 <= width,
    ;
    assert((y + 1) * width == y * width + width) by (nonlinear_arith);
    assert(height * width == width * height) by (nonlinear_arith);
}

} // verus!
