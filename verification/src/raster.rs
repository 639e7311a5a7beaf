//! Decoded images, as the partitioner reads them.
use crate::color::Color;
use vstd::prelude::*;

verus! {

/// A decoded image of 16-bit RGBA samples, held in an `image::ImageBuffer`.
///
/// The buffer is hidden from the verifier: what is known of a raster is what
/// `raster_dimensions` and `raster_samples` say, through the contracts of
/// the functions below.
#[verifier::external_body]
pub struct Raster {
    buffer: image::ImageBuffer<image::Rgba<u16>, Vec<u16>>,
}

/// The width and height, in pixels, that the image buffer was made with.
pub uninterp spec fn raster_dimensions(img: Raster) -> (u32, u32);

/// The samples that the image buffer holds: row by row, four to a pixel, in
/// the order red, green, blue, alpha.
pub uninterp spec fn raster_samples(img: Raster) -> Seq<u16>;

/// The fixed-point channel nearest to a 16-bit sample, where the largest
/// sample stands for `ONE`.
pub open spec fn sample_channel(sample: u16) -> int {
    sample + sample / 32768
}

/// True when `len` samples are enough for an image of `width` by `height`
/// pixels: four times the width fits in a `usize`, and four samples for every
/// pixel are there.
pub open spec fn raw_fits(width: u32, height: u32, len: nat) -> bool {
    4 * width <= usize::MAX && 4 * width * height <= len
}

/// Calls `image::ImageBuffer::from_raw`, which accepts the samples exactly
/// when four times width times height can be computed in a `usize` and does
/// not exceed their number, and then keeps the dimensions and the samples as
/// given.
#[verifier::external_body]
fn buffer_from_raw(width: u32, height: u32, samples: Vec<u16>) -> (out: Option<Raster>)
    ensures
        out.is_some() == raw_fits(width, height, samples@.len()),
        out.is_some() ==> raster_dimensions(out.unwrap()) == (width, height),
        out.is_some() ==> raster_samples(out.unwrap()) == samples@,
{
    match image::ImageBuffer::from_raw(width, height, samples) {
        Some(buffer) => Some(Raster { buffer }),
        None => None,
    }
}

/// Calls `image::ImageBuffer::width`, which returns the width that the
/// buffer was made with.
#[verifier::external_body]
fn buffer_width(img: &Raster) -> (w: u32)
    ensures
        w == raster_dimensions(*img).0,
{
    img.buffer.width()
}

/// Calls `image::ImageBuffer::height`, which returns the height that the
/// buffer was made with.
#[verifier::external_body]
fn buffer_height(img: &Raster) -> (h: u32)
    ensures
        h == raster_dimensions(*img).1,
{
    img.buffer.height()
}

/// Calls `image::ImageBuffer::get_pixel`, which panics outside the image and
/// inside it returns the four samples that start at index
/// `4 * (y * width + x)`.
#[verifier::external_body]
fn buffer_pixel(img: &Raster, x: u32, y: u32) -> (p: [u16; 4])
    requires
        x < raster_dimensions(*img).0,
        y < raster_dimensions(*img).1,
    ensures
        p@ == img.spec_pixel(x as int, y as int),
{
    img.buffer.get_pixel(x, y).0
}

impl Raster {
    /// The width in pixels.
    pub open spec fn spec_width(&self) -> u32 {
        raster_dimensions(*self).0
    }

    /// The height in pixels.
    pub open spec fn spec_height(&self) -> u32 {
        raster_dimensions(*self).1
    }

    /// The four samples of the pixel in column `x` of row `y`.
    pub open spec fn spec_pixel(&self, x: int, y: int) -> Seq<u16> {
        raster_samples(*self).subrange(
            4 * (y * self.spec_width() + x),
            4 * (y * self.spec_width() + x) + 4,
        )
    }

    /// The colour of the pixel in column `x` of row `y`.
    pub open spec fn spec_color_at(&self, x: int, y: int) -> Color {
        let p = self.spec_pixel(x, y);
        Color {
            r: sample_channel(p[0]) as i32,
            g: sample_channel(p[1]) as i32,
            b: sample_channel(p[2]) as i32,
            a: sample_channel(p[3]) as i32,
        }
    }

    /// Makes a raster of `width` by `height` pixels from samples laid out row
    /// by row, four to a pixel. Returns `None` when there are too few
    /// samples for these dimensions.
    pub fn from_raw(width: u32, height: u32, samples: Vec<u16>) -> (out: Option<Raster>)
        ensures
            out.is_some() == raw_fits(width, height, samples@.len()),
            out.is_some() ==> out.unwrap().spec_width() == width,
            out.is_some() ==> out.unwrap().spec_height() == height,
            out.is_some() ==> raster_samples(out.unwrap()) == samples@,
    {
        buffer_from_raw(width, height, samples)
    }

    /// The width in pixels.
    #[verifier::when_used_as_spec(spec_width)]
    pub fn width(&self) -> (w: u32)
        ensures
            w == self.spec_width(),
    {
        buffer_width(self)
    }

    /// The height in pixels.
    #[verifier::when_used_as_spec(spec_height)]
    pub fn height(&self) -> (h: u32)
        ensures
            h == self.spec_height(),
    {
        buffer_height(self)
    }

    /// The colour of the pixel in column `x` of row `y`.
    pub fn color_at(&self, x: u32, y: u32) -> (c: Color)
        requires
            x < self.spec_width(),
            y < self.spec_height(),
        ensures
            c == self.spec_color_at(x as int, y as int),
    {
        let p = buffer_pixel(self, x, y);
        Color {
            r: channel_of(p[0]),
            g: channel_of(p[1]),
            b: channel_of(p[2]),
            a: channel_of(p[3]),
        }
    }
}

/// Converts a sample to a fixed-point channel.
fn channel_of(sample: u16) -> (c: i32)
    ensures
        c == sample_channel(sample),
        0 <= c <= 65536,
{
    (sample as i32) + (sample as i32) / 32768
}

} // verus!
