//! The RGBA pixel buffer of the `image` crate, as the rest of the library sees it.
use vstd::prelude::*;

verus! {

/// An RGBA image with eight bits per channel, held by the `image` crate.
#[verifier::external_body]
pub struct Canvas {
    img: image::RgbaImage,
}

/// The samples of a canvas, row by row, four per pixel (red, green, blue, alpha).
pub uninterp spec fn samples_of(c: Canvas) -> Seq<u8>;

/// The width, in pixels, that a canvas was made with.
pub uninterp spec fn width_of(c: Canvas) -> u32;

/// The height, in pixels, that a canvas was made with.
pub uninterp spec fn height_of(c: Canvas) -> u32;

/// Index of the first sample of pixel `(x, y)` in an image `width` pixels wide.
pub open spec fn sample_index(width: u32, x: u32, y: u32) -> int {
    4 * ((y as int) * (width as int) + (x as int))
}

impl Canvas {
    /// Relies on `image::ImageBuffer::new`: an image of the given size whose samples
    /// are all zero. It panics where the sample count overflows `usize`, and `vec!`
    /// where it exceeds `isize::MAX` bytes, which `requires` leaves out.
    #[verifier::external_body]
    pub(crate) fn blank(width: u32, height: u32) -> (r: Canvas)
        requires
            4 * (width as int) * (height as int) <= isize::MAX,
        ensures
            width_of(r) == width,
            height_of(r) == height,
            samples_of(r) == Seq::new((4 * (width as int) * (height as int)) as nat, |i: int| 0u8),
    {
        Canvas { img: image::ImageBuffer::new(width, height) }
    }

    /// Relies on `image::ImageBuffer::put_pixel`: the four samples of pixel `(x, y)`
    /// take the given values and nothing else changes. It panics out of bounds,
    /// which `requires` leaves out.
    #[verifier::external_body]
    pub(crate) fn put(&mut self, x: u32, y: u32, px: [u8; 4])
        requires
            x < width_of(*old(self)),
            y < height_of(*old(self)),
        ensures
            width_of(*final(self)) == width_of(*old(self)),
            height_of(*final(self)) == height_of(*old(self)),
            samples_of(*final(self)).len() == samples_of(*old(self)).len(),
            forall|i: int|
                0 <= i < samples_of(*old(self)).len() ==> #[trigger] samples_of(*final(self))[i]
                    == {
                    let k = i - sample_index(width_of(*old(self)), x, y);
                    if 0 <= k < 4 {
                        px@[k]
                    } else {
                        samples_of(*old(self))[i]
                    }
                },
    {
        self.img.put_pixel(x, y, image::Rgba(px))
    }

    /// Relies on `image::ImageBuffer::get_pixel`: the four samples of pixel `(x, y)`.
    /// It panics out of bounds, which `requires` leaves out.
    #[verifier::external_body]
    pub(crate) fn get(&self, x: u32, y: u32) -> (r: [u8; 4])
        requires
            x < width_of(*self),
            y < height_of(*self),
        ensures
            forall|k: int|
                0 <= k < 4 ==> #[trigger] r@[k] == samples_of(*self)[sample_index(width_of(*self), x, y) + k],
    {
        self.img.get_pixel(x, y).0
    }

    /// Relies on `image::ImageBuffer::as_raw`: the samples, row by row, four per pixel.
    #[verifier::external_body]
    pub(crate) fn samples(&self) -> (r: Vec<u8>)
        ensures
            r@ == samples_of(*self),
    {
        self.img.as_raw().clone()
    }
}

} // verus!
