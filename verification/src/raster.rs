//! Decoded images: rows of RGBA pixels, four bytes to a pixel.

use crate::geometry::{CropBox, Dimensions};
use vstd::arithmetic::div_mod::lemma_fundamental_div_mod;
use vstd::prelude::*;

verus! {

/// A decoded image. `pixels` holds the rows from top to bottom, each row from
/// left to right, each pixel as four bytes (red, green, blue, alpha).
#[derive(Clone, Debug, PartialEq, Eq)]
pub struct ImageBuffer {
    pub pixels: Vec<u8>,
    pub width: u32,
    pub height: u32,
}

/// What an `ImageBuffer` stands for in contracts.
pub struct Raster {
    pub pixels: Seq<u8>,
    pub width: u32,
    pub height: u32,
}

impl View for ImageBuffer {
    type V = Raster;

    open spec fn view(&self) -> Raster {
        Raster { pixels: self.pixels@, width: self.width, height: self.height }
    }
}

impl Raster {
    /// The image's width and height.
    pub open spec fn dimensions(self) -> Dimensions {
        Dimensions { width: self.width, height: self.height }
    }

    /// Neither side is zero, and there are exactly four bytes for each pixel.
    pub open spec fn is_well_formed(self) -> bool {
        &&& self.width > 0
        &&& self.height > 0
        &&& self.pixels.len() == 4 * self.width * self.height
    }

    /// The byte at `channel` of the pixel in column `x` of row `y`.
    pub open spec fn sample(self, x: int, y: int, channel: int) -> u8 {
        self.pixels[4 * (y * self.width + x) + channel]
    }

    /// The part of the image inside `area`, as an image of its own: its pixel
    /// at `(x, y)` is this image's pixel at `(area.left + x, area.top + y)`.
    pub open spec fn cropped(self, area: CropBox) -> Raster {
        Raster {
            pixels: Seq::new(
                (4 * area.width() * area.height()) as nat,
                |i: int|
                    self.sample(
                        area.left + (i / 4) % area.width(),
                        area.top + (i / 4) / area.width(),
                        i % 4,
                    ),
            ),
            width: area.width() as u32,
            height: area.height() as u32,
        }
    }
}

/// The box that retains all of an image of the given size.
pub open spec fn full_box(size: Dimensions) -> CropBox {
    CropBox { left: 0, top: 0, right: size.width, bottom: size.height }
}

/// What a crop inside the image yields is again a well-formed image, of the
/// box's width and height.
pub proof fn lemma_cropped_is_well_formed(image: Raster, area: CropBox)
    requires
        area.is_within(image.dimensions()),
    ensures
        image.cropped(area).is_well_formed(),
        image.cropped(area).width == area.width(),
        image.cropped(area).height == area.height(),
{
    let w = area.width();
    let h = area.height();
    assert(4 * w * h >= 0) by (nonlinear_arith)
        requires
            w > 0,
            h > 0,
    ;
}

/// Cropping to the full box returns the image as it is.
pub proof fn lemma_full_crop_is_identity(image: Raster)
    requires
        image.is_well_formed(),
    ensures
        image.cropped(full_box(image.dimensions())) == image,
{
    let area = full_box(image.dimensions());
    let w = image.width as int;
    let out = image.cropped(area);
    lemma_cropped_is_well_formed(image, area);
    assert forall|i: int| 0 <= i < out.pixels.len() implies out.pixels[i] == image.pixels[i] by {
        let p = i / 4;
        lemma_fundamental_div_mod(i, 4);
        lemma_fundamental_div_mod(p, w);
        assert((p / w) * w == w * (p / w)) by (nonlinear_arith);
    }
    assert(out.pixels =~= image.pixels);
}

impl ImageBuffer {
    /// The image's width and height.
    pub fn dimensions(&self) -> (size: Dimensions)
        ensures
            size == self@.dimensions(),
    {
        Dimensions { width: self.width, height: self.height }
    }

    /// Whether the pixel data matches the stated width and height.
    pub fn is_well_formed(&self) -> (ok: bool)
        ensures
            ok == self@.is_well_formed(),
    {
        if self.width == 0 || self.height == 0 {
            return false;
        }
        assert(self.width * self.height <= 0xffff_ffff * 0xffff_ffff) by (nonlinear_arith)
            requires
                self.width <= 0xffff_ffff,
                self.height <= 0xffff_ffff,
        ;
        let count: u64 = self.width as u64 * self.height as u64;
        let len: usize = self.pixels.len();
        assert(4 * self.width * self.height == 4 * (self.width * self.height))
            by (nonlinear_arith);
        len % 4 == 0 && (len / 4) as u64 == count
    }
}

} // verus!
