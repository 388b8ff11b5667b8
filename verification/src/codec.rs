//! The calls into `photon_rs`. Nothing in this file is proved: each contract
//! records what the called function is relied on to do.

use crate::geometry::{CropBox, Dimensions};
use crate::raster::ImageBuffer;
use vstd::prelude::*;

verus! {

/// The error type of `photon_rs::native`, carried through and never inspected.
#[verifier::external_type_specification]
#[verifier::external_body]
pub struct ExNativeError(photon_rs::native::Error);

/// The width and height that `photon_rs::native::open_image_from_bytes`
/// reports for `bytes`, or `None` where it rejects them.
///
/// Only the size is given a name. The pixel values are not: for some formats
/// the decoder picks its arithmetic routines by the processor it runs on.
pub uninterp spec fn decoded_size(bytes: Seq<u8>) -> Option<(u32, u32)>;

/// The pixel data that `photon_rs::transform::resample` produces from an image
/// of `width` by `height` pixels when asked for `dst_width` by `dst_height`.
pub uninterp spec fn resampled_pixels(
    pixels: Seq<u8>,
    width: u32,
    height: u32,
    dst_width: u32,
    dst_height: u32,
) -> Seq<u8>;

/// The PNG file that `photon_rs::PhotonImage::get_bytes` writes for an image
/// of `width` by `height` pixels.
pub uninterp spec fn png_encoding(pixels: Seq<u8>, width: u32, height: u32) -> Seq<u8>;

/// Calls `photon_rs::native::open_image_from_bytes`.
///
/// Relied on: the call succeeds exactly where `decoded_size` is `Some`, the
/// image then has that size, and its pixel data, which the decoder converts
/// to eight-bit RGBA, has four bytes for each pixel.
#[verifier::external_body]
pub(crate) fn decode_rgba(bytes: &[u8]) -> (decoded: Result<
    ImageBuffer,
    photon_rs::native::Error,
>)
    ensures
        match decoded {
            Ok(image) => {
                &&& decoded_size(bytes@) == Some((image.width, image.height))
                &&& image.pixels@.len() == 4 * image.width * image.height
            },
            Err(_) => decoded_size(bytes@) is None,
        },
{
    match photon_rs::native::open_image_from_bytes(bytes) {
        Ok(image) => Ok(
            ImageBuffer {
                pixels: image.get_raw_pixels(),
                width: image.get_width(),
                height: image.get_height(),
            },
        ),
        Err(error) => Err(error),
    }
}

/// Calls `photon_rs::transform::crop` with the box's left and top as the
/// first corner and its right and bottom as the second.
///
/// Relied on: the result is `area.width()` by `area.height()` pixels, and its
/// pixel at `(x, y)` is a copy of the source's pixel at
/// `(area.left + x, area.top + y)`. The box has to lie inside the image, and
/// has to hold fewer than `u32::MAX` pixels, which the crate counts in 32 bits.
#[verifier::external_body]
pub(crate) fn crop_rgba(image: &ImageBuffer, area: CropBox) -> (cropped: ImageBuffer)
    requires
        image@.is_well_formed(),
        area.is_within(image@.dimensions()),
        area.width() * area.height() < u32::MAX,
    ensures
        cropped@ == image@.cropped(area),
{
    let source = photon_rs::PhotonImage::new(image.pixels.clone(), image.width, image.height);
    let cut = photon_rs::transform::crop(&source, area.left, area.top, area.right, area.bottom);
    ImageBuffer { pixels: cut.get_raw_pixels(), width: cut.get_width(), height: cut.get_height() }
}

/// Calls `photon_rs::transform::resample`.
///
/// Relied on: the result has the size asked for, with four bytes for each
/// pixel; which bytes is left to `resampled_pixels`. The source has to be a
/// well-formed image and the size asked for positive.
#[verifier::external_body]
pub(crate) fn resample_rgba(image: &ImageBuffer, target: Dimensions) -> (resampled: ImageBuffer)
    requires
        image@.is_well_formed(),
        target.is_positive(),
        4 * target.width * target.height <= usize::MAX,
    ensures
        resampled.width == target.width,
        resampled.height == target.height,
        resampled.pixels@.len() == 4 * target.width * target.height,
        resampled.pixels@ == resampled_pixels(
            image.pixels@,
            image.width,
            image.height,
            target.width,
            target.height,
        ),
{
    let source = photon_rs::PhotonImage::new(image.pixels.clone(), image.width, image.height);
    let (width, height) = (target.width as usize, target.height as usize);
    let scaled = photon_rs::transform::resample(&source, width, height);
    ImageBuffer {
        pixels: scaled.get_raw_pixels(),
        width: scaled.get_width(),
        height: scaled.get_height(),
    }
}

/// Calls `photon_rs::PhotonImage::get_bytes`, which writes the image as a PNG
/// file.
///
/// Relied on: the bytes written depend on the pixels, the width and the height
/// alone. The image has to be well formed: the call panics on a pixel buffer
/// that is too short and on a zero side.
#[verifier::external_body]
pub(crate) fn encode_png(image: &ImageBuffer) -> (bytes: Vec<u8>)
    requires
        image@.is_well_formed(),
    ensures
        bytes@ == png_encoding(image.pixels@, image.width, image.height),
{
    photon_rs::PhotonImage::new(image.pixels.clone(), image.width, image.height).get_bytes()
}

} // verus!
