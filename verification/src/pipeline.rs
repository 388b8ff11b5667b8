//! From the bytes of an image to the bytes of its preview: decode, crop
//! towards the target's proportions, resample to the target's size, encode.

use crate::codec::{
    crop_rgba, decode_rgba, decoded_size, encode_png, png_encoding, resample_rgba,
    resampled_pixels,
};
use crate::error::PreviewError;
use crate::geometry::{
    compute_crop, crop_plan, lemma_crop_box_is_valid, orientation, CropPlan, Dimensions,
    Orientation,
};
use crate::raster::{lemma_cropped_is_well_formed, ImageBuffer, Raster};
use vstd::prelude::*;
use vstd::slice::slice_to_vec;

verus! {

/// The width of the previews that `preview_image` makes.
pub const PREVIEW_WIDTH: u32 = 640;

/// The height of the previews that `preview_image` makes.
pub const PREVIEW_HEIGHT: u32 = 480;

/// The size of the previews that `preview_image` makes.
pub open spec fn preview_target() -> Dimensions {
    Dimensions { width: PREVIEW_WIDTH, height: PREVIEW_HEIGHT }
}

/// A result that holds an image, with the image taken by its view.
pub open spec fn raster_of(outcome: Result<ImageBuffer, PreviewError>) -> Result<
    Raster,
    PreviewError,
> {
    match outcome {
        Ok(image) => Ok(image@),
        Err(e) => Err(e),
    }
}

/// A result that holds bytes, with the bytes taken by their view.
pub open spec fn bytes_of(outcome: Result<Vec<u8>, PreviewError>) -> Result<
    Seq<u8>,
    PreviewError,
> {
    match outcome {
        Ok(bytes) => Ok(bytes@),
        Err(e) => Err(e),
    }
}

/// The size of the image that `bytes` encode: what the decoder reports,
/// unless it rejects the bytes or reports a zero side.
pub open spec fn inspected(bytes: Seq<u8>) -> Result<(u32, u32), PreviewError> {
    match decoded_size(bytes) {
        Some(size) => if size.0 > 0 && size.1 > 0 {
            Ok(size)
        } else {
            Err(PreviewError::Decode)
        },
        None => Err(PreviewError::Decode),
    }
}

/// A pixel buffer for an image of this size can be addressed.
pub open spec fn buffer_fits(size: Dimensions) -> bool {
    4 * size.width * size.height <= usize::MAX
}

/// The image resampled to `target`.
pub open spec fn resampled(image: Raster, target: Dimensions) -> Raster {
    Raster {
        pixels: resampled_pixels(
            image.pixels,
            image.width,
            image.height,
            target.width,
            target.height,
        ),
        width: target.width,
        height: target.height,
    }
}

/// What the crop step makes of an image: the image itself where the plan
/// keeps it whole, else the part inside the plan's box. A box of `u32::MAX`
/// pixels or more is beyond what the crop can count.
pub open spec fn crop_stage(image: Raster, target: Dimensions) -> Result<Raster, PreviewError> {
    if !image.is_well_formed() {
        Err(PreviewError::Decode)
    } else {
        match crop_plan(image.dimensions(), target) {
            Err(e) => Err(e),
            Ok(CropPlan::Unchanged) => Ok(image),
            Ok(CropPlan::Crop(area)) => if area.width() * area.height() >= u32::MAX {
                Err(PreviewError::Geometry)
            } else {
                Ok(image.cropped(area))
            },
        }
    }
}

/// What the resample step makes of an image.
pub open spec fn resample_stage(image: Raster, target: Dimensions) -> Result<
    Raster,
    PreviewError,
> {
    if !image.is_well_formed() {
        Err(PreviewError::Decode)
    } else if !target.is_positive() || !buffer_fits(target) {
        Err(PreviewError::Geometry)
    } else {
        Ok(resampled(image, target))
    }
}

/// What encoding makes of an image.
pub open spec fn encoded(image: Raster) -> Result<Seq<u8>, PreviewError> {
    if image.is_well_formed() {
        Ok(png_encoding(image.pixels, image.width, image.height))
    } else {
        Err(PreviewError::Encode)
    }
}

/// The preview of `image`, which was decoded from `input`.
///
/// An image smaller than the target along both axes is not touched: the
/// preview is `input` itself. Any other image is cropped, resampled to the
/// target and written out as PNG; the first step that fails gives the error.
pub open spec fn preview_of(input: Seq<u8>, image: Raster, target: Dimensions) -> Result<
    Seq<u8>,
    PreviewError,
> {
    if !image.is_well_formed() {
        Err(PreviewError::Decode)
    } else if image.dimensions().is_below(target) {
        Ok(input)
    } else {
        match crop_stage(image, target) {
            Err(e) => Err(e),
            Ok(cropped) => match resample_stage(cropped, target) {
                Err(e) => Err(e),
                Ok(sized) => Ok(png_encoding(sized.pixels, sized.width, sized.height)),
            },
        }
    }
}

/// The error, if any, with which previewing an image of size `size` ends. It
/// depends on the two sizes alone, never on the pixels.
pub open spec fn failure_of(size: Dimensions, target: Dimensions) -> Option<PreviewError> {
    if size.is_below(target) {
        None
    } else {
        match crop_plan(size, target) {
            Err(e) => Some(e),
            Ok(CropPlan::Unchanged) => if buffer_fits(target) {
                None
            } else {
                Some(PreviewError::Geometry)
            },
            Ok(CropPlan::Crop(area)) => if area.width() * area.height() < u32::MAX && buffer_fits(
                target,
            ) {
                None
            } else {
                Some(PreviewError::Geometry)
            },
        }
    }
}

/// `bytes` are the PNG encoding of some image of exactly this size.
pub open spec fn encodes_size(bytes: Seq<u8>, size: Dimensions) -> bool {
    exists|pixels: Seq<u8>|
        {
            &&& pixels.len() == 4 * size.width * size.height
            &&& bytes == #[trigger] png_encoding(pixels, size.width, size.height)
        }
}

/// `outcome` is what previewing `input` may give: the decoding error where
/// the bytes are no image, else the preview of an image of the size that the
/// bytes encode, whatever pixel values the decoder read.
pub open spec fn is_preview_of(
    outcome: Result<Seq<u8>, PreviewError>,
    input: Seq<u8>,
    target: Dimensions,
) -> bool {
    match inspected(input) {
        Err(e) => outcome == Err::<Seq<u8>, PreviewError>(e),
        Ok(size) => exists|pixels: Seq<u8>|
            {
                &&& pixels.len() == 4 * size.0 * size.1
                &&& outcome == #[trigger] preview_of(
                    input,
                    Raster { pixels, width: size.0, height: size.1 },
                    target,
                )
            },
    }
}

/// The crop step hands on a well-formed image.
pub proof fn lemma_crop_stage_is_well_formed(image: Raster, target: Dimensions)
    ensures
        crop_stage(image, target) matches Ok(cropped) ==> cropped.is_well_formed(),
{
    if image.is_well_formed() {
        lemma_crop_box_is_valid(image.dimensions(), target);
        match crop_plan(image.dimensions(), target) {
            Ok(CropPlan::Crop(area)) => {
                lemma_cropped_is_well_formed(image, area);
            },
            _ => {},
        }
    }
}

/// Whether the preview of a well-formed image fails, and with which error, is
/// settled by its size and the target's.
pub proof fn lemma_failure_depends_on_size(input: Seq<u8>, image: Raster, target: Dimensions)
    requires
        image.is_well_formed(),
    ensures
        match failure_of(image.dimensions(), target) {
            Some(e) => preview_of(input, image, target) == Err::<Seq<u8>, PreviewError>(e),
            None => preview_of(input, image, target) is Ok,
        },
{
    lemma_crop_stage_is_well_formed(image, target);
}

/// An image smaller than the target along both axes passes through: the
/// preview is the very bytes that were handed in.
pub proof fn lemma_small_image_passes_through(
    outcome: Result<Seq<u8>, PreviewError>,
    input: Seq<u8>,
    target: Dimensions,
)
    requires
        is_preview_of(outcome, input, target),
        inspected(input) matches Ok(size) && size.0 < target.width && size.1 < target.height,
    ensures
        outcome == Ok::<Seq<u8>, PreviewError>(input),
{
}

/// Previewing a passed-through preview again changes nothing.
pub proof fn lemma_passed_through_preview_is_stable(
    first: Result<Seq<u8>, PreviewError>,
    second: Result<Seq<u8>, PreviewError>,
    input: Seq<u8>,
    target: Dimensions,
)
    requires
        is_preview_of(first, input, target),
        inspected(input) matches Ok(size) && size.0 < target.width && size.1 < target.height,
        first matches Ok(bytes) && is_preview_of(second, bytes, target),
    ensures
        second == first,
{
    lemma_small_image_passes_through(first, input, target);
    lemma_small_image_passes_through(second, input, target);
}

/// Tells whether a pixel buffer for an image of this size can be addressed.
fn buffer_fits_in_memory(size: Dimensions) -> (fits: bool)
    ensures
        fits == buffer_fits(size),
{
    assert(4 * (size.width * size.height) <= 4 * (0xffff_ffff * 0xffff_ffff)
        && 4 * size.width * size.height == 4 * (size.width * size.height)) by (nonlinear_arith)
        requires
            size.width <= 0xffff_ffff,
            size.height <= 0xffff_ffff,
    ;
    let bytes: u128 = 4 * (size.width as u128 * size.height as u128);
    bytes <= usize::MAX as u128
}

/// Decodes an image. The bytes are refused where the decoder refuses them or
/// reports an image without pixels.
pub fn decode_image(bytes: &[u8]) -> (decoded: Result<ImageBuffer, PreviewError>)
    ensures
        match decoded {
            Ok(image) => {
                &&& image@.is_well_formed()
                &&& inspected(bytes@) == Ok::<(u32, u32), PreviewError>((image.width, image.height))
            },
            Err(e) => e == PreviewError::Decode && inspected(bytes@) is Err,
        },
{
    match decode_rgba(bytes) {
        Ok(image) => {
            if image.width == 0 || image.height == 0 {
                Err(PreviewError::Decode)
            } else {
                Ok(image)
            }
        },
        Err(_) => Err(PreviewError::Decode),
    }
}

/// Reports the width and height of an encoded image.
pub fn get_image_size(image: &[u8]) -> (size: Result<(u32, u32), PreviewError>)
    ensures
        size == inspected(image@),
{
    match decode_image(image) {
        Ok(decoded) => Ok((decoded.width, decoded.height)),
        Err(e) => Err(e),
    }
}

/// Writes an image out as a PNG file.
pub fn encode_image(image: &ImageBuffer) -> (bytes: Result<Vec<u8>, PreviewError>)
    ensures
        bytes_of(bytes) == encoded(image@),
{
    if image.is_well_formed() {
        Ok(encode_png(image))
    } else {
        Err(PreviewError::Encode)
    }
}

/// Crops an image around its centre towards the proportions `width : height`.
/// An image that needs no crop is handed back as it is.
pub fn crop_image_for_ratio(image: ImageBuffer, width: u32, height: u32) -> (cropped: Result<
    ImageBuffer,
    PreviewError,
>)
    ensures
        raster_of(cropped) == crop_stage(image@, Dimensions { width, height }),
        cropped matches Ok(out) ==> out@.is_well_formed(),
{
    if !image.is_well_formed() {
        return Err(PreviewError::Decode);
    }
    let target = Dimensions { width, height };
    proof {
        lemma_crop_stage_is_well_formed(image@, target);
    }
    match compute_crop(image.dimensions(), target) {
        Err(e) => Err(e),
        Ok(CropPlan::Unchanged) => Ok(image),
        Ok(CropPlan::Crop(area)) => {
            let columns: u64 = (area.right - area.left) as u64;
            let rows: u64 = (area.bottom - area.top) as u64;
            assert(columns * rows <= 0xffff_ffff * 0xffff_ffff) by (nonlinear_arith)
                requires
                    columns <= 0xffff_ffff,
                    rows <= 0xffff_ffff,
            ;
            if columns * rows >= u32::MAX as u64 {
                Err(PreviewError::Geometry)
            } else {
                Ok(crop_rgba(&image, area))
            }
        },
    }
}

/// Resamples an image to exactly `width` by `height` pixels, without regard
/// to its proportions. Landscape and portrait images are told apart; for now
/// both are stretched to the target alike. `photon_rs` resamples by repeating
/// and picking pixels (nearest neighbour); it blends nothing.
pub fn resample_image(image: &ImageBuffer, width: u32, height: u32) -> (resampled: Result<
    ImageBuffer,
    PreviewError,
>)
    ensures
        raster_of(resampled) == resample_stage(image@, Dimensions { width, height }),
        resampled matches Ok(out) ==> out@.is_well_formed(),
{
    if !image.is_well_formed() {
        return Err(PreviewError::Decode);
    }
    let target = Dimensions { width, height };
    if width == 0 || height == 0 || !buffer_fits_in_memory(target) {
        return Err(PreviewError::Geometry);
    }
    let resampled = match orientation(image.dimensions()) {
        Orientation::Landscape => resample_rgba(image, target),
        Orientation::Portrait => resample_rgba(image, target),
    };
    Ok(resampled)
}

/// Makes the preview of an image that was decoded from `input`.
pub fn render_preview(input: &[u8], image: ImageBuffer, target: Dimensions) -> (preview: Result<
    Vec<u8>,
    PreviewError,
>)
    ensures
        bytes_of(preview) == preview_of(input@, image@, target),
        preview matches Ok(bytes) ==> {
            ||| image@.dimensions().is_below(target) && bytes@ == input@
            ||| !image@.dimensions().is_below(target) && encodes_size(bytes@, target)
        },
{
    if !image.is_well_formed() {
        return Err(PreviewError::Decode);
    }
    if image.width < target.width && image.height < target.height {
        return Ok(slice_to_vec(input));
    }
    let cropped = match crop_image_for_ratio(image, target.width, target.height) {
        Ok(cropped) => cropped,
        Err(e) => {
            return Err(e);
        },
    };
    let sized = match resample_image(&cropped, target.width, target.height) {
        Ok(sized) => sized,
        Err(e) => {
            return Err(e);
        },
    };
    encode_image(&sized)
}

/// Makes a preview of `target` size from the bytes of an image.
pub fn build_preview(image: &[u8], target: Dimensions) -> (preview: Result<Vec<u8>, PreviewError>)
    ensures
        is_preview_of(bytes_of(preview), image@, target),
        inspected(image@) is Err ==> preview == Err::<Vec<u8>, PreviewError>(PreviewError::Decode),
        inspected(image@) matches Ok(size) && size.0 < target.width && size.1 < target.height
            ==> bytes_of(preview) == Ok::<Seq<u8>, PreviewError>(image@),
        inspected(image@) matches Ok(size) ==> match failure_of(
            Dimensions { width: size.0, height: size.1 },
            target,
        ) {
            Some(e) => preview == Err::<Vec<u8>, PreviewError>(e),
            None => preview is Ok,
        },
        preview matches Ok(bytes) ==> bytes@ == image@ || encodes_size(bytes@, target),
{
    match decode_image(image) {
        Ok(decoded) => {
            proof {
                lemma_failure_depends_on_size(image@, decoded@, target);
            }
            render_preview(image, decoded, target)
        },
        Err(e) => Err(e),
    }
}

/// Makes a 640 by 480 preview from the bytes of an image.
pub fn preview_image(image: &[u8]) -> (preview: Result<Vec<u8>, PreviewError>)
    ensures
        is_preview_of(bytes_of(preview), image@, preview_target()),
        inspected(image@) is Err ==> preview == Err::<Vec<u8>, PreviewError>(PreviewError::Decode),
        inspected(image@) matches Ok(size) && size.0 < PREVIEW_WIDTH && size.1 < PREVIEW_HEIGHT
            ==> bytes_of(preview) == Ok::<Seq<u8>, PreviewError>(image@),
        inspected(image@) matches Ok(size) ==> match failure_of(
            Dimensions { width: size.0, height: size.1 },
            preview_target(),
        ) {
            Some(e) => preview == Err::<Vec<u8>, PreviewError>(e),
            None => preview is Ok,
        },
        preview matches Ok(bytes) ==> bytes@ == image@ || encodes_size(bytes@, preview_target()),
{
    build_preview(image, Dimensions { width: PREVIEW_WIDTH, height: PREVIEW_HEIGHT })
}

} // verus!
