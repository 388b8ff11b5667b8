//! Sizes, crop boxes and the arithmetic that places a crop inside an image.

use crate::error::PreviewError;
use crate::ratio::{lemma_reduced_ratio, reduce_ratio, reduced};
use vstd::arithmetic::div_mod::{
    lemma_basic_div, lemma_div_is_ordered, lemma_fundamental_div_mod,
};
use vstd::prelude::*;

verus! {

/// A width and a height in pixels.
#[derive(Clone, Copy, Debug, PartialEq, Eq, Structural)]
pub struct Dimensions {
    pub width: u32,
    pub height: u32,
}

impl Dimensions {
    /// Neither side is zero.
    pub open spec fn is_positive(self) -> bool {
        self.width > 0 && self.height > 0
    }

    /// This size is strictly smaller than `target` along both axes.
    pub open spec fn is_below(self, target: Dimensions) -> bool {
        self.width < target.width && self.height < target.height
    }
}

/// The rectangle of an image that a crop retains: columns `left..right` and
/// rows `top..bottom`.
#[derive(Clone, Copy, Debug, PartialEq, Eq, Structural)]
pub struct CropBox {
    pub left: u32,
    pub top: u32,
    pub right: u32,
    pub bottom: u32,
}

impl CropBox {
    /// The box is not empty and lies inside an image of size `source`.
    pub open spec fn is_within(self, source: Dimensions) -> bool {
        &&& self.left < self.right <= source.width
        &&& self.top < self.bottom <= source.height
    }

    /// The number of columns retained.
    pub open spec fn width(self) -> int {
        self.right - self.left
    }

    /// The number of rows retained.
    pub open spec fn height(self) -> int {
        self.bottom - self.top
    }

    /// The box leaves the same margin on the left as on the right, and the
    /// same at the top as at the bottom.
    pub open spec fn is_centered_in(self, source: Dimensions) -> bool {
        &&& self.left == source.width - self.right
        &&& self.top == source.height - self.bottom
    }
}

/// What the crop step does to an image.
#[derive(Clone, Copy, Debug, PartialEq, Eq, Structural)]
pub enum CropPlan {
    /// The image is kept whole.
    Unchanged,
    /// The image is cut down to the box.
    Crop(CropBox),
}

/// Whether an image is wider than it is tall.
#[derive(Clone, Copy, Debug, PartialEq, Eq, Structural)]
pub enum Orientation {
    Landscape,
    Portrait,
}

/// The quotient of `a` by `b`, rounded up.
pub open spec fn ceil_div(a: nat, b: nat) -> nat {
    if a % b == 0 {
        a / b
    } else {
        a / b + 1
    }
}

/// The factor by which the reduced ratio is scaled up: the sum of the source's
/// sides over the sum of the ratio's terms, rounded up.
pub open spec fn scale_factor(source: Dimensions, target: Dimensions) -> nat {
    let ratio = reduced(target.width as nat, target.height as nat);
    ceil_div((source.width + source.height) as nat, ratio.0 + ratio.1)
}

/// The width that the crop aims for: the ratio's height term times the factor.
pub open spec fn adjusted_width(source: Dimensions, target: Dimensions) -> nat {
    reduced(target.width as nat, target.height as nat).1 * scale_factor(source, target)
}

/// The height that the crop aims for: the ratio's width term times the factor.
pub open spec fn adjusted_height(source: Dimensions, target: Dimensions) -> nat {
    reduced(target.width as nat, target.height as nat).0 * scale_factor(source, target)
}

/// Half of what `extent` has over `adjusted`, rounded down; nothing where
/// `adjusted` is the larger.
pub open spec fn margin(extent: nat, adjusted: nat) -> nat {
    if adjusted >= extent {
        0
    } else {
        ((extent - adjusted) / 2) as nat
    }
}

/// The box that leaves `margin_x` columns on either side and `margin_y` rows
/// above and below.
pub open spec fn centered_box(source: Dimensions, margin_x: nat, margin_y: nat) -> CropBox {
    CropBox {
        left: margin_x as u32,
        top: margin_y as u32,
        right: (source.width - margin_x) as u32,
        bottom: (source.height - margin_y) as u32,
    }
}

/// The sums and products of the crop arithmetic all fit in 32 bits.
pub open spec fn arithmetic_fits(source: Dimensions, target: Dimensions) -> bool {
    let ratio = reduced(target.width as nat, target.height as nat);
    &&& source.width + source.height <= u32::MAX
    &&& ratio.0 + ratio.1 <= u32::MAX
    &&& adjusted_width(source, target) <= u32::MAX
    &&& adjusted_height(source, target) <= u32::MAX
}

/// The crop that brings an image of size `source` towards the proportions of
/// `target`.
///
/// A zero side is an error. An image smaller than the target along both axes
/// is kept whole. Otherwise the target's ratio is reduced and scaled up by
/// `scale_factor`; an image that already has the adjusted size is kept whole,
/// and any other is cut to the centred box whose margins are half of what the
/// image has over the adjusted size, along each axis on its own.
pub open spec fn crop_plan(source: Dimensions, target: Dimensions) -> Result<
    CropPlan,
    PreviewError,
> {
    if !source.is_positive() || !target.is_positive() {
        Err(PreviewError::Geometry)
    } else if source.is_below(target) {
        Ok(CropPlan::Unchanged)
    } else if !arithmetic_fits(source, target) {
        Err(PreviewError::Geometry)
    } else if adjusted_width(source, target) == source.width && adjusted_height(source, target)
        == source.height {
        Ok(CropPlan::Unchanged)
    } else {
        Ok(
            CropPlan::Crop(
                centered_box(
                    source,
                    margin(source.width as nat, adjusted_width(source, target)),
                    margin(source.height as nat, adjusted_height(source, target)),
                ),
            ),
        )
    }
}

/// Landscape where the width over the height, rounded up, exceeds one.
pub open spec fn orientation_of(size: Dimensions) -> Orientation {
    if size.height > 0 && ceil_div(size.width as nat, size.height as nat) > 1 {
        Orientation::Landscape
    } else {
        Orientation::Portrait
    }
}

/// The rounded-up quotient is the least number of `b`s that cover `a`.
pub proof fn lemma_ceil_div_is_least_cover(a: nat, b: nat)
    requires
        b > 0,
    ensures
        ceil_div(a, b) * b >= a,
        a > 0 ==> (ceil_div(a, b) - 1) * b < a,
        a > 0 ==> ceil_div(a, b) > 0,
        ceil_div(a, b) <= a,
{
    lemma_fundamental_div_mod(a as int, b as int);
    let q = a / b;
    let r = a % b;
    assert(b * q + b == (q + 1) * b && b * q == q * b && (q - 1) * b == b * q - b)
        by (nonlinear_arith);
    assert(q <= a) by (nonlinear_arith)
        requires
            a == b * q + r,
            b > 0,
            r >= 0,
            q >= 0,
    ;
    if r != 0 && q == a {
        assert(false) by (nonlinear_arith)
            requires
                a == b * q + r,
                q == a,
                b > 0,
                r > 0,
                q >= 0,
        ;
    }
}

/// An image with a positive height is landscape exactly when its width
/// exceeds its height.
pub proof fn lemma_landscape_is_wider_than_tall(size: Dimensions)
    requires
        size.height > 0,
    ensures
        orientation_of(size) == Orientation::Landscape <==> size.width > size.height,
{
    let w = size.width as nat;
    let h = size.height as nat;
    lemma_fundamental_div_mod(w as int, h as int);
    if w > h {
        lemma_div_is_ordered(h as int, w as int, h as int);
        assert(h / h == 1) by (nonlinear_arith)
            requires
                h > 0,
        ;
        if w / h == 1 {
            assert(h * (w / h) == h) by (nonlinear_arith)
                requires
                    w / h == 1,
            ;
        }
    } else if w == h {
        assert(w / h == 1 && w % h == 0) by (nonlinear_arith)
            requires
                w == h,
                h > 0,
        ;
    } else {
        lemma_basic_div(w as int, h as int);
    }
}

/// The adjusted size is never smaller than the source along both axes: its
/// sides add up to at least as much as the source's.
pub proof fn lemma_adjusted_covers_source(source: Dimensions, target: Dimensions)
    requires
        source.is_positive(),
        target.is_positive(),
    ensures
        adjusted_width(source, target) + adjusted_height(source, target) >= source.width
            + source.height,
        adjusted_width(source, target) > 0,
        adjusted_height(source, target) > 0,
{
    lemma_reduced_ratio(target.width as nat, target.height as nat);
    let ratio = reduced(target.width as nat, target.height as nat);
    let factor = scale_factor(source, target);
    lemma_ceil_div_is_least_cover((source.width + source.height) as nat, ratio.0 + ratio.1);
    assert(ratio.1 * factor + ratio.0 * factor == factor * (ratio.0 + ratio.1))
        by (nonlinear_arith);
    assert(ratio.1 * factor > 0 && ratio.0 * factor > 0) by (nonlinear_arith)
        requires
            ratio.0 > 0,
            ratio.1 > 0,
            factor > 0,
    ;
}

/// Every box that the crop step asks for is non-empty, lies inside the source,
/// is centred in it, and spans the source's full width or its full height.
pub proof fn lemma_crop_box_is_valid(source: Dimensions, target: Dimensions)
    ensures
        crop_plan(source, target) matches Ok(CropPlan::Crop(area)) ==> {
            &&& area.is_within(source)
            &&& area.is_centered_in(source)
            &&& (area.left == 0 || area.top == 0)
        },
{
    if source.is_positive() && target.is_positive() {
        lemma_adjusted_covers_source(source, target);
    }
}

/// Computes the rounded-up quotient of `a` by `b`.
pub fn div_ceil(a: u64, b: u64) -> (quotient: u64)
    requires
        b > 0,
    ensures
        quotient == ceil_div(a as nat, b as nat),
{
    if a % b == 0 {
        a / b
    } else {
        proof {
            lemma_ceil_div_is_least_cover(a as nat, b as nat);
        }
        a / b + 1
    }
}

/// Classifies an image by its sides: the width over the height, rounded up,
/// is compared with one.
pub fn orientation(size: Dimensions) -> (o: Orientation)
    ensures
        o == orientation_of(size),
{
    if size.height > 0 && div_ceil(size.width as u64, size.height as u64) > 1 {
        Orientation::Landscape
    } else {
        Orientation::Portrait
    }
}

/// Decides how an image of size `source` is cropped for a preview of size
/// `target`.
pub fn compute_crop(source: Dimensions, target: Dimensions) -> (plan: Result<
    CropPlan,
    PreviewError,
>)
    ensures
        plan == crop_plan(source, target),
        plan matches Ok(CropPlan::Crop(area)) ==> area.is_within(source),
{
    if source.width == 0 || source.height == 0 {
        return Err(PreviewError::Geometry);
    }
    if source.width < target.width && source.height < target.height {
        return Ok(CropPlan::Unchanged);
    }
    let ratio = match reduce_ratio(target.width, target.height) {
        Some(ratio) => ratio,
        None => {
            return Err(PreviewError::Geometry);
        },
    };
    let side_sum: u64 = source.width as u64 + source.height as u64;
    let term_sum: u64 = ratio.num as u64 + ratio.den as u64;
    if side_sum > u32::MAX as u64 || term_sum > u32::MAX as u64 {
        return Err(PreviewError::Geometry);
    }
    let factor: u64 = div_ceil(side_sum, term_sum);
    proof {
        lemma_ceil_div_is_least_cover(side_sum as nat, term_sum as nat);
        lemma_adjusted_covers_source(source, target);
        assert(ratio.den * factor <= 0xffff_ffff * 0xffff_ffff && ratio.num * factor <= 0xffff_ffff
            * 0xffff_ffff) by (nonlinear_arith)
            requires
                ratio.den <= 0xffff_ffff,
                ratio.num <= 0xffff_ffff,
                0 <= factor <= 0xffff_ffff,
        ;
    }
    let wide: u64 = ratio.den as u64 * factor;
    let tall: u64 = ratio.num as u64 * factor;
    if wide > u32::MAX as u64 || tall > u32::MAX as u64 {
        return Err(PreviewError::Geometry);
    }
    if wide == source.width as u64 && tall == source.height as u64 {
        return Ok(CropPlan::Unchanged);
    }
    let margin_x: u32 = source.width.saturating_sub(wide as u32) / 2;
    let margin_y: u32 = source.height.saturating_sub(tall as u32) / 2;
    Ok(
        CropPlan::Crop(
            CropBox {
                left: margin_x,
                top: margin_y,
                right: source.width - margin_x,
                bottom: source.height - margin_y,
            },
        ),
    )
}

} // verus!
