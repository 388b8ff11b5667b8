use image_preview::geometry::{compute_crop, div_ceil, orientation};
use image_preview::{CropBox, CropPlan, Dimensions, Orientation, PreviewError};

fn size(width: u32, height: u32) -> Dimensions {
    Dimensions { width, height }
}

fn preview() -> Dimensions {
    size(640, 480)
}

#[test]
fn full_hd_is_cropped_to_a_centred_box() {
    // ratio (4, 3); factor = ceil(3000 / 7) = 429; adjusted 1287 x 1716
    assert_eq!(
        compute_crop(size(1920, 1080), preview()),
        Ok(CropPlan::Crop(CropBox { left: 316, top: 0, right: 1604, bottom: 1080 }))
    );
}

#[test]
fn small_source_is_left_unchanged() {
    assert_eq!(compute_crop(size(300, 200), preview()), Ok(CropPlan::Unchanged));
    assert_eq!(compute_crop(size(639, 479), preview()), Ok(CropPlan::Unchanged));
    assert_eq!(compute_crop(size(1, 1), preview()), Ok(CropPlan::Unchanged));
}

#[test]
fn source_smaller_along_one_axis_only_is_cropped() {
    // factor = ceil(840 / 7) = 120; adjusted 360 x 480
    assert_eq!(
        compute_crop(size(640, 200), preview()),
        Ok(CropPlan::Crop(CropBox { left: 140, top: 0, right: 500, bottom: 200 }))
    );
    // factor = ceil(780 / 7) = 112; adjusted 336 x 448
    assert_eq!(
        compute_crop(size(300, 480), preview()),
        Ok(CropPlan::Crop(CropBox { left: 0, top: 16, right: 300, bottom: 464 }))
    );
}

#[test]
fn source_of_the_adjusted_size_is_left_unchanged() {
    // factor = ceil(1120 / 7) = 160; adjusted 480 x 640
    assert_eq!(compute_crop(size(480, 640), preview()), Ok(CropPlan::Unchanged));
    // ratio (1, 1); factor = 500; adjusted 500 x 500
    assert_eq!(compute_crop(size(500, 500), size(100, 100)), Ok(CropPlan::Unchanged));
}

#[test]
fn source_of_the_target_size_is_cropped() {
    // factor = 160; adjusted 480 x 640
    assert_eq!(
        compute_crop(preview(), preview()),
        Ok(CropPlan::Crop(CropBox { left: 80, top: 0, right: 560, bottom: 480 }))
    );
}

#[test]
fn margins_round_down() {
    // ratio (1, 1); factor = ceil(15 / 2) = 8; adjusted 8 x 8; margins 1 and 0
    assert_eq!(
        compute_crop(size(11, 4), size(3, 3)),
        Ok(CropPlan::Crop(CropBox { left: 1, top: 0, right: 10, bottom: 4 }))
    );
}

#[test]
fn zero_sides_are_a_geometry_error() {
    assert_eq!(compute_crop(size(0, 1080), preview()), Err(PreviewError::Geometry));
    assert_eq!(compute_crop(size(1920, 0), preview()), Err(PreviewError::Geometry));
    assert_eq!(compute_crop(size(0, 0), preview()), Err(PreviewError::Geometry));
    assert_eq!(compute_crop(size(1920, 1080), size(0, 480)), Err(PreviewError::Geometry));
    assert_eq!(compute_crop(size(1920, 1080), size(640, 0)), Err(PreviewError::Geometry));
}

#[test]
fn arithmetic_beyond_32_bits_is_a_geometry_error() {
    // the sides add up to more than u32::MAX
    assert_eq!(compute_crop(size(u32::MAX, u32::MAX), preview()), Err(PreviewError::Geometry));
    assert_eq!(compute_crop(size(u32::MAX, 1), preview()), Err(PreviewError::Geometry));
    // the ratio's terms add up to more than u32::MAX
    assert_eq!(compute_crop(size(1000, 1000), size(u32::MAX, 2)), Err(PreviewError::Geometry));
    // ratio (1, 3000000000); factor = 2; the adjusted width would be 6000000000
    assert_eq!(
        compute_crop(size(2_000_000_000, 2_000_000_000), size(1, 3_000_000_000)),
        Err(PreviewError::Geometry)
    );
}

#[test]
fn largest_sides_that_still_fit() {
    // factor = ceil(4_000_000_000 / 7) = 571428572; adjusted 1714285716 x 2285714288
    assert_eq!(
        compute_crop(size(3_000_000_000, 1_000_000_000), preview()),
        Ok(CropPlan::Crop(CropBox {
            left: 642_857_142,
            top: 0,
            right: 2_357_142_858,
            bottom: 1_000_000_000,
        }))
    );
}

#[test]
fn crop_boxes_lie_inside_the_source() {
    let targets = [preview(), size(480, 640), size(100, 100), size(16, 9), size(1, 7), size(1000, 3)];
    for target in targets {
        for w in 1u32..120 {
            for h in 1u32..120 {
                let source = size(w * 7, h * 5 + 1);
                if let Ok(CropPlan::Crop(area)) = compute_crop(source, target) {
                    assert!(area.left < area.right && area.right <= source.width);
                    assert!(area.top < area.bottom && area.bottom <= source.height);
                    assert_eq!(area.left, source.width - area.right);
                    assert_eq!(area.top, source.height - area.bottom);
                    assert!(area.left == 0 || area.top == 0);
                }
            }
        }
    }
}

#[test]
fn div_ceil_rounds_up() {
    assert_eq!(div_ceil(3000, 7), 429);
    assert_eq!(div_ceil(1120, 7), 160);
    assert_eq!(div_ceil(0, 7), 0);
    assert_eq!(div_ceil(1, 7), 1);
    assert_eq!(div_ceil(7, 7), 1);
    assert_eq!(div_ceil(8, 7), 2);
    assert_eq!(div_ceil(u64::MAX, 1), u64::MAX);
    assert_eq!(div_ceil(u64::MAX, 2), 1 << 63);
}

#[test]
fn orientation_follows_the_longer_side() {
    assert_eq!(orientation(size(1920, 1080)), Orientation::Landscape);
    assert_eq!(orientation(size(1080, 1920)), Orientation::Portrait);
    assert_eq!(orientation(size(500, 500)), Orientation::Portrait);
    assert_eq!(orientation(size(501, 500)), Orientation::Landscape);
    assert_eq!(orientation(size(1, u32::MAX)), Orientation::Portrait);
    assert_eq!(orientation(size(u32::MAX, 1)), Orientation::Landscape);
    assert_eq!(orientation(size(5, 0)), Orientation::Portrait);
}
