//! Fixed-size image previews.
//!
//! An image is cropped around its centre towards the proportions of a target
//! size and then resampled to exactly that size. The integer geometry (ratio
//! reduction, crop boxes, orientation) is proved against mathematical
//! definitions; decoding, pixel resampling and PNG encoding are done by
//! `photon_rs`, reached through a handful of declared contracts in `codec`.

pub mod codec;
pub mod error;
pub mod geometry;
pub mod pipeline;
pub mod ratio;
pub mod raster;

pub use error::PreviewError;
pub use geometry::{CropBox, CropPlan, Dimensions, Orientation};
pub use pipeline::{build_preview, get_image_size, preview_image};
pub use raster::ImageBuffer;
