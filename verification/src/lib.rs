//! Verified core of the brush splat-training tools: the frame-indexed
//! snapshot slot, training statistics, the dataset conversion logic and the
//! small numeric helpers they share.
pub mod bounding_box;
pub mod camera;
pub mod dataset;
pub mod json;
pub mod mask;
pub mod slot;
pub mod stats;
pub mod text;
pub mod w2c;
pub mod widget;
pub mod worker;
