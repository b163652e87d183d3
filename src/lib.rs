//! Reconstruction of full-resolution, interleaved pixel rows from the
//! chroma-subsampled planes of a decoded image.

pub mod geometry;
pub mod laws;
pub mod resampler;
pub mod rows;
pub mod selection;

pub use geometry::{Component, Extent, Size};
pub use resampler::Resampler;
pub use rows::vertical_source_rows;
pub use selection::Resampling;
