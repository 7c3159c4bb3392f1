//! Box-filter (moving-average blur) kernels over decoded raster images.
//!
//! A [`raster::Raster`] holds an image as a row-major buffer of interleaved
//! channel bytes. A box filter replaces every pixel that has a full window
//! of neighbours by the truncated mean over that window, channel by channel,
//! and crops the border: [`scalar::ScalarBoxFilter`] does so with one
//! accumulator per channel, [`vectorized::VectorizedBoxFilter`] with the
//! [`lanes::Lanes`] of one wide accumulator, and both return the same bytes.
//! [`window`] defines what those bytes are, [`laws`] states what follows for
//! every image, and [`codec`] turns PNG streams into rasters and back.

pub mod codec;
pub mod lanes;
pub mod laws;
pub mod raster;
pub mod scalar;
pub mod vectorized;
pub mod window;
