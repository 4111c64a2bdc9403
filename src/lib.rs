//! Procedural frames of a bouncing disc, rasterised into YCbCr grids.
//!
//! All quantities are fixed-point integers; see `color` and `scene` for the
//! scales.
pub mod color;
pub mod grid;
pub mod scene;
