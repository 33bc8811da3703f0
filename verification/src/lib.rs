//! Conversion of multi-track symbolic music into four-component integer
//! motion vectors, and a tick-driven animation state machine that turns the
//! vector sequence into interpolated position and color samples.

pub mod engine;
pub mod midi;
pub mod transformation;

pub use transformation::convert;
