//! Value types for geometry and pixels: points, rectangles, channels.

pub mod definitions;
pub mod point;
pub mod rect;
