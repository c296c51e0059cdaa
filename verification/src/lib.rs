//! Rasterization primitives: scan-conversion of lines, circles, ellipses,
//! rectangles, cubic Bezier curves and point markers onto an in-memory
//! pixel surface, together with the geometry and pixel-arithmetic types
//! they depend on.

pub mod drawing;
pub mod entity;
pub mod operation;
