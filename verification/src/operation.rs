//! Pixel arithmetic shared by the drawing algorithms.

pub mod pixelops;
