//! Scan-conversion algorithms and the canvas capability they draw through.

pub mod bezier;
pub mod canvas;
pub mod conics;
pub mod cross;
pub mod line;
pub mod rect;
