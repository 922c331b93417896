//! A terminal-screen compositor: an in-memory grid of coloured characters with
//! drawing primitives, a frame differ that plans minimal terminal writes, and a
//! per-frame classifier of keyboard and mouse input.

pub mod color;
pub mod events;
pub mod forms;
pub mod grid;
pub mod pixel;
pub mod raster;
pub mod cover;
pub mod rect_style;
pub mod render;
pub mod screen;
pub mod utils;
pub mod engine;
