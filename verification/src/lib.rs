//! Indexed-colour pixel canvases and their export to planar tile and
//! BGR555 palette data.

pub mod canvas;
pub mod color;
pub mod encode;
pub mod error;
pub mod grid;
pub mod palette;
