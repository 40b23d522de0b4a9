//! A fixed-size grid of styled glyphs, its drawing primitives, dirty-cell
//! tracking, and the mesh geometry that renders it.

pub mod color;
pub mod cp437;
pub mod glyph;
pub mod geometry;
pub mod backend;
pub mod console;
