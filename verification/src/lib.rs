//! Grid editing engine for cross-stitch style patterns.

pub mod canvas;
pub mod cell_editor;
pub mod color;
pub mod editor;
pub mod form;
pub mod grid;
pub mod history;
pub mod marks;
pub mod pattern;
pub mod reducer;
pub mod render;
pub mod shared;
