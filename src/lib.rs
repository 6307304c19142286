//! A falling-character rain simulation: streams of glyphs that descend a
//! fixed grid, are spawned and retired frame by frame, and are rasterised
//! into a grid of cell states.

pub mod line;
pub mod matrix;
pub mod laws;

mod random;
