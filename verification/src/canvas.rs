//! The board on a canvas: the lines of the grid and a square for each cell.

pub mod constant;
pub mod presenter;
