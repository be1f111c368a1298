//! The extent of the canvas and the colours drawn on it.

use vstd::prelude::*;

verus! {

/// The width of the canvas, in its own units.
pub const CANVAS_WIDTH: u32 = 1000;

/// The height of the canvas, in its own units.
pub const CANVAS_HEIGHT: u32 = 1000;

/// The colour of the lines between the cells.
pub const LINE_COLOUR: &'static str = "black";

/// The colour of a live cell.
pub const ALIVE_CELL_COLOUR: &'static str = "black";

/// The colour of a dead cell.
pub const DEAD_CELL_COLOUR: &'static str = "white";

} // verus!
