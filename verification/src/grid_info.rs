//! How a board is laid out on its drawing surface.

use vstd::prelude::*;

verus! {

/// The extent of the drawing surface and the number of rows and columns of
/// cells that it is divided into.
#[derive(Debug, Default, Eq, PartialEq, Clone, Copy, Structural)]
pub struct GridInfo {
    pub width: u32,
    pub height: u32,
    pub rows: u32,
    pub columns: u32,
}

impl GridInfo {
    /// The width of one cell on the surface.
    pub open spec fn cell_width(self) -> u32 {
        self.width / self.columns
    }

    /// The height of one cell on the surface.
    pub open spec fn cell_height(self) -> u32 {
        self.height / self.rows
    }

    /// There is at least one cell, and every cell has an extent.
    pub open spec fn has_cells(self) -> bool {
        &&& 0 < self.columns <= self.width
        &&& 0 < self.rows <= self.height
    }
}

} // verus!
