//! The controller of a surface whose clicks come in its own coordinates.

use crate::grid::Position;
use crate::grid_info::GridInfo;
use crate::input_handler::{after_click, cell_location, cell_under, click_cell};
use crate::interactive_game::{GameState, InteractiveGame};
use vstd::prelude::*;

verus! {

/// A game together with the layout of its board on the surface.
pub struct ClickableController<Game: InteractiveGame> {
    game: Game,
    grid_info: GridInfo,
}

impl<Game: InteractiveGame> View for ClickableController<Game> {
    type V = GameState;

    closed spec fn view(&self) -> GameState {
        self.game@
    }
}

impl<Game: InteractiveGame> ClickableController<Game> {
    /// What holds of a controller between any two calls.
    pub closed spec fn inv(&self) -> bool {
        &&& self.game.inv()
        &&& self.grid_info.has_cells()
        &&& self.grid_info.columns <= self.game@.grid.width
        &&& self.grid_info.rows <= self.game@.grid.height
    }

    /// The layout that clicks are read against.
    pub closed spec fn grid_info(&self) -> GridInfo {
        self.grid_info
    }

    /// The controller of a game whose grid has the rows and columns of
    /// `grid_info`.
    pub fn new(game: Game, grid_info: GridInfo) -> (controller: Self)
        requires
            game.inv(),
            grid_info.has_cells(),
            grid_info.columns <= game@.grid.width,
            grid_info.rows <= game@.grid.height,
        ensures
            controller.inv(),
            controller@ == game@,
            controller.grid_info() == grid_info,
    {
        ClickableController { game, grid_info }
    }

    /// The game behind the controller.
    pub fn game(&self) -> (game: &Game)
        ensures
            game@ == self@,
            self.inv() ==> game.inv(),
    {
        &self.game
    }

    /// A click at `(x, y)` of the surface: it flips the cell under it,
    /// or is ignored where there is none.
    pub fn on_click(&mut self, x: u32, y: u32)
        requires
            old(self).inv(),
        ensures
            final(self).inv(),
            final(self).grid_info() == old(self).grid_info(),
            final(self)@ == after_click(
                old(self)@,
                cell_under(old(self).grid_info(), Position { x, y }),
            ),
    {
        let cell = self.get_cell_location_from_coordinates(x, y);
        click_cell(&mut self.game, cell);
    }

    /// A tick of the timer: the game moves on by one generation.
    pub fn on_timer(&mut self)
        requires
            old(self).inv(),
        ensures
            final(self).inv(),
            final(self).grid_info() == old(self).grid_info(),
            final(self)@ == old(self)@.stepped(),
    {
        self.game.next_generation();
    }

    /// The cell under the point `(x, y)` of the surface.
    pub fn get_cell_location_from_coordinates(&self, x: u32, y: u32) -> (cell: Option<(u32, u32)>)
        requires
            self.inv(),
        ensures
            cell == cell_under(self.grid_info(), Position { x, y }),
    {
        cell_location(&self.grid_info, Position { x, y })
    }
}

} // verus!
