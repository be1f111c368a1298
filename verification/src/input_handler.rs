//! Clicks and timer ticks, turned into moves of the game.

use crate::coordinate_translator::CoordinateTranslator;
use crate::grid::Position;
use crate::grid_info::GridInfo;
use crate::interactive_game::{GameState, InteractiveGame};
use vstd::prelude::*;

verus! {

/// The cell under a point of the drawing surface, as column and row: the
/// point's coordinates divided by the extent of a cell. `None` for a point
/// that no cell of the board lies under.
pub open spec fn cell_under(info: GridInfo, local: Position) -> Option<(u32, u32)> {
    let column = local.x / info.cell_width();
    let row = local.y / info.cell_height();
    if column < info.columns && row < info.rows {
        Some((column, row))
    } else {
        None
    }
}

/// The cell that a click is meant for, given where the click fell on the
/// drawing surface, if it fell on it at all.
pub open spec fn clicked_cell(info: GridInfo, local: Option<Position>) -> Option<(u32, u32)> {
    match local {
        Some(position) => cell_under(info, position),
        None => None,
    }
}

/// The game after a click that was meant for `cell`: that cell is flipped;
/// without a cell, the click is ignored.
pub open spec fn after_click(game: GameState, cell: Option<(u32, u32)>) -> GameState {
    match cell {
        Some((x, y)) => game.toggled(Position { x, y }),
        None => game,
    }
}

/// Along one axis: a cell has an extent, and a point beyond the surface lies
/// beyond the last cell.
proof fn lemma_cells_cover_no_more_than_the_surface(extent: u32, cells: u32, point: u32)
    requires
        0 < cells <= extent,
    ensures
        extent / cells > 0,
        point > extent ==> point / (extent / cells) >= cells,
{
    let (e, c, p) = (extent as int, cells as int, point as int);
    assert(e / c > 0 && (p > e ==> p / (e / c) >= c)) by (nonlinear_arith)
        requires
            0 < c <= e,
            0 <= p,
    ;
}

/// Finds the cell under a point of the drawing surface.
pub fn cell_location(grid_info: &GridInfo, position: Position) -> (cell: Option<(u32, u32)>)
    requires
        grid_info.has_cells(),
    ensures
        cell == cell_under(*grid_info, position),
{
    proof {
        lemma_cells_cover_no_more_than_the_surface(
            grid_info.width,
            grid_info.columns,
            position.x,
        );
        lemma_cells_cover_no_more_than_the_surface(grid_info.height, grid_info.rows, position.y);
    }
    if position.x > grid_info.width || position.y > grid_info.height {
        None
    } else {
        let cell_width: u32 = grid_info.width / grid_info.columns;
        let cell_height: u32 = grid_info.height / grid_info.rows;
        let cell_x: u32 = position.x / cell_width;
        let cell_y: u32 = position.y / cell_height;
        if cell_x < grid_info.columns && cell_y < grid_info.rows {
            Some((cell_x, cell_y))
        } else {
            None
        }
    }
}

/// Flips the cell, if there is one, on a game whose grid has that cell.
pub fn click_cell<Game: InteractiveGame>(game: &mut Game, cell: Option<(u32, u32)>)
    requires
        old(game).inv(),
        cell matches Some((x, y)) ==> old(game)@.grid.covers(Position { x, y }),
    ensures
        final(game).inv(),
        final(game)@ == after_click(old(game)@, cell),
{
    if let Some((x, y)) = cell {
        let position = Position { x, y };
        game.toggle_cell(&position);
    }
}

/// What takes the input of a clickable surface.
pub trait ClickableInputHandler: View<V = GameState> {
    /// What holds of a handler between any two calls.
    spec fn inv(&self) -> bool;

    /// A click at `(x, y)` of the embedding surface: it flips the cell it
    /// falls on, or is ignored.
    fn on_click(&mut self, x: u32, y: u32)
        requires
            old(self).inv(),
        ensures
            final(self).inv(),
            exists|cell: Option<(u32, u32)>|
                {
                    &&& cell matches Some((x, y)) ==> old(self)@.grid.covers(Position { x, y })
                    &&& final(self)@ == #[trigger] after_click(old(self)@, cell)
                },
    ;

    /// A tick of the timer: the game moves on by one generation.
    fn on_timer(&mut self)
        requires
            old(self).inv(),
        ensures
            final(self).inv(),
            final(self)@ == old(self)@.stepped(),
    ;
}

/// The handler for a surface whose clicks come in the coordinates of what
/// embeds it.
pub struct ClickableInputHandlerImpl<Game: InteractiveGame, T: CoordinateTranslator> {
    game: Game,
    coordinate_translator: T,
    grid_info: GridInfo,
}

impl<Game: InteractiveGame, T: CoordinateTranslator> View for ClickableInputHandlerImpl<Game, T> {
    type V = GameState;

    closed spec fn view(&self) -> GameState {
        self.game@
    }
}

impl<Game: InteractiveGame, T: CoordinateTranslator> ClickableInputHandlerImpl<Game, T> {
    /// The layout that clicks are read against.
    pub closed spec fn grid_info(&self) -> GridInfo {
        self.grid_info
    }

    /// The translator that clicks go through.
    pub closed spec fn coordinate_translator(&self) -> T {
        self.coordinate_translator
    }

    /// The handler for a game whose grid has the rows and columns of
    /// `grid_info`.
    pub fn new(game: Game, coordinate_translator: T, grid_info: GridInfo) -> (handler: Self)
        requires
            game.inv(),
            grid_info.has_cells(),
            grid_info.columns <= game@.grid.width,
            grid_info.rows <= game@.grid.height,
        ensures
            handler.inv(),
            handler@ == game@,
            handler.grid_info() == grid_info,
            handler.coordinate_translator() == coordinate_translator,
    {
        ClickableInputHandlerImpl { game, coordinate_translator, grid_info }
    }

    /// The game behind the handler.
    pub fn game(&self) -> (game: &Game)
        ensures
            game@ == self@,
            self.inv() ==> game.inv(),
    {
        &self.game
    }

    /// The cell that a click at `(x, y)` of the embedding surface is meant
    /// for.
    pub fn get_cell_location_from_coordinates(&self, x: u32, y: u32) -> (cell: Option<(u32, u32)>)
        requires
            self.inv(),
        ensures
            exists|local: Option<Position>|
                {
                    &&& #[trigger] self.coordinate_translator().translates(
                        Position { x, y },
                        local,
                    )
                    &&& cell == clicked_cell(self.grid_info(), local)
                },
    {
        let global_position = Position { x, y };
        let local = self.coordinate_translator.to_local(&global_position);
        assert(self.coordinate_translator().translates(global_position, local));
        self.locate(local)
    }

    /// The cell that a click is meant for, once the click is translated.
    pub fn locate(&self, local: Option<Position>) -> (cell: Option<(u32, u32)>)
        requires
            self.inv(),
        ensures
            cell == clicked_cell(self.grid_info(), local),
    {
        if let Some(position) = local {
            cell_location(&self.grid_info, position)
        } else {
            None
        }
    }

    /// A click, once it is translated: it flips the cell under `local`; where
    /// there is no local position, or no cell under it, nothing happens.
    pub fn click_at(&mut self, local: Option<Position>)
        requires
            old(self).inv(),
        ensures
            final(self).inv(),
            final(self).grid_info() == old(self).grid_info(),
            final(self).coordinate_translator() == old(self).coordinate_translator(),
            final(self)@ == after_click(old(self)@, clicked_cell(old(self).grid_info(), local)),
    {
        let cell = self.locate(local);
        click_cell(&mut self.game, cell);
    }
}

impl<Game, T> ClickableInputHandler for ClickableInputHandlerImpl<Game, T> where
    Game: InteractiveGame,
    T: CoordinateTranslator,
{
    closed spec fn inv(&self) -> bool {
        &&& self.game.inv()
        &&& self.grid_info.has_cells()
        &&& self.grid_info.columns <= self.game@.grid.width
        &&& self.grid_info.rows <= self.game@.grid.height
    }

    /// The click goes through the translator, and then to the cell under
    /// the answer.
    fn on_click(&mut self, x: u32, y: u32)
        ensures
            final(self).grid_info() == old(self).grid_info(),
            final(self).coordinate_translator() == old(self).coordinate_translator(),
            exists|local: Option<Position>|
                {
                    &&& #[trigger] old(self).coordinate_translator().translates(
                        Position { x, y },
                        local,
                    )
                    &&& final(self)@ == after_click(
                        old(self)@,
                        clicked_cell(old(self).grid_info(), local),
                    )
                },
    {
        let global_position = Position { x, y };
        let local = self.coordinate_translator.to_local(&global_position);
        self.click_at(local);
    }

    fn on_timer(&mut self)
        ensures
            final(self).grid_info() == old(self).grid_info(),
            final(self).coordinate_translator() == old(self).coordinate_translator(),
    {
        self.game.next_generation();
    }
}

} // verus!
