//! Turns the board and its changes into what a canvas can draw.

use crate::canvas::constant::{ALIVE_CELL_COLOUR, DEAD_CELL_COLOUR, LINE_COLOUR};
use crate::generation_calculator::Change;
use crate::grid::Position;
use crate::grid_info::GridInfo;
use crate::interactive_game::Presenter;
use vstd::pervasive::runtime_assert;
use vstd::prelude::*;

verus! {

/// All that is to be drawn in one go.
#[derive(Debug, Eq, PartialEq)]
pub struct CanvasViewModel {
    pub lines: Vec<Line>,
    pub squares: Vec<Square>,
}

/// A straight line in one colour.
#[derive(Debug, Eq, PartialEq)]
pub struct Line {
    pub from: Position,
    pub to: Position,
    pub colour: String,
}

/// A filled box in one colour.
#[derive(Debug, Eq, PartialEq)]
pub struct Square {
    pub width: u32,
    pub height: u32,
    pub origin: Position,
    pub colour: String,
}

/// A line, its colour read as text.
pub struct LineView {
    pub from: Position,
    pub to: Position,
    pub colour: Seq<char>,
}

/// A square, its colour read as text.
pub struct SquareView {
    pub width: u32,
    pub height: u32,
    pub origin: Position,
    pub colour: Seq<char>,
}

/// The lines and squares of a view model.
pub struct CanvasViewModelView {
    pub lines: Seq<LineView>,
    pub squares: Seq<SquareView>,
}

impl View for Line {
    type V = LineView;

    open spec fn view(&self) -> LineView {
        LineView { from: self.from, to: self.to, colour: self.colour@ }
    }
}

impl View for Square {
    type V = SquareView;

    open spec fn view(&self) -> SquareView {
        SquareView {
            width: self.width,
            height: self.height,
            origin: self.origin,
            colour: self.colour@,
        }
    }
}

/// The lines, each read as its view.
pub open spec fn line_views(lines: Seq<Line>) -> Seq<LineView> {
    lines.map_values(|line: Line| line@)
}

/// The squares, each read as its view.
pub open spec fn square_views(squares: Seq<Square>) -> Seq<SquareView> {
    squares.map_values(|square: Square| square@)
}

impl View for CanvasViewModel {
    type V = CanvasViewModelView;

    open spec fn view(&self) -> CanvasViewModelView {
        CanvasViewModelView {
            lines: line_views(self.lines@),
            squares: square_views(self.squares@),
        }
    }
}

/// The drawing surface behind a presenter.
pub trait CanvasView {
    /// Draws the board for the first time.
    fn init_board(&mut self, view_model: &CanvasViewModel);

    /// Draws the lines and squares over what is on the surface.
    fn draw_view_model(&mut self, view_model: &CanvasViewModel);
}

/// The line across the surface below the `n`-th row of cells.
pub open spec fn row_line(info: GridInfo, n: int) -> LineView {
    LineView {
        from: Position { x: 0, y: (n * info.cell_height()) as u32 },
        to: Position { x: info.width, y: (n * info.cell_height()) as u32 },
        colour: LINE_COLOUR@,
    }
}

/// The line down the surface to the right of the `n`-th column of cells.
pub open spec fn column_line(info: GridInfo, n: int) -> LineView {
    LineView {
        from: Position { x: (n * info.cell_width()) as u32, y: 0 },
        to: Position { x: (n * info.cell_width()) as u32, y: info.height },
        colour: LINE_COLOUR@,
    }
}

/// How many lines part `cells` rows or columns from one another.
pub open spec fn partitions(cells: u32) -> nat {
    if cells == 0 {
        0
    } else {
        (cells - 1) as nat
    }
}

/// The lines of the grid: those between the rows from the top down, then
/// those between the columns from the left.
pub open spec fn grid_lines(info: GridInfo) -> Seq<LineView> {
    Seq::new(partitions(info.rows), |i: int| row_line(info, i + 1)) + Seq::new(
        partitions(info.columns),
        |i: int| column_line(info, i + 1),
    )
}

/// Whether the square of the cell `p` can be placed on the surface: a cell
/// leaves room for a square within its border, and the square's corner has
/// coordinates.
pub open spec fn can_draw(info: GridInfo, p: Position) -> bool {
    &&& info.columns > 0 && info.cell_width() >= 2
    &&& info.rows > 0 && info.cell_height() >= 2
    &&& (info.cell_width() - 2) / 2 + p.x <= u32::MAX
    &&& (info.cell_height() - 2) / 2 + p.y <= u32::MAX
}

/// The square that shows a change: as wide and high as a cell less its
/// border, in the colour of the cell's new state.
pub open spec fn square_of(info: GridInfo, change: Change) -> SquareView {
    let width = (info.cell_width() - 2) as u32;
    let height = (info.cell_height() - 2) as u32;
    SquareView {
        width,
        height,
        origin: Position {
            x: (width / 2 + change.position.x) as u32,
            y: (height / 2 + change.position.y) as u32,
        },
        colour: if change.is_alive {
            ALIVE_CELL_COLOUR@
        } else {
            DEAD_CELL_COLOUR@
        },
    }
}

/// The squares of a batch of changes, one for each change, in their order.
pub open spec fn squares_of(info: GridInfo, changes: Seq<Change>) -> Seq<SquareView> {
    changes.map_values(|change: Change| square_of(info, change))
}

/// The changes that bring the listed cells alive.
pub open spec fn births(cells: Seq<Position>) -> Seq<Change> {
    cells.map_values(|position: Position| Change { position, is_alive: true })
}

/// Every cell of a layout whose cells are at least two units wide and high
/// has a square that can be drawn.
pub proof fn lemma_cells_of_layout_can_be_drawn(info: GridInfo, p: Position)
    requires
        info.columns > 0,
        info.rows > 0,
        info.cell_width() >= 2,
        info.cell_height() >= 2,
        p.x < info.columns,
        p.y < info.rows,
    ensures
        can_draw(info, p),
{
    let (w, c, x) = (info.width as int, info.columns as int, p.x as int);
    assert((w / c - 2) / 2 + x <= w) by (nonlinear_arith)
        requires
            0 <= x < c,
            w / c >= 2,
            0 <= w,
    ;
    let (h, r, y) = (info.height as int, info.rows as int, p.y as int);
    assert((h / r - 2) / 2 + y <= h) by (nonlinear_arith)
        requires
            0 <= y < r,
            h / r >= 2,
            0 <= h,
    ;
}

/// Computes the lines of the grid.
pub fn get_lines(grid_info: &GridInfo) -> (lines: Vec<Line>)
    ensures
        line_views(lines@) == grid_lines(*grid_info),
{
    let mut lines: Vec<Line> = Vec::new();
    let ghost across = Seq::new(
        partitions(grid_info.rows),
        |i: int| row_line(*grid_info, i + 1),
    );
    let ghost down = Seq::new(
        partitions(grid_info.columns),
        |i: int| column_line(*grid_info, i + 1),
    );
    let mut y: u32 = 1;
    while y < grid_info.rows
        invariant
            1 <= y,
            y - 1 <= partitions(grid_info.rows),
            across == Seq::new(partitions(grid_info.rows), |i: int| row_line(*grid_info, i + 1)),
            line_views(lines@) == across.take(y - 1),
        decreases grid_info.rows - y,
    {
        let cell_height: u32 = grid_info.height / grid_info.rows;
        assert(0 <= y * cell_height <= grid_info.height) by (nonlinear_arith)
            requires
                0 <= y < grid_info.rows,
                cell_height == grid_info.height / grid_info.rows,
        ;
        let ghost before = lines@;
        lines.push(
            Line {
                from: Position { x: 0, y: y * cell_height },
                to: Position { x: grid_info.width, y: y * cell_height },
                colour: LINE_COLOUR.to_owned(),
            },
        );
        proof {
            assert(line_views(lines@) =~= line_views(before).push(
                row_line(*grid_info, y as int),
            ));
            assert(across.take(y as int) =~= across.take(y - 1).push(
                row_line(*grid_info, y as int),
            ));
        }
        y += 1;
    }
    let mut x: u32 = 1;
    while x < grid_info.columns
        invariant
            1 <= x,
            x - 1 <= partitions(grid_info.columns),
            down == Seq::new(
                partitions(grid_info.columns),
                |i: int| column_line(*grid_info, i + 1),
            ),
            line_views(lines@) == across + down.take(x - 1),
        decreases grid_info.columns - x,
    {
        let cell_width: u32 = grid_info.width / grid_info.columns;
        assert(0 <= x * cell_width <= grid_info.width) by (nonlinear_arith)
            requires
                0 <= x < grid_info.columns,
                cell_width == grid_info.width / grid_info.columns,
        ;
        let ghost before = lines@;
        lines.push(
            Line {
                from: Position { x: x * cell_width, y: 0 },
                to: Position { x: x * cell_width, y: grid_info.height },
                colour: LINE_COLOUR.to_owned(),
            },
        );
        proof {
            assert(line_views(lines@) =~= line_views(before).push(
                column_line(*grid_info, x as int),
            ));
            assert(down.take(x as int) =~= down.take(x - 1).push(
                column_line(*grid_info, x as int),
            ));
        }
        x += 1;
    }
    lines
}

/// Computes the squares that show a batch of changes.
pub fn get_squares(grid_info: &GridInfo, changes: &[Change]) -> (squares: Vec<Square>)
    requires
        forall|i: int|
            0 <= i < changes@.len() ==> can_draw(*grid_info, (#[trigger] changes@[i]).position),
    ensures
        square_views(squares@) == squares_of(*grid_info, changes@),
{
    let mut squares: Vec<Square> = Vec::new();
    let mut i: usize = 0;
    while i < changes.len()
        invariant
            i <= changes.len(),
            forall|i: int|
                0 <= i < changes@.len() ==> can_draw(*grid_info, (#[trigger] changes@[i]).position),
            square_views(squares@) == squares_of(
                *grid_info,
                changes@.take(i as int),
            ),
        decreases changes.len() - i,
    {
        let change = &changes[i];
        let cell_width: u32 = grid_info.width / grid_info.columns - 2;
        let cell_height: u32 = grid_info.height / grid_info.rows - 2;
        squares.push(
            Square {
                width: cell_width,
                height: cell_height,
                origin: Position {
                    x: cell_width / 2 + change.position.x,
                    y: cell_height / 2 + change.position.y,
                },
                colour: if change.is_alive {
                    ALIVE_CELL_COLOUR.to_owned()
                } else {
                    DEAD_CELL_COLOUR.to_owned()
                },
            },
        );
        proof {
            assert(squares_of(*grid_info, changes@.take(i + 1)) =~= squares_of(
                *grid_info,
                changes@.take(i as int),
            ).push(square_of(*grid_info, *change)));
        }
        i += 1;
    }
    squares
}

/// Computes what is drawn when the board is handed over: the lines of the
/// grid, and a square in the colour of life for each live cell.
pub fn board_view_model(grid_info: &GridInfo, alive_cells: &[Position]) -> (view_model:
    CanvasViewModel)
    requires
        forall|i: int|
            0 <= i < alive_cells@.len() ==> can_draw(*grid_info, #[trigger] alive_cells@[i]),
    ensures
        view_model@ == (CanvasViewModelView {
            lines: grid_lines(*grid_info),
            squares: squares_of(*grid_info, births(alive_cells@)),
        }),
{
    let lines = get_lines(grid_info);
    let mut cells_as_changes: Vec<Change> = Vec::new();
    let mut i: usize = 0;
    while i < alive_cells.len()
        invariant
            i <= alive_cells.len(),
            cells_as_changes@ == births(alive_cells@.take(i as int)),
        decreases alive_cells.len() - i,
    {
        cells_as_changes.push(Change { position: alive_cells[i], is_alive: true });
        i += 1;
    }
    proof {
        assert(alive_cells@.take(alive_cells.len() as int) =~= alive_cells@);
    }
    let squares = get_squares(grid_info, cells_as_changes.as_slice());
    CanvasViewModel { lines, squares }
}

/// Computes what is drawn for a batch of changes: a square for each of
/// them, and no line.
pub fn changes_view_model(grid_info: &GridInfo, changes: &[Change]) -> (view_model:
    CanvasViewModel)
    requires
        forall|i: int|
            0 <= i < changes@.len() ==> can_draw(*grid_info, (#[trigger] changes@[i]).position),
    ensures
        view_model@ == (CanvasViewModelView {
            lines: Seq::empty(),
            squares: squares_of(*grid_info, changes@),
        }),
{
    let squares = get_squares(grid_info, changes);
    let view_model = CanvasViewModel { lines: Vec::new(), squares };
    assert(view_model@.lines =~= Seq::empty());
    view_model
}

/// The presenter that draws the board on a canvas.
pub struct CanvasPresenter<V: CanvasView> {
    view: V,
    is_initialized: bool,
    grid_info: GridInfo,
    board: Ghost<Seq<Position>>,
    presented: Ghost<Seq<Seq<Change>>>,
}

impl<V: CanvasView> CanvasPresenter<V> {
    /// The layout that the presenter draws by.
    pub closed spec fn grid_info(&self) -> GridInfo {
        self.grid_info
    }

    /// A presenter that has not been handed its board yet. It shows the
    /// cells whose squares can be drawn in the layout `grid_info`.
    pub fn new(view: V, grid_info: GridInfo) -> (presenter: Self)
        ensures
            !presenter.is_initialized(),
            presenter.grid_info() == grid_info,
            forall|p: Position| presenter.shows(p) == can_draw(grid_info, p),
    {
        CanvasPresenter {
            view,
            is_initialized: false,
            grid_info,
            board: Ghost(Seq::empty()),
            presented: Ghost(Seq::empty()),
        }
    }
}

impl<V: CanvasView> Presenter for CanvasPresenter<V> {
    closed spec fn is_initialized(&self) -> bool {
        self.is_initialized
    }

    closed spec fn board(&self) -> Seq<Position> {
        self.board@
    }

    closed spec fn presented(&self) -> Seq<Seq<Change>> {
        self.presented@
    }

    closed spec fn shows(&self, p: Position) -> bool {
        can_draw(self.grid_info, p)
    }

    /// Has the view draw the grid and the live cells.
    fn init_board(&mut self, alive_cells: &[Position])
        ensures
            final(self).grid_info() == old(self).grid_info(),
    {
        runtime_assert(!self.is_initialized);
        self.is_initialized = true;
        let view_model = board_view_model(&self.grid_info, alive_cells);
        self.view.init_board(&view_model);
        self.board = Ghost(alive_cells@);
        self.presented = Ghost(Seq::empty());
    }

    /// Has the view draw the changed cells.
    fn present_changes(&mut self, changes: &[Change])
        ensures
            final(self).grid_info() == old(self).grid_info(),
    {
        runtime_assert(self.is_initialized);
        let view_model = changes_view_model(&self.grid_info, changes);
        self.view.draw_view_model(&view_model);
        self.presented = Ghost(self.presented@.push(changes@));
    }
}

} // verus!
