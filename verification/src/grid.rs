//! The board: a dense rectangle of cells, each alive or dead.

use vstd::arithmetic::div_mod::lemma_fundamental_div_mod_converse;
use vstd::pervasive::runtime_assert;
use vstd::prelude::*;

verus! {

/// A pair of unsigned coordinates: column `x`, row `y`.
///
/// Used as a cell index on the board and, elsewhere, as a point of a drawing
/// surface.
#[derive(Debug, Eq, PartialEq, Clone, Copy, Structural)]
pub struct Position {
    pub x: u32,
    pub y: u32,
}

/// What a grid is, mathematically: its size and the set of its live cells.
pub struct GridState {
    pub width: u32,
    pub height: u32,
    pub alive: Set<Position>,
}

impl GridState {
    /// The all-dead board of the given size.
    pub open spec fn blank(width: u32, height: u32) -> GridState {
        GridState { width, height, alive: Set::empty() }
    }

    /// Whether `p` is a cell of this board.
    pub open spec fn covers(self, p: Position) -> bool {
        p.x < self.width && p.y < self.height
    }

    /// Whether the cell in column `x` of row `y` is alive. Beyond the board
    /// lies a frame of cells that are dead for good.
    pub open spec fn alive_at(self, x: int, y: int) -> bool {
        &&& 0 <= x < self.width
        &&& 0 <= y < self.height
        &&& self.alive.contains(Position { x: x as u32, y: y as u32 })
    }

    /// Every live cell lies on the board.
    pub open spec fn wf(self) -> bool {
        forall|p: Position| #[trigger] self.alive.contains(p) ==> self.covers(p)
    }

    /// This board with the cell `p` alive.
    pub open spec fn with_alive(self, p: Position) -> GridState {
        GridState { alive: self.alive.insert(p), ..self }
    }

    /// This board with the cell `p` dead.
    pub open spec fn with_dead(self, p: Position) -> GridState {
        GridState { alive: self.alive.remove(p), ..self }
    }
}

/// A board of fixed size whose cells can be read and set one at a time.
///
/// The cells are read and set at the positions of the board only: a
/// position beyond it is the caller's mistake, and is never clamped or
/// wrapped onto the board.
pub trait Grid: View<V = GridState> {
    /// No implementation reports a live cell outside its own bounds.
    proof fn lemma_live_cells_lie_on_the_board(&self)
        ensures
            self@.wf(),
    ;

    /// The number of columns.
    fn width(&self) -> (w: u32)
        ensures
            w == self@.width,
    ;

    /// The number of rows.
    fn height(&self) -> (h: u32)
        ensures
            h == self@.height,
    ;

    /// Whether the cell at `position` is alive.
    fn is_alive_at(&self, position: Position) -> (alive: bool)
        requires
            self@.covers(position),
        ensures
            alive == self@.alive.contains(position),
    ;

    /// Brings the cell at `position` alive and leaves every other cell.
    fn set_alive_at(&mut self, position: Position)
        requires
            old(self)@.covers(position),
        ensures
            final(self)@ == old(self)@.with_alive(position),
    ;

    /// Kills the cell at `position` and leaves every other cell.
    fn set_dead_at(&mut self, position: Position)
        requires
            old(self)@.covers(position),
        ensures
            final(self)@ == old(self)@.with_dead(position),
    ;
}

/// The place of the cell `p` when the cells of a board `width` cells wide are
/// counted row by row, from the left within each row.
pub open spec fn row_major_index(width: u32, p: Position) -> int {
    p.y * width + p.x
}

/// A cell of the board has an index below the number of cells.
pub proof fn lemma_row_major_index_bound(s: GridState, p: Position)
    requires
        s.covers(p),
    ensures
        0 <= row_major_index(s.width, p) < s.width * s.height,
{
    let (w, h, x, y) = (s.width as int, s.height as int, p.x as int, p.y as int);
    assert(0 <= y * w + x < w * h) by (nonlinear_arith)
        requires
            0 <= x < w,
            0 <= y < h,
    ;
}

/// Two cells of one board with the same index are the same cell.
pub proof fn lemma_row_major_index_injective(width: u32, p: Position, q: Position)
    requires
        p.x < width,
        q.x < width,
        row_major_index(width, p) == row_major_index(width, q),
    ensures
        p == q,
{
    let (w, x1, y1, x2, y2) = (width as int, p.x as int, p.y as int, q.x as int, q.y as int);
    assert(y1 == y2 && x1 == x2) by (nonlinear_arith)
        requires
            0 <= x1 < w,
            0 <= x2 < w,
            0 <= y1,
            0 <= y2,
            y1 * w + x1 == y2 * w + x2,
    ;
}

/// The `k`-th cell of a board `width` cells wide, counting row by row.
pub open spec fn cell_at(width: u32, k: int) -> Position {
    Position { x: (k % width as int) as u32, y: (k / width as int) as u32 }
}

/// Every cell of the board, row by row and from left to right within a row.
pub open spec fn row_major_cells(s: GridState) -> Seq<Position> {
    Seq::new((s.width * s.height) as nat, |k: int| cell_at(s.width, k))
}

/// Counting row by row reaches the cell `p` at its row-major index.
pub proof fn lemma_cell_at_index(width: u32, p: Position)
    requires
        p.x < width,
    ensures
        cell_at(width, row_major_index(width, p)) == p,
{
    lemma_fundamental_div_mod_converse(
        row_major_index(width, p),
        width as int,
        p.y as int,
        p.x as int,
    );
}

/// The `k`-th cell of a board lies on the board, at index `k`.
pub proof fn lemma_index_of_cell_at(s: GridState, k: int)
    requires
        0 <= k < s.width * s.height,
    ensures
        s.covers(cell_at(s.width, k)),
        row_major_index(s.width, cell_at(s.width, k)) == k,
{
    let (w, h) = (s.width as int, s.height as int);
    assert(0 <= k % w < w && 0 <= k / w < h && (k / w) * w + k % w == k) by (nonlinear_arith)
        requires
            0 <= k < w * h,
            0 <= w,
            0 <= h,
    ;
}

/// Whether a cell is alive on the board `s`, as a function of the cell.
pub open spec fn lives_on(s: GridState) -> spec_fn(Position) -> bool {
    |p: Position| s.alive.contains(p)
}

/// The live cells of the board in row-major order.
pub open spec fn alive_cells(s: GridState) -> Seq<Position> {
    row_major_cells(s).filter(lives_on(s))
}

/// The list of live cells holds each live cell of the board and nothing
/// else.
pub proof fn lemma_alive_cells_are_the_live_cells(s: GridState)
    requires
        s.wf(),
    ensures
        alive_cells(s).to_set() == s.alive,
{
    let cells = row_major_cells(s);
    assert forall|p: Position| alive_cells(s).to_set().contains(p) == s.alive.contains(p) by {
        if alive_cells(s).contains(p) {
            let i = choose|i: int| 0 <= i < alive_cells(s).len() && alive_cells(s)[i] == p;
            cells.lemma_filter_pred(lives_on(s), i);
        }
        if s.alive.contains(p) {
            lemma_row_major_index_bound(s, p);
            lemma_cell_at_index(s.width, p);
            cells.lemma_filter_contains(lives_on(s), row_major_index(s.width, p));
        }
    }
}

/// A grid stored as one row-major vector of flags.
#[derive(Debug, Eq, PartialEq)]
pub struct GridImpl {
    grid: Vec<bool>,
    width: u32,
    height: u32,
}

impl View for GridImpl {
    type V = GridState;

    closed spec fn view(&self) -> GridState {
        GridState {
            width: self.width,
            height: self.height,
            alive: Set::new(
                |p: Position|
                    p.x < self.width && p.y < self.height && self.grid@[row_major_index(
                        self.width,
                        p,
                    )],
            ),
        }
    }
}

impl GridImpl {
    /// There is one flag for each cell.
    #[verifier::type_invariant]
    spec fn inv(self) -> bool {
        self.grid@.len() == self.width * self.height
    }

    /// An all-dead grid of `width` by `height` cells.
    pub fn new(width: u32, height: u32) -> (grid: Self)
        requires
            width * height <= usize::MAX,
        ensures
            grid@ == GridState::blank(width, height),
    {
        let cells: usize = (width as usize) * (height as usize);
        let grid = GridImpl { grid: vec![false; cells], width, height };
        proof {
            assert forall|p: Position| !grid@.alive.contains(p) by {
                if grid@.covers(p) {
                    lemma_row_major_index_bound(grid@, p);
                }
            }
            assert(grid@.alive =~= Set::empty());
        }
        grid
    }

    /// Where the flag of the cell at `position` stands in the vector. A
    /// position beyond the board stops the program here.
    fn translate_coordinates_to_index(&self, position: Position) -> (index: usize)
        requires
            self@.covers(position),
        ensures
            index == row_major_index(self.width, position),
            index < self.grid@.len(),
    {
        runtime_assert(position.x < self.width && position.y < self.height);
        proof {
            use_type_invariant(self);
            lemma_row_major_index_bound(self@, position);
            assert(self.width * position.y == position.y * self.width) by (nonlinear_arith);
            assert(self.grid@.len() == self.grid.len());
        }
        (self.width as usize) * (position.y as usize) + (position.x as usize)
    }

    /// After the flag at `position` is overwritten with `alive`, no other
    /// cell of the view has changed.
    proof fn lemma_view_after_write(self, before: Self, position: Position, alive: bool)
        requires
            before@.covers(position),
            self.width == before.width,
            self.height == before.height,
            before.grid@.len() == before.width * before.height,
            self.grid@ == before.grid@.update(row_major_index(before.width, position), alive),
        ensures
            alive ==> self@ == before@.with_alive(position),
            !alive ==> self@ == before@.with_dead(position),
    {
        lemma_row_major_index_bound(before@, position);
        assert forall|p: Position| #[trigger]
            self@.alive.contains(p) == (if p == position {
                alive
            } else {
                before@.alive.contains(p)
            }) by {
            if before@.covers(p) {
                lemma_row_major_index_bound(before@, p);
                if row_major_index(before.width, p) == row_major_index(before.width, position) {
                    lemma_row_major_index_injective(before.width, p, position);
                }
            }
        }
        if alive {
            assert(self@.alive =~= before@.with_alive(position).alive);
        } else {
            assert(self@.alive =~= before@.with_dead(position).alive);
        }
    }
}

impl std::ops::Deref for GridImpl {
    type Target = [bool];

    /// The flags of all cells in row-major order.
    fn deref(&self) -> (cells: &[bool])
        ensures
            cells@.len() == self@.width * self@.height,
            forall|p: Position|
                self@.covers(p) ==> cells@[#[trigger] row_major_index(self@.width, p)]
                    == self@.alive.contains(p),
    {
        proof {
            use_type_invariant(self);
        }
        self.grid.as_slice()
    }
}

impl Clone for GridImpl {
    fn clone(&self) -> (copy: Self)
        ensures
            copy@ == self@,
    {
        proof {
            use_type_invariant(self);
        }
        let grid = self.grid.clone();
        GridImpl { grid, width: self.width, height: self.height }
    }
}

impl Grid for GridImpl {
    proof fn lemma_live_cells_lie_on_the_board(&self) {
    }

    fn width(&self) -> (w: u32) {
        self.width
    }

    fn height(&self) -> (h: u32) {
        self.height
    }

    fn is_alive_at(&self, position: Position) -> (alive: bool) {
        let index: usize = self.translate_coordinates_to_index(position);
        self.grid[index]
    }

    fn set_alive_at(&mut self, position: Position) {
        proof {
            use_type_invariant(&*self);
        }
        let index: usize = self.translate_coordinates_to_index(position);
        self.grid[index] = true;
        proof {
            self.lemma_view_after_write(*old(self), position, true);
        }
    }

    fn set_dead_at(&mut self, position: Position) {
        proof {
            use_type_invariant(&*self);
        }
        let index: usize = self.translate_coordinates_to_index(position);
        self.grid[index] = false;
        proof {
            self.lemma_view_after_write(*old(self), position, false);
        }
    }
}

} // verus!
