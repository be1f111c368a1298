//! The game: one grid, edited cell by cell or stepped by generations, and a
//! presenter that is told of every change made to it.

use crate::generation::{lemma_diff_leads_to_successor, successor};
use crate::generation_calculator::{
    after_changes, apply_changes, changes_fit, generation_diff, lemma_single_change, Change,
    GenerationCalculator,
};
use crate::grid::{
    alive_cells, lemma_alive_cells_are_the_live_cells, lemma_cell_at_index,
    lemma_row_major_index_bound, lives_on, row_major_cells, Grid, GridState, Position,
};
use vstd::prelude::*;

verus! {

/// The receiving end of the game: it is handed the live cells of the board
/// once, and from then on each batch of changes.
pub trait Presenter {
    /// Whether the board has been handed over.
    spec fn is_initialized(&self) -> bool;

    /// The live cells that the board was handed over with.
    spec fn board(&self) -> Seq<Position>;

    /// The batches presented since, the oldest first.
    spec fn presented(&self) -> Seq<Seq<Change>>;

    /// Whether the presenter has a place for the cell `p`.
    spec fn shows(&self, p: Position) -> bool;

    /// Takes the board over. To be called once, before any batch.
    fn init_board(&mut self, alive_cells: &[Position])
        requires
            !old(self).is_initialized(),
            forall|i: int|
                0 <= i < alive_cells@.len() ==> old(self).shows(#[trigger] alive_cells@[i]),
        ensures
            final(self).is_initialized(),
            final(self).board() == alive_cells@,
            final(self).presented() == Seq::<Seq<Change>>::empty(),
            forall|p: Position| final(self).shows(p) == old(self).shows(p),
    ;

    /// Takes one batch of changes.
    fn present_changes(&mut self, changes: &[Change])
        requires
            old(self).is_initialized(),
            forall|i: int|
                0 <= i < changes@.len() ==> old(self).shows((#[trigger] changes@[i]).position),
        ensures
            final(self).is_initialized(),
            final(self).board() == old(self).board(),
            final(self).presented() == old(self).presented().push(changes@),
            forall|p: Position| final(self).shows(p) == old(self).shows(p),
    ;
}

/// The change that flips the cell `p` of the board `s`.
pub open spec fn toggle_of(s: GridState, p: Position) -> Change {
    Change { position: p, is_alive: !s.alive.contains(p) }
}

/// What a presenter has in front of it if it began with the live cells
/// `board` and made every change of every batch, in order.
pub open spec fn mirrored(
    width: u32,
    height: u32,
    board: Seq<Position>,
    batches: Seq<Seq<Change>>,
) -> GridState
    decreases batches.len(),
{
    if batches.len() == 0 {
        GridState { width, height, alive: board.to_set() }
    } else {
        after_changes(mirrored(width, height, board, batches.drop_last()), batches.last())
    }
}

/// What a game is, mathematically: its grid, and the batches of changes
/// that it has presented since it began, the oldest first.
pub struct GameState {
    pub grid: GridState,
    pub presented: Seq<Seq<Change>>,
}

impl GameState {
    /// The game after it accepted a batch of changes: the changes are made
    /// on the grid, and the batch is presented as it came.
    pub open spec fn accepting(self, changes: Seq<Change>) -> GameState {
        GameState {
            grid: after_changes(self.grid, changes),
            presented: self.presented.push(changes),
        }
    }

    /// The game after a step of generation: the diff of the grid is accepted
    /// as one batch, unless it is empty; then the game is as it was.
    pub open spec fn stepped(self) -> GameState {
        let diff = generation_diff(self.grid);
        if diff.len() == 0 {
            self
        } else {
            self.accepting(diff)
        }
    }

    /// The game after the cell `p` was flipped: that one change is made and
    /// presented as a batch of its own.
    pub open spec fn toggled(self, p: Position) -> GameState {
        let flip = toggle_of(self.grid, p);
        GameState { grid: flip.applied_to(self.grid), presented: self.presented.push(seq![flip]) }
    }
}

/// A toggle goes the way of any batch: it is the batch of the one change
/// that flips the cell.
pub proof fn lemma_toggle_is_a_batch_of_one(game: GameState, p: Position)
    ensures
        game.toggled(p) == game.accepting(seq![toggle_of(game.grid, p)]),
{
    lemma_single_change(game.grid, toggle_of(game.grid, p));
}

/// A game in progress.
pub trait InteractiveGame: View<V = GameState> {
    /// What holds of a game between any two calls.
    spec fn inv(&self) -> bool;

    /// Makes the changes on the grid, then presents them as one batch.
    fn accept_changes(&mut self, changes: &[Change])
        requires
            old(self).inv(),
            changes_fit(old(self)@.grid, changes@),
        ensures
            final(self).inv(),
            final(self)@ == old(self)@.accepting(changes@),
            final(self)@.grid.width == old(self)@.grid.width,
            final(self)@.grid.height == old(self)@.grid.height,
    ;

    /// Steps the grid to its next generation and presents the diff. Where the
    /// generation is stable, the grid is left alone and nothing is presented.
    fn next_generation(&mut self)
        requires
            old(self).inv(),
        ensures
            final(self).inv(),
            final(self)@ == old(self)@.stepped(),
            final(self)@.grid.width == old(self)@.grid.width,
            final(self)@.grid.height == old(self)@.grid.height,
    ;

    /// Flips one cell and presents that one change.
    fn toggle_cell(&mut self, position: &Position)
        requires
            old(self).inv(),
            old(self)@.grid.covers(*position),
        ensures
            final(self).inv(),
            final(self)@ == old(self)@.toggled(*position),
            final(self)@.grid.width == old(self)@.grid.width,
            final(self)@.grid.height == old(self)@.grid.height,
    ;
}

/// The game over a grid, a calculator and a presenter.
pub struct InteractiveGameImpl<G: Grid, C: GenerationCalculator, P: Presenter> {
    grid: G,
    generation_calculator: C,
    presenter: P,
}

impl<G: Grid, C: GenerationCalculator, P: Presenter> InteractiveGameImpl<G, C, P> {
    /// The live cells that the presenter was handed at the start.
    pub closed spec fn board(&self) -> Seq<Position> {
        self.presenter.board()
    }

    /// Takes the parts of a game and hands the board to the presenter: the
    /// live cells of the grid, in row-major order.
    pub fn new(grid: G, generation_calculator: C, presenter: P) -> (game: Self)
        requires
            !presenter.is_initialized(),
            forall|p: Position| grid@.covers(p) ==> presenter.shows(p),
        ensures
            game.inv(),
            game@ == (GameState { grid: grid@, presented: Seq::empty() }),
            game.board() == alive_cells(grid@),
    {
        let mut presenter = presenter;
        let width: u32 = grid.width();
        let height: u32 = grid.height();
        let ghost s = grid@;
        let ghost cells = row_major_cells(s);
        let mut live: Vec<Position> = Vec::new();
        let mut y: u32 = 0;
        while y < height
            invariant
                s == grid@,
                cells == row_major_cells(s),
                width == s.width,
                height == s.height,
                y <= height,
                0 <= y * width <= cells.len(),
                live@ == cells.take(y * width).filter(lives_on(s)),
            decreases height - y,
        {
            let mut x: u32 = 0;
            while x < width
                invariant
                    s == grid@,
                    cells == row_major_cells(s),
                    width == s.width,
                    height == s.height,
                    y < height,
                    x <= width,
                    0 <= y * width + x <= cells.len(),
                    live@ == cells.take(y * width + x).filter(lives_on(s)),
                decreases width - x,
            {
                let position = Position { x, y };
                proof {
                    let k = y * width + x;
                    lemma_row_major_index_bound(s, position);
                    lemma_cell_at_index(s.width, position);
                    assert(cells.take(k + 1) =~= cells.take(k).push(position));
                    cells.take(k).lemma_filter_push(position, lives_on(s));
                }
                if grid.is_alive_at(position) {
                    live.push(position);
                }
                x += 1;
            }
            proof {
                assert((y + 1) * width == y * width + width) by (nonlinear_arith);
            }
            y += 1;
        }
        proof {
            assert(height * width == width * height) by (nonlinear_arith);
            assert(cells.take(cells.len() as int) =~= cells);
            grid.lemma_live_cells_lie_on_the_board();
            lemma_alive_cells_are_the_live_cells(s);
        }
        presenter.init_board(live.as_slice());
        InteractiveGameImpl { grid, generation_calculator, presenter }
    }

    /// The grid of the game.
    pub fn grid(&self) -> (grid: &G)
        ensures
            grid@ == self@.grid,
    {
        &self.grid
    }

    /// The presenter of the game.
    pub fn presenter(&self) -> (presenter: &P)
        ensures
            self.inv() ==> presenter.is_initialized(),
            presenter.board() == self.board(),
            presenter.presented() == self@.presented,
    {
        &self.presenter
    }
}

impl<G: Grid, C: GenerationCalculator, P: Presenter> View for InteractiveGameImpl<G, C, P> {
    type V = GameState;

    closed spec fn view(&self) -> GameState {
        GameState { grid: self.grid@, presented: self.presenter.presented() }
    }
}

impl<G: Grid, C: GenerationCalculator, P: Presenter> InteractiveGame for InteractiveGameImpl<
    G,
    C,
    P,
> {
    closed spec fn inv(&self) -> bool {
        &&& self.presenter.is_initialized()
        &&& forall|p: Position| self.grid@.covers(p) ==> self.presenter.shows(p)
        &&& self.grid@ == mirrored(
            self.grid@.width,
            self.grid@.height,
            self.presenter.board(),
            self.presenter.presented(),
        )
    }

    fn accept_changes(&mut self, changes: &[Change]) {
        proof {
            assert(self.presenter.presented().push(changes@).drop_last()
                =~= self.presenter.presented());
        }
        apply_changes(&mut self.grid, changes);
        self.presenter.present_changes(changes);
    }

    fn next_generation(&mut self) {
        let changes = self.generation_calculator.next_generation(&self.grid);
        proof {
            self.grid.lemma_live_cells_lie_on_the_board();
            lemma_diff_leads_to_successor(self.grid@);
            assert(self.presenter.presented().push(changes@).drop_last()
                =~= self.presenter.presented());
        }
        if !changes.is_empty() {
            apply_changes(&mut self.grid, changes.as_slice());
            self.presenter.present_changes(changes.as_slice());
        }
    }

    fn toggle_cell(&mut self, position: &Position) {
        let is_alive = self.grid.is_alive_at(*position);
        let mut changes: Vec<Change> = Vec::new();
        changes.push(Change { position: *position, is_alive: !is_alive });
        proof {
            lemma_single_change(self.grid@, toggle_of(self.grid@, *position));
            assert(self.presenter.presented().push(changes@).drop_last()
                =~= self.presenter.presented());
        }
        apply_changes(&mut self.grid, changes.as_slice());
        self.presenter.present_changes(changes.as_slice());
    }
}

impl<G: Grid, C: GenerationCalculator, P: Presenter> InteractiveGameImpl<G, C, P> {
    /// The grid is at every moment what the presenter has been told: the
    /// board it was handed, with every batch presented since made on it.
    pub proof fn lemma_presenter_mirrors_grid(&self)
        requires
            self.inv(),
        ensures
            self@.grid == mirrored(
                self@.grid.width,
                self@.grid.height,
                self.board(),
                self@.presented,
            ),
    {
    }
}

/// Flipping a dead cell twice leaves the board as it was, and presents
/// exactly two batches of one change each, to the same cell: the first to
/// alive, the second to dead.
pub proof fn lemma_toggle_pair(game: GameState, p: Position)
    requires
        !game.grid.alive.contains(p),
    ensures
        game.toggled(p).toggled(p) == (GameState {
            grid: game.grid,
            presented: game.presented.push(seq![Change { position: p, is_alive: true }]).push(
                seq![Change { position: p, is_alive: false }],
            ),
        }),
{
    assert(game.grid.alive.insert(p).remove(p) =~= game.grid.alive);
}

/// A step from a stable generation changes nothing and presents nothing.
pub proof fn lemma_stable_step_is_silent(game: GameState)
    requires
        generation_diff(game.grid).len() == 0,
    ensures
        game.stepped() == game,
{
}

/// A step takes the grid to the next generation, whether or not anything is
/// presented.
pub proof fn lemma_step_reaches_the_next_generation(game: GameState)
    requires
        game.grid.wf(),
    ensures
        game.stepped().grid == successor(game.grid),
{
    lemma_diff_leads_to_successor(game.grid);
}

} // verus!
