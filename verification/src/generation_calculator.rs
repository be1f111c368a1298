//! The rule of the game: which cells change from one generation to the next.

use crate::grid::{
    cell_at, lemma_cell_at_index, lemma_index_of_cell_at, lemma_row_major_index_bound,
    lemma_row_major_index_injective, row_major_cells, row_major_index, Grid, GridState, Position,
};
use vstd::prelude::*;

verus! {

/// "This cell must become this state."
#[derive(Debug, Eq, PartialEq, Clone, Copy, Structural)]
pub struct Change {
    pub position: Position,
    pub is_alive: bool,
}

impl Change {
    /// The board `s` with this change made: one cell set, the others as they
    /// were.
    pub open spec fn applied_to(self, s: GridState) -> GridState {
        if self.is_alive {
            s.with_alive(self.position)
        } else {
            s.with_dead(self.position)
        }
    }
}

/// The board `s` after the changes were made one after the other, the first
/// of them first.
pub open spec fn after_changes(s: GridState, changes: Seq<Change>) -> GridState
    decreases changes.len(),
{
    if changes.len() == 0 {
        s
    } else {
        changes.last().applied_to(after_changes(s, changes.drop_last()))
    }
}

/// Changes set cells; they never resize the board.
pub proof fn lemma_changes_keep_the_size(s: GridState, changes: Seq<Change>)
    ensures
        after_changes(s, changes).width == s.width,
        after_changes(s, changes).height == s.height,
    decreases changes.len(),
{
    if changes.len() > 0 {
        lemma_changes_keep_the_size(s, changes.drop_last());
    }
}

/// A batch of one change does what that change does.
pub proof fn lemma_single_change(s: GridState, c: Change)
    ensures
        after_changes(s, seq![c]) == c.applied_to(s),
{
    assert(after_changes(s, seq![c].drop_last()) == s);
}

/// Whether every change speaks of a cell of the board `s`.
pub open spec fn changes_fit(s: GridState, changes: Seq<Change>) -> bool {
    forall|i: int| 0 <= i < changes.len() ==> s.covers((#[trigger] changes[i]).position)
}

/// Makes the changes on the grid, in the order given.
pub fn apply_changes<G: Grid>(grid: &mut G, changes: &[Change])
    requires
        changes_fit(old(grid)@, changes@),
    ensures
        final(grid)@ == after_changes(old(grid)@, changes@),
        final(grid)@.width == old(grid)@.width,
        final(grid)@.height == old(grid)@.height,
{
    let mut i: usize = 0;
    while i < changes.len()
        invariant
            i <= changes.len(),
            changes_fit(old(grid)@, changes@),
            grid@.width == old(grid)@.width,
            grid@.height == old(grid)@.height,
            grid@ == after_changes(old(grid)@, changes@.take(i as int)),
        decreases changes.len() - i,
    {
        proof {
            assert(changes@.take(i + 1).drop_last() =~= changes@.take(i as int));
        }
        if changes[i].is_alive {
            grid.set_alive_at(changes[i].position);
        } else {
            grid.set_dead_at(changes[i].position);
        }
        i += 1;
    }
    proof {
        assert(changes@.take(changes.len() as int) =~= changes@);
    }
}

/// One for a live cell, nothing for a dead one.
pub open spec fn census(alive: bool) -> nat {
    if alive {
        1
    } else {
        0
    }
}

/// How many of the eight cells around `p` are alive. The board does not wrap
/// around: a cell on an edge or in a corner has fewer neighbours.
pub open spec fn live_neighbours(s: GridState, p: Position) -> nat {
    let x = p.x as int;
    let y = p.y as int;
    census(s.alive_at(x - 1, y - 1)) + census(s.alive_at(x, y - 1)) + census(
        s.alive_at(x + 1, y - 1),
    ) + census(s.alive_at(x - 1, y)) + census(s.alive_at(x + 1, y)) + census(
        s.alive_at(x - 1, y + 1),
    ) + census(s.alive_at(x, y + 1)) + census(s.alive_at(x + 1, y + 1))
}

/// What the rule asks of the cell `p`: a live cell with fewer than two or
/// more than three live neighbours dies, a dead cell with exactly three comes
/// alive, and any other cell stays as it is.
pub open spec fn cell_change(s: GridState, p: Position) -> Option<Change> {
    let n = live_neighbours(s, p);
    if s.alive.contains(p) && (n < 2 || n > 3) {
        Some(Change { position: p, is_alive: false })
    } else if !s.alive.contains(p) && n == 3 {
        Some(Change { position: p, is_alive: true })
    } else {
        None
    }
}

/// The rule of the board `s`, as a function of the cell.
pub open spec fn rule(s: GridState) -> spec_fn(Position) -> Option<Change> {
    |p: Position| cell_change(s, p)
}

/// The changes that take the board `s` to its next generation: the rule's
/// verdict on each cell in row-major order, the unchanged cells left out.
pub open spec fn generation_diff(s: GridState) -> Seq<Change> {
    row_major_cells(s).filter_map(rule(s))
}

/// Counts the live cells among the up to eight neighbours of `position`;
/// `None` for a position that is not on the board.
pub fn count_neighbours_at<G: Grid>(grid: &G, position: Position) -> (count: Option<u32>)
    ensures
        count == (if grid@.covers(position) {
            Some(live_neighbours(grid@, position) as u32)
        } else {
            None
        }),
{
    if position.x >= grid.width() || position.y >= grid.height() {
        return None;
    }
    let top: bool = position.y == 0;
    let right: bool = position.x == grid.width() - 1;
    let bottom: bool = position.y == grid.height() - 1;
    let left: bool = position.x == 0;

    let mut neighbours: u32 = 0;
    if !top && grid.is_alive_at(Position { x: position.x, y: position.y - 1 }) {
        neighbours += 1;
    }
    if !top && !right && grid.is_alive_at(Position { x: position.x + 1, y: position.y - 1 }) {
        neighbours += 1;
    }
    if !right && grid.is_alive_at(Position { x: position.x + 1, y: position.y }) {
        neighbours += 1;
    }
    if !right && !bottom && grid.is_alive_at(Position { x: position.x + 1, y: position.y + 1 }) {
        neighbours += 1;
    }
    if !bottom && grid.is_alive_at(Position { x: position.x, y: position.y + 1 }) {
        neighbours += 1;
    }
    if !left && !bottom && grid.is_alive_at(Position { x: position.x - 1, y: position.y + 1 }) {
        neighbours += 1;
    }
    if !left && grid.is_alive_at(Position { x: position.x - 1, y: position.y }) {
        neighbours += 1;
    }
    if !left && !top && grid.is_alive_at(Position { x: position.x - 1, y: position.y - 1 }) {
        neighbours += 1;
    }
    Some(neighbours)
}

/// Derives the changes of one generation from a grid, without touching it.
pub trait GenerationCalculator {
    /// The diff between the grid and its next generation.
    fn next_generation<G: Grid>(&self, grid: &G) -> (changes: Vec<Change>)
        ensures
            changes@ == generation_diff(grid@),
    ;
}

/// The calculator of the standard rule on a board framed by dead cells.
#[derive(Debug)]
pub struct GenerationCalculatorImpl;

impl GenerationCalculatorImpl {
    /// The calculator; it has no state.
    pub fn new() -> Self {
        GenerationCalculatorImpl
    }
}

impl GenerationCalculator for GenerationCalculatorImpl {
    fn next_generation<G: Grid>(&self, grid: &G) -> (changes: Vec<Change>) {
        let width: u32 = grid.width();
        let height: u32 = grid.height();
        let ghost s = grid@;
        let ghost cells = row_major_cells(s);
        let mut changes: Vec<Change> = Vec::new();
        let mut y: u32 = 0;
        while y < height
            invariant
                s == grid@,
                cells == row_major_cells(s),
                width == s.width,
                height == s.height,
                y <= height,
                0 <= y * width <= cells.len(),
                changes@ == cells.take(y * width).filter_map(rule(s)),
            decreases height - y,
        {
            let mut x: u32 = 0;
            while x < width
                invariant
                    s == grid@,
                    cells == row_major_cells(s),
                    width == s.width,
                    height == s.height,
                    y < height,
                    x <= width,
                    0 <= y * width + x <= cells.len(),
                    changes@ == cells.take(y * width + x).filter_map(rule(s)),
                decreases width - x,
            {
                let position = Position { x, y };
                proof {
                    let k = y * width + x;
                    assert(k < width * height) by (nonlinear_arith)
                        requires
                            k == y * width + x,
                            0 <= x < width,
                            0 <= y < height,
                    ;
                    lemma_cell_at_index(s.width, position);
                    cells.lemma_filter_map_take_succ(rule(s), k);
                }
                let neighbours: u32 = count_neighbours_at(grid, position).unwrap();
                let is_alive = grid.is_alive_at(position);
                if is_alive && (neighbours < 2 || neighbours > 3) {
                    changes.push(Change { position, is_alive: false });
                } else if !is_alive && neighbours == 3 {
                    changes.push(Change { position, is_alive: true });
                }
                x += 1;
            }
            proof {
                assert((y + 1) * width == y * width + width) by (nonlinear_arith);
            }
            y += 1;
        }
        proof {
            assert(cells.take(cells.len() as int) =~= cells);
            assert(height * width == width * height) by (nonlinear_arith);
        }
        changes
    }
}

/// The changes among the first `k` cells of the board.
spec fn changes_before(s: GridState, k: int) -> Seq<Change> {
    row_major_cells(s).take(k).filter_map(rule(s))
}

/// What the changes among the first `k` cells are: the rule's verdicts on
/// those cells, each of them, in the order of the cells.
proof fn lemma_changes_before(s: GridState, k: int)
    requires
        0 <= k <= s.width * s.height,
    ensures
        forall|i: int|
            0 <= i < changes_before(s, k).len() ==> {
                let c = #[trigger] changes_before(s, k)[i];
                &&& s.covers(c.position)
                &&& cell_change(s, c.position) == Some(c)
                &&& row_major_index(s.width, c.position) < k
            },
        forall|i: int, j: int|
            0 <= i < j < changes_before(s, k).len() ==> row_major_index(
                s.width,
                (#[trigger] changes_before(s, k)[i]).position,
            ) < row_major_index(s.width, (#[trigger] changes_before(s, k)[j]).position),
        forall|p: Position|
            s.covers(p) && row_major_index(s.width, p) < k && (#[trigger] cell_change(
                s,
                p,
            )) is Some ==> changes_before(s, k).contains(cell_change(s, p)->0),
    decreases k,
{
    if k > 0 {
        let before = changes_before(s, k - 1);
        let now = changes_before(s, k);
        let q = cell_at(s.width, k - 1);
        lemma_changes_before(s, k - 1);
        lemma_index_of_cell_at(s, k - 1);
        row_major_cells(s).lemma_filter_map_take_succ(rule(s), k - 1);
        match cell_change(s, q) {
            Some(c) => {
                assert(now =~= before.push(c));
                assert forall|p: Position|
                    s.covers(p) && row_major_index(s.width, p) < k && (#[trigger] cell_change(
                        s,
                        p,
                    )) is Some implies now.contains(cell_change(s, p)->0) by {
                    if row_major_index(s.width, p) == k - 1 {
                        lemma_row_major_index_injective(s.width, p, q);
                        assert(now[now.len() - 1] == c);
                    } else {
                        let d = cell_change(s, p)->0;
                        assert(before.contains(d));
                        let i = choose|i: int| 0 <= i < before.len() && before[i] == d;
                        assert(now[i] == d);
                    }
                }
            },
            None => {
                assert(now =~= before);
                assert forall|p: Position|
                    s.covers(p) && row_major_index(s.width, p) < k && (#[trigger] cell_change(
                        s,
                        p,
                    )) is Some implies now.contains(cell_change(s, p)->0) by {
                    if row_major_index(s.width, p) == k - 1 {
                        lemma_row_major_index_injective(s.width, p, q);
                    }
                }
            },
        }
    }
}

/// A change belongs to the diff of a generation exactly if it is the rule's
/// verdict on a cell of the board.
pub proof fn lemma_diff_holds_the_verdicts(s: GridState, c: Change)
    ensures
        generation_diff(s).contains(c) <==> s.covers(c.position) && cell_change(s, c.position)
            == Some(c),
{
    let cells = row_major_cells(s);
    let n = s.width * s.height;
    assert(cells.take(n) =~= cells);
    lemma_changes_before(s, n);
    if s.covers(c.position) {
        lemma_row_major_index_bound(s, c.position);
    }
}

/// The diff is minimal: each of its changes sets a cell to the state that
/// the cell is not in.
pub proof fn lemma_diff_names_no_settled_cell(s: GridState)
    ensures
        forall|i: int|
            0 <= i < generation_diff(s).len() ==> (#[trigger] generation_diff(s)[i]).is_alive
                != s.alive.contains(generation_diff(s)[i].position),
{
    let diff = generation_diff(s);
    assert forall|i: int| 0 <= i < diff.len() implies (#[trigger] diff[i]).is_alive
        != s.alive.contains(diff[i].position) by {
        lemma_diff_holds_the_verdicts(s, diff[i]);
    }
}

/// Whether the cell `a` comes before the cell `b` in row-major order: in a
/// row above, or in the same row further to the left.
pub open spec fn comes_before(a: Position, b: Position) -> bool {
    a.y < b.y || (a.y == b.y && a.x < b.x)
}

/// The changes of a generation stand in row-major order, by ascending `y`
/// and within one row by ascending `x`; so no cell occurs twice.
pub proof fn lemma_diff_is_row_major(s: GridState)
    ensures
        forall|i: int, j: int|
            0 <= i < j < generation_diff(s).len() ==> comes_before(
                (#[trigger] generation_diff(s)[i]).position,
                (#[trigger] generation_diff(s)[j]).position,
            ),
{
    let cells = row_major_cells(s);
    let n = s.width * s.height;
    assert(cells.take(n) =~= cells);
    lemma_changes_before(s, n);
    let diff = generation_diff(s);
    assert forall|i: int, j: int| 0 <= i < j < diff.len() implies comes_before(
        (#[trigger] diff[i]).position,
        (#[trigger] diff[j]).position,
    ) by {
        let a = diff[i].position;
        let b = diff[j].position;
        let (w, ax, ay, bx, by) = (s.width as int, a.x as int, a.y as int, b.x as int, b.y as int);
        assert(ay < by || (ay == by && ax < bx)) by (nonlinear_arith)
            requires
                0 <= ax < w,
                0 <= bx < w,
                0 <= ay,
                0 <= by,
                ay * w + ax < by * w + bx,
        ;
    }
}

/// A board without a live cell has an empty diff.
pub proof fn lemma_dead_board_is_stable(s: GridState)
    requires
        forall|p: Position| !s.alive.contains(p),
    ensures
        generation_diff(s) == Seq::<Change>::empty(),
{
    let d = generation_diff(s);
    if d.len() > 0 {
        lemma_diff_holds_the_verdicts(s, d[0]);
    }
}

/// A live cell with no live neighbour or only one dies of loneliness: it is
/// in the diff, as dead.
pub proof fn lemma_lonely_cell_dies(s: GridState, p: Position)
    requires
        s.covers(p),
        s.alive.contains(p),
        live_neighbours(s, p) < 2,
    ensures
        generation_diff(s).contains(Change { position: p, is_alive: false }),
{
    lemma_diff_holds_the_verdicts(s, Change { position: p, is_alive: false });
}

/// A live cell with four live neighbours or more dies of crowding: it is in
/// the diff, as dead.
pub proof fn lemma_crowded_cell_dies(s: GridState, p: Position)
    requires
        s.covers(p),
        s.alive.contains(p),
        live_neighbours(s, p) > 3,
    ensures
        generation_diff(s).contains(Change { position: p, is_alive: false }),
{
    lemma_diff_holds_the_verdicts(s, Change { position: p, is_alive: false });
}

/// A live cell with two or three live neighbours lives on: it is not in
/// the diff.
pub proof fn lemma_settled_cell_survives(s: GridState, p: Position)
    requires
        s.alive.contains(p),
        live_neighbours(s, p) == 2 || live_neighbours(s, p) == 3,
    ensures
        forall|i: int|
            0 <= i < generation_diff(s).len() ==> (#[trigger] generation_diff(s)[i]).position != p,
{
    let diff = generation_diff(s);
    assert forall|i: int| 0 <= i < diff.len() implies (#[trigger] diff[i]).position != p by {
        lemma_diff_holds_the_verdicts(s, diff[i]);
    }
}

/// A dead cell with exactly three live neighbours is in the diff, as
/// alive.
pub proof fn lemma_cell_is_born(s: GridState, p: Position)
    requires
        s.covers(p),
        !s.alive.contains(p),
        live_neighbours(s, p) == 3,
    ensures
        generation_diff(s).contains(Change { position: p, is_alive: true }),
{
    lemma_diff_holds_the_verdicts(s, Change { position: p, is_alive: true });
}

/// A dead cell without exactly three live neighbours is not in the diff.
pub proof fn lemma_dead_cell_stays_dead(s: GridState, p: Position)
    requires
        !s.alive.contains(p),
        live_neighbours(s, p) != 3,
    ensures
        forall|i: int|
            0 <= i < generation_diff(s).len() ==> (#[trigger] generation_diff(s)[i]).position != p,
{
    let diff = generation_diff(s);
    assert forall|i: int| 0 <= i < diff.len() implies (#[trigger] diff[i]).position != p by {
        lemma_diff_holds_the_verdicts(s, diff[i]);
    }
}

/// What lies beyond the board never counts as a neighbour: live cells added
/// outside the bounds leave every count as it was.
pub proof fn lemma_frame_never_counts(s: GridState, beyond: Set<Position>, p: Position)
    requires
        forall|q: Position| beyond.contains(q) ==> !s.covers(q),
    ensures
        live_neighbours(GridState { alive: s.alive.union(beyond), ..s }, p) == live_neighbours(
            s,
            p,
        ),
{
}

/// A cell in a corner of the board has at most three live neighbours, and a
/// cell on an edge at most five: nothing is counted across an edge.
pub proof fn lemma_edges_have_fewer_neighbours(s: GridState, p: Position)
    requires
        s.covers(p),
    ensures
        ({
            let on_side = p.x == 0 || p.x == s.width - 1;
            let on_end = p.y == 0 || p.y == s.height - 1;
            &&& on_side && on_end ==> live_neighbours(s, p) <= 3
            &&& on_side || on_end ==> live_neighbours(s, p) <= 5
            &&& live_neighbours(s, p) <= 8
        }),
{
}

} // verus!
