//! A whole generation at once: the board that follows a board.

use crate::generation_calculator::{
    after_changes, apply_changes, changes_fit, generation_diff, lemma_changes_keep_the_size,
    lemma_diff_holds_the_verdicts, lemma_diff_is_row_major, live_neighbours, Change,
    GenerationCalculator, GenerationCalculatorImpl,
};
use crate::grid::{Grid, GridState, Position};
use vstd::prelude::*;

verus! {

/// Whether the cell `p` is alive in the generation after `s`: a live cell
/// lives on with two or three live neighbours, a dead cell comes alive with
/// exactly three.
pub open spec fn alive_next(s: GridState, p: Position) -> bool {
    let n = live_neighbours(s, p);
    if s.alive.contains(p) {
        n == 2 || n == 3
    } else {
        n == 3
    }
}

/// The generation after `s`: the rule applied to every cell of the board at
/// the same time.
pub open spec fn successor(s: GridState) -> GridState {
    GridState { alive: Set::new(|p: Position| s.covers(p) && alive_next(s, p)), ..s }
}

/// Changes to distinct cells leave a cell as the change to it says, and a
/// cell that none of them names as it was.
proof fn lemma_after_distinct_changes(s: GridState, changes: Seq<Change>, p: Position)
    requires
        forall|i: int, j: int|
            0 <= i < j < changes.len() ==> (#[trigger] changes[i]).position
                != (#[trigger] changes[j]).position,
    ensures
        after_changes(s, changes).alive.contains(p) == (if changes.contains(
            Change { position: p, is_alive: true },
        ) {
            true
        } else if changes.contains(Change { position: p, is_alive: false }) {
            false
        } else {
            s.alive.contains(p)
        }),
    decreases changes.len(),
{
    if changes.len() > 0 {
        let last = changes.last();
        let rest = changes.drop_last();
        lemma_after_distinct_changes(s, rest, p);
        assert forall|c: Change| c.position != last.position implies changes.contains(c)
            == rest.contains(c) by {
            if changes.contains(c) {
                let i = choose|i: int| 0 <= i < changes.len() && changes[i] == c;
                assert(rest[i] == c);
            }
            if rest.contains(c) {
                let i = choose|i: int| 0 <= i < rest.len() && rest[i] == c;
                assert(changes[i] == c);
            }
        }
        if last.position == p {
            assert(changes[changes.len() - 1] == last);
            let other = Change { position: p, is_alive: !last.is_alive };
            if changes.contains(other) {
                let i = choose|i: int| 0 <= i < changes.len() && changes[i] == other;
                assert(changes[i].position == changes[changes.len() - 1].position);
            }
        }
    }
}

/// Applying the diff of a generation to its board gives the next generation,
/// no more and no less.
pub proof fn lemma_diff_leads_to_successor(s: GridState)
    requires
        s.wf(),
    ensures
        changes_fit(s, generation_diff(s)),
        after_changes(s, generation_diff(s)) == successor(s),
{
    let diff = generation_diff(s);
    assert forall|i: int| 0 <= i < diff.len() implies s.covers((#[trigger] diff[i]).position) by {
        assert(diff.contains(diff[i]));
        lemma_diff_holds_the_verdicts(s, diff[i]);
    }
    lemma_diff_is_row_major(s);
    assert forall|p: Position|
        after_changes(s, diff).alive.contains(p) == successor(s).alive.contains(p) by {
        lemma_after_distinct_changes(s, diff, p);
        lemma_diff_holds_the_verdicts(s, Change { position: p, is_alive: true });
        lemma_diff_holds_the_verdicts(s, Change { position: p, is_alive: false });
    }
    lemma_changes_keep_the_size(s, diff);
    assert(after_changes(s, diff).alive =~= successor(s).alive);
}

/// Steps a grid from one generation to the next.
#[derive(Debug)]
pub struct DeathFrameGenerationCalculator;

impl DeathFrameGenerationCalculator {
    /// The calculator; it has no state.
    pub fn new() -> Self {
        DeathFrameGenerationCalculator
    }

    /// The grid one generation on.
    pub fn next_generation<T: Grid>(&self, grid: T) -> (next: T)
        ensures
            next@ == successor(grid@),
    {
        let mut next = grid;
        let changes = GenerationCalculatorImpl::new().next_generation(&next);
        proof {
            next.lemma_live_cells_lie_on_the_board();
            lemma_diff_leads_to_successor(next@);
        }
        apply_changes(&mut next, changes.as_slice());
        next
    }
}

} // verus!
