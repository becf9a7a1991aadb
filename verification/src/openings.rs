//! The nine ways the human can open, each with the computer's answer, and
//! the proof that the computer holds every one of them. After the first
//! two moves seven cells are free, and the solver plays every game from
//! there to its end.

use crate::board::{Cell, Player};
use crate::grid::{holds, holds_after, lemma_holds_fold, lemma_holds_fold_all, Grid};
use vstd::prelude::*;

mod centre;
mod corner;
mod edge;

verus! {

/// The grid after the human's first move to `first` and the computer's
/// answer to `answer`.
pub open spec fn opening(first: int, answer: int) -> Grid {
    Grid::blank().put(first, Cell::Human).put(answer, Cell::Computer)
}

/// The computer holds the empty grid with the human to move: it answers an
/// opening in the centre with a corner and any other opening with the centre.
pub proof fn lemma_holds_from_start()
    ensures
        holds(Grid::blank(), Player::Human, 9),
{
    corner::lemma_top_left();
    edge::lemma_top();
    corner::lemma_top_right();
    edge::lemma_left();
    centre::lemma_centre();
    edge::lemma_right();
    corner::lemma_bottom_left();
    edge::lemma_bottom();
    corner::lemma_bottom_right();
    assert forall|first: int| 0 <= first < 9 implies #[trigger] holds_after(
        Grid::blank(),
        Player::Human,
        first,
        9,
    ) by {
        let answer = if first == 4 {
            0
        } else {
            4
        };
        assert(holds(opening(first, answer), Player::Human, 7));
        assert(holds_after(Grid::blank().put(first, Cell::Human), Player::Computer, answer, 8));
        lemma_holds_fold(Grid::blank().put(first, Cell::Human), Player::Computer, 8, answer);
    }
    lemma_holds_fold_all(Grid::blank(), 9);
}

} // verus!
