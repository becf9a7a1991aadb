//! The human opens in the centre and the computer takes a corner.

use crate::board::{Cell, Player};
use crate::grid::{holds, rows};
use crate::openings::opening;
use vstd::prelude::*;

verus! {

/// With the human in the centre and the computer in the top left corner,
/// the computer holds.
#[verifier::rlimit(30)]
pub(crate) proof fn lemma_centre()
    ensures
        holds(opening(4, 0), Player::Human, 7),
{
    let (e, h, c) = (Cell::Empty, Cell::Human, Cell::Computer);
    let g = rows((c, e, e), (e, h, e), (e, e, e));
    assert(holds(g, Player::Human, 7)) by {
        reveal_with_fuel(holds, 8);
    }
    assert(g == opening(4, 0));
}

} // verus!
