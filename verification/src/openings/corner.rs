//! The human opens in a corner and the computer takes the centre.

use crate::board::{Cell, Player};
use crate::grid::{holds, rows};
use crate::openings::opening;
use vstd::prelude::*;

verus! {

/// With the human in the top left corner and the computer in the centre, the
/// computer holds.
#[verifier::rlimit(30)]
pub(crate) proof fn lemma_top_left()
    ensures
        holds(opening(0, 4), Player::Human, 7),
{
    let (e, h, c) = (Cell::Empty, Cell::Human, Cell::Computer);
    let g = rows((h, e, e), (e, c, e), (e, e, e));
    assert(holds(g, Player::Human, 7)) by {
        reveal_with_fuel(holds, 8);
    }
    assert(g == opening(0, 4));
}

/// With the human in the top right corner and the computer in the centre, the
/// computer holds.
#[verifier::rlimit(30)]
pub(crate) proof fn lemma_top_right()
    ensures
        holds(opening(2, 4), Player::Human, 7),
{
    let (e, h, c) = (Cell::Empty, Cell::Human, Cell::Computer);
    let g = rows((e, e, h), (e, c, e), (e, e, e));
    assert(holds(g, Player::Human, 7)) by {
        reveal_with_fuel(holds, 8);
    }
    assert(g == opening(2, 4));
}

/// With the human in the bottom left corner and the computer in the centre,
/// the computer holds.
#[verifier::rlimit(30)]
pub(crate) proof fn lemma_bottom_left()
    ensures
        holds(opening(6, 4), Player::Human, 7),
{
    let (e, h, c) = (Cell::Empty, Cell::Human, Cell::Computer);
    let g = rows((e, e, e), (e, c, e), (h, e, e));
    assert(holds(g, Player::Human, 7)) by {
        reveal_with_fuel(holds, 8);
    }
    assert(g == opening(6, 4));
}

/// With the human in the bottom right corner and the computer in the centre,
/// the computer holds.
#[verifier::rlimit(30)]
pub(crate) proof fn lemma_bottom_right()
    ensures
        holds(opening(8, 4), Player::Human, 7),
{
    let (e, h, c) = (Cell::Empty, Cell::Human, Cell::Computer);
    let g = rows((e, e, e), (e, c, e), (e, e, h));
    assert(holds(g, Player::Human, 7)) by {
        reveal_with_fuel(holds, 8);
    }
    assert(g == opening(8, 4));
}

} // verus!
