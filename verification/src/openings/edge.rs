//! The human opens in the middle of a side and the computer takes the
//! centre.

use crate::board::{Cell, Player};
use crate::grid::{holds, rows};
use crate::openings::opening;
use vstd::prelude::*;

verus! {

/// With the human in the middle of the top row and the computer in the
/// centre, the computer holds.
#[verifier::rlimit(30)]
pub(crate) proof fn lemma_top()
    ensures
        holds(opening(1, 4), Player::Human, 7),
{
    let (e, h, c) = (Cell::Empty, Cell::Human, Cell::Computer);
    let g = rows((e, h, e), (e, c, e), (e, e, e));
    assert(holds(g, Player::Human, 7)) by {
        reveal_with_fuel(holds, 8);
    }
    assert(g == opening(1, 4));
}

/// With the human in the middle of the left column and the computer in the
/// centre, the computer holds.
#[verifier::rlimit(30)]
pub(crate) proof fn lemma_left()
    ensures
        holds(opening(3, 4), Player::Human, 7),
{
    let (e, h, c) = (Cell::Empty, Cell::Human, Cell::Computer);
    let g = rows((e, e, e), (h, c, e), (e, e, e));
    assert(holds(g, Player::Human, 7)) by {
        reveal_with_fuel(holds, 8);
    }
    assert(g == opening(3, 4));
}

/// With the human in the middle of the right column and the computer in the
/// centre, the computer holds.
#[verifier::rlimit(30)]
pub(crate) proof fn lemma_right()
    ensures
        holds(opening(5, 4), Player::Human, 7),
{
    let (e, h, c) = (Cell::Empty, Cell::Human, Cell::Computer);
    let g = rows((e, e, e), (e, c, h), (e, e, e));
    assert(holds(g, Player::Human, 7)) by {
        reveal_with_fuel(holds, 8);
    }
    assert(g == opening(5, 4));
}

/// With the human in the middle of the bottom row and the computer in the
/// centre, the computer holds.
#[verifier::rlimit(30)]
pub(crate) proof fn lemma_bottom()
    ensures
        holds(opening(7, 4), Player::Human, 7),
{
    let (e, h, c) = (Cell::Empty, Cell::Human, Cell::Computer);
    let g = rows((e, e, e), (e, c, e), (e, h, e));
    assert(holds(g, Player::Human, 7)) by {
        reveal_with_fuel(holds, 8);
    }
    assert(g == opening(7, 4));
}

} // verus!
