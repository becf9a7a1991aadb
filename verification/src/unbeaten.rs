//! The computer cannot be beaten: from the empty grid the human, moving
//! first, never reaches a position better for them than a draw.

use crate::board::{empty_grid, placed, wins, Cell, Player, CELLS};
use crate::engine::{choice, in_play, value};
use crate::grid::lemma_holds_is_sound;
use crate::openings::lemma_holds_from_start;
use crate::optimal::{
    lemma_no_better_move, lemma_placed, lemma_search_is_optimal, lemma_search_when_over,
};
use vstd::prelude::*;

verus! {

/// With the human to move first on the empty grid and both sides playing
/// their best, the game is at best a draw for the human.
pub proof fn lemma_human_cannot_force_a_win()
    ensures
        value(empty_grid(), Player::Human) >= 0,
{
    lemma_holds_from_start();
    lemma_holds_is_sound(empty_grid(), Player::Human, 9);
}

/// A position whose score is at least a draw is not one the human has won.
pub proof fn lemma_not_lost(s: Seq<Cell>, mover: Player)
    requires
        s.len() == CELLS,
        value(s, mover) >= 0,
    ensures
        !wins(s, Player::Human),
{
}

/// One round of a game: the human marks cell `index` and, unless that ends
/// the game, the computer marks the cell that the search picks. A move to a
/// taken cell, or one made after the game has ended, changes nothing.
pub open spec fn round(s: Seq<Cell>, index: int) -> Seq<Cell> {
    if in_play(s) && 0 <= index < 9 && s[index] == Cell::Empty {
        let marked = placed(s, index, Player::Human);
        if in_play(marked) {
            placed(marked, choice(marked, Player::Computer), Player::Computer)
        } else {
            marked
        }
    } else {
        s
    }
}

/// A round does not help the human: if the score before it was at least a
/// draw, so is the score after it.
pub proof fn lemma_round_keeps_the_draw(s: Seq<Cell>, index: int)
    requires
        s.len() == CELLS,
        value(s, Player::Human) >= 0,
    ensures
        round(s, index).len() == CELLS,
        value(round(s, index), Player::Human) >= 0,
{
    if in_play(s) && 0 <= index < 9 && s[index] == Cell::Empty {
        let marked = placed(s, index, Player::Human);
        lemma_placed(s, index, Player::Human);
        lemma_no_better_move(s, Player::Human, index);
        assert(value(marked, Player::Computer) >= 0);
        if in_play(marked) {
            lemma_search_is_optimal(marked, Player::Computer);
            lemma_placed(marked, choice(marked, Player::Computer), Player::Computer);
        } else {
            lemma_search_when_over(marked, Player::Computer);
            lemma_search_when_over(marked, Player::Human);
        }
    }
}

/// The position reached from the empty grid when the human plays the cells
/// of `moves` in turn and the computer answers each with the search's choice.
pub open spec fn position_after(moves: Seq<int>) -> Seq<Cell>
    decreases moves.len(),
{
    if moves.len() == 0 {
        empty_grid()
    } else {
        round(position_after(moves.drop_last()), moves.last())
    }
}

/// The computer is never beaten. Whatever cells the human chooses, and in
/// whatever order, a game that starts on the empty grid with the human to
/// move and in which the computer answers with the search's choice never
/// reaches a position that the human has won, nor one from which the human
/// could still force a win.
pub proof fn lemma_human_never_wins(moves: Seq<int>)
    ensures
        position_after(moves).len() == CELLS,
        value(position_after(moves), Player::Human) >= 0,
        !wins(position_after(moves), Player::Human),
    decreases moves.len(),
{
    if moves.len() == 0 {
        lemma_human_cannot_force_a_win();
    } else {
        lemma_human_never_wins(moves.drop_last());
        lemma_round_keeps_the_draw(position_after(moves.drop_last()), moves.last());
    }
}

} // verus!
