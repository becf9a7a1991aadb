//! The search: exhaustive minimax over every continuation of a position.

use crate::board::{
    available, available_cells, blanks, is_winning, placed, wins, Board, Cell, Player, CELLS,
};
use crate::optimal::{lemma_search_is_optimal, lemma_value_is_outcome};
use vstd::prelude::*;

verus! {

/// What the search settles on: a cell to mark and the score that playing it
/// leads to when both sides go on playing their best.
#[derive(Clone, Copy, PartialEq, Eq, Debug)]
pub struct Move {
    pub index: u8,
    pub score: i32,
}

/// Score of a position the computer has won.
pub const WIN: i32 = 10;

/// Score of a position the human has won.
pub const LOSS: i32 = -10;

/// Score of a full board without a winner.
pub const DRAW: i32 = 0;

/// A bound that no score reaches; the search starts from it.
pub const OUT_OF_RANGE: i32 = 10000;

/// The score every real outcome improves on for `player`: below all scores
/// for the computer, who maximises, above all for the human, who minimises.
pub open spec fn worst(player: Player) -> int {
    match player {
        Player::Computer => -OUT_OF_RANGE,
        Player::Human => OUT_OF_RANGE as int,
    }
}

/// `candidate` is strictly better for `player` than `best`.
pub open spec fn improves(player: Player, candidate: int, best: int) -> bool {
    match player {
        Player::Computer => candidate > best,
        Player::Human => candidate < best,
    }
}

/// Neither side has a line and a cell is still free.
pub open spec fn in_play(s: Seq<Cell>) -> bool {
    s.len() == CELLS && !wins(s, Player::Human) && !wins(s, Player::Computer) && blanks(s) > 0
}

/// The pair (cell, score) that the search returns for `player` to move on
/// `s`. On a finished board the cell is 0 and the score tells how it ended.
pub open spec fn search(s: Seq<Cell>, player: Player) -> (int, int)
    decreases blanks(s), 10int,
{
    if s.len() != CELLS {
        (0, 0)
    } else if wins(s, Player::Human) {
        (0, LOSS as int)
    } else if wins(s, Player::Computer) {
        (0, WIN as int)
    } else if blanks(s) == 0 {
        (0, DRAW as int)
    } else {
        search_below(s, player, 9)
    }
}

/// The best (cell, score) among the moves to empty cells below `n`, taken in
/// ascending order and replaced only by a strictly better one.
pub open spec fn search_below(s: Seq<Cell>, player: Player, n: int) -> (int, int)
    decreases blanks(s), n,
{
    if n <= 0 || n > 9 || s.len() != CELLS {
        (0, worst(player))
    } else {
        let best = search_below(s, player, n - 1);
        if s[n - 1] == Cell::Empty {
            let score = search(placed(s, n - 1, player), player.opponent()).1;
            if improves(player, score, best.1) {
                (n - 1, score)
            } else {
                best
            }
        } else {
            best
        }
    }
}

/// The score of `s` with `player` to move and both sides playing their best.
pub open spec fn value(s: Seq<Cell>, player: Player) -> int {
    search(s, player).1
}

/// The cell the search picks for `player` on `s`.
pub open spec fn choice(s: Seq<Cell>, player: Player) -> int {
    search(s, player).0
}

/// A score is one of the three outcomes: lost, drawn or won.
pub open spec fn is_outcome(score: int) -> bool {
    score == LOSS || score == DRAW || score == WIN
}

/// The score of the position that `player` reaches by marking cell `index`.
pub open spec fn reply_value(s: Seq<Cell>, player: Player, index: int) -> int {
    value(placed(s, index, player), player.opponent())
}

/// Cells that hold a mark do not change what the search has found so far.
proof fn lemma_search_skips_taken(s: Seq<Cell>, player: Player, m: int, n: int)
    requires
        s.len() == CELLS,
        0 <= m <= n <= 9,
        forall|c: int| m <= c < n ==> s[c] != Cell::Empty,
    ensures
        search_below(s, player, n) == search_below(s, player, m),
    decreases n - m,
{
    if m < n {
        lemma_search_skips_taken(s, player, m, n - 1);
    }
}

/// Where the search stands before it looks at the `k`-th empty cell: at that
/// cell's index, or past the grid when all have been seen.
spec fn frontier(cells: Seq<u8>, k: int) -> int {
    if k < cells.len() {
        cells[k] as int
    } else {
        9
    }
}

/// Picks the best move for `player` by trying every empty cell and scoring
/// each with the opponent's best answer. The board is not changed.
pub fn minimax(board: &Board, player: Player) -> (best: Move)
    ensures
        best.index == choice(board@, player),
        best.score == value(board@, player),
        is_outcome(best.score as int),
        best.index < CELLS,
        in_play(board@) ==> board@[best.index as int] == Cell::Empty,
    decreases blanks(board@),
{
    proof {
        lemma_value_is_outcome(board@, player);
        if in_play(board@) {
            lemma_search_is_optimal(board@, player);
        }
    }
    let cells = available_cells(board);
    if is_winning(board, Player::Human) {
        return Move { index: 0, score: LOSS };
    }
    if is_winning(board, Player::Computer) {
        return Move { index: 0, score: WIN };
    }
    if cells.len() == 0 {
        return Move { index: 0, score: DRAW };
    }
    let mut best = Move { index: 0, score: 0 };
    match player {
        Player::Computer => {
            best.score = -OUT_OF_RANGE;
        },
        Player::Human => {
            best.score = OUT_OF_RANGE;
        },
    }
    proof {
        lemma_search_skips_taken(board@, player, 0, frontier(cells@, 0));
    }
    let mut k: usize = 0;
    while k < cells.len()
        invariant
            k <= cells.len(),
            board@.len() == CELLS,
            cells@ == available(board@),
            forall|i: int, j: int| 0 <= i < j < cells@.len() ==> cells@[i] < cells@[j],
            forall|i: int|
                0 <= i < cells@.len() ==> cells@[i] < CELLS && board@[cells@[i] as int]
                    == Cell::Empty,
            forall|c: int|
                0 <= c < CELLS && board@[c] == Cell::Empty ==> exists|i: int|
                    0 <= i < cells@.len() && #[trigger] cells@[i] == c,
            (best.index as int, best.score as int) == search_below(
                board@,
                player,
                frontier(cells@, k as int),
            ),
        decreases cells.len() - k,
    {
        let i = cells[k];
        let next = board.place(i, player);
        let reply = minimax(&next, player.opponent());
        let improved = match player {
            Player::Computer => reply.score > best.score,
            Player::Human => reply.score < best.score,
        };
        if improved {
            best = Move { index: i, score: reply.score };
        }
        proof {
            let after = frontier(cells@, k + 1);
            assert forall|c: int| i < c < after implies board@[c] != Cell::Empty by {
                if board@[c] == Cell::Empty {
                    let j = choose|j: int| 0 <= j < cells@.len() && #[trigger] cells@[j] == c;
                    assert(k < j);
                    assert(j < k + 1);
                }
            }
            lemma_search_skips_taken(board@, player, i + 1, after);
        }
        k += 1;
    }
    best
}

} // verus!
