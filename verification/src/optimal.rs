//! Why the search is right: its score is the extremum over all moves, and
//! its cell is the lowest one that reaches it.

use crate::board::{blanks, placed, wins, Cell, Player, CELLS};
use crate::engine::{
    choice, improves, in_play, is_outcome, reply_value, search_below, value, worst, DRAW, LOSS,
    WIN,
};
use vstd::prelude::*;

verus! {

/// Some cell below `n` is empty.
pub open spec fn blank_below(s: Seq<Cell>, n: int) -> bool {
    exists|i: int| 0 <= i < n && #[trigger] s[i] == Cell::Empty
}

/// `found` is what a scan of the cells below `n` must end with: no move
/// there beats its score, and if there is a move at all it names the first
/// one that reaches that score.
pub open spec fn best_below(s: Seq<Cell>, player: Player, n: int, found: (int, int)) -> bool {
    let (index, score) = found;
    &&& forall|i: int|
        0 <= i < n && s[i] == Cell::Empty ==> !improves(
            player,
            #[trigger] reply_value(s, player, i),
            score,
        )
    &&& !blank_below(s, n) ==> index == 0 && score == worst(player)
    &&& blank_below(s, n) ==> {
        &&& 0 <= index < n
        &&& s[index] == Cell::Empty
        &&& score == reply_value(s, player, index)
        &&& forall|i: int|
            0 <= i < index && s[i] == Cell::Empty ==> improves(
                player,
                score,
                #[trigger] reply_value(s, player, i),
            )
    }
}

/// The score of any nine-cell position is an outcome, never the bound that
/// the search starts from.
pub proof fn lemma_value_is_outcome(s: Seq<Cell>, player: Player)
    requires
        s.len() == CELLS,
    ensures
        is_outcome(value(s, player)),
    decreases blanks(s), 10int,
{
    if in_play(s) {
        lemma_scan(s, player, 9);
        lemma_some_blank(s);
        let index = choice(s, player);
        lemma_value_is_outcome(placed(s, index, player), player.opponent());
    }
}

/// One more mark leaves one empty cell fewer.
pub proof fn lemma_placed(s: Seq<Cell>, index: int, player: Player)
    requires
        s.len() == CELLS,
        0 <= index < 9,
        s[index] == Cell::Empty,
    ensures
        placed(s, index, player).len() == CELLS,
        blanks(placed(s, index, player)) == blanks(s) - 1,
{
}

/// One step of the scan: looking at the empty cell `n - 1` after the cells
/// below it.
proof fn lemma_scan_step(s: Seq<Cell>, player: Player, n: int, before: (int, int), fresh: int)
    requires
        0 < n <= 9,
        s[n - 1] == Cell::Empty,
        best_below(s, player, n - 1, before),
        fresh == reply_value(s, player, n - 1),
        is_outcome(fresh),
        blank_below(s, n - 1) ==> is_outcome(before.1),
    ensures
        best_below(
            s,
            player,
            n,
            if improves(player, fresh, before.1) {
                (n - 1, fresh)
            } else {
                before
            },
        ),
{
    let now = if improves(player, fresh, before.1) {
        (n - 1, fresh)
    } else {
        before
    };
    assert(blank_below(s, n));
    assert forall|i: int| 0 <= i < n && s[i] == Cell::Empty implies !improves(
        player,
        #[trigger] reply_value(s, player, i),
        now.1,
    ) by {
        if i < n - 1 {
            assert(!improves(player, reply_value(s, player, i), before.1));
        }
    }
    assert forall|i: int| 0 <= i < now.0 && s[i] == Cell::Empty implies improves(
        player,
        now.1,
        #[trigger] reply_value(s, player, i),
    ) by {
        assert(blank_below(s, n - 1));
        if now.0 == n - 1 {
            assert(!improves(player, reply_value(s, player, i), before.1));
        }
    }
}

/// The scan keeps the best score seen and the first cell that gave it.
pub proof fn lemma_scan(s: Seq<Cell>, player: Player, n: int)
    requires
        s.len() == CELLS,
        0 <= n <= 9,
    ensures
        best_below(s, player, n, search_below(s, player, n)),
    decreases blanks(s), n,
{
    if n > 0 {
        lemma_scan(s, player, n - 1);
        let before = search_below(s, player, n - 1);
        let now = search_below(s, player, n);
        if s[n - 1] == Cell::Empty {
            let fresh = reply_value(s, player, n - 1);
            assert(now == if improves(player, fresh, before.1) {
                (n - 1, fresh)
            } else {
                before
            });
            assert(is_outcome(fresh)) by {
                lemma_placed(s, n - 1, player);
                lemma_value_is_outcome(placed(s, n - 1, player), player.opponent());
            }
            if blank_below(s, n - 1) {
                assert(is_outcome(before.1)) by {
                    lemma_placed(s, before.0, player);
                    lemma_value_is_outcome(placed(s, before.0, player), player.opponent());
                }
            }
            lemma_scan_step(s, player, n, before, fresh);
        } else {
            assert(now == before);
            assert(blank_below(s, n) == blank_below(s, n - 1)) by {
                if blank_below(s, n) {
                    let i = choose|i: int| 0 <= i < n && #[trigger] s[i] == Cell::Empty;
                    assert(0 <= i < n - 1 && s[i] == Cell::Empty);
                }
            }
        }
    }
}

/// The search is optimal. On a position still in play its score is the
/// extremum over all moves of the score each leads to, the greatest for the
/// computer and the least for the human, and its cell is the lowest empty
/// one whose move reaches that score.
pub proof fn lemma_search_is_optimal(s: Seq<Cell>, player: Player)
    requires
        in_play(s),
    ensures
        0 <= choice(s, player) < 9,
        s[choice(s, player)] == Cell::Empty,
        value(s, player) == reply_value(s, player, choice(s, player)),
        forall|i: int|
            0 <= i < 9 && s[i] == Cell::Empty ==> !improves(
                player,
                #[trigger] reply_value(s, player, i),
                value(s, player),
            ),
        forall|i: int|
            0 <= i < choice(s, player) && s[i] == Cell::Empty ==> improves(
                player,
                value(s, player),
                #[trigger] reply_value(s, player, i),
            ),
{
    lemma_scan(s, player, 9);
    lemma_some_blank(s);
}

/// The computer's score is at least what any of its moves leads to, and the
/// human's at most: neither side has a better move than the one found.
pub proof fn lemma_no_better_move(s: Seq<Cell>, player: Player, index: int)
    requires
        in_play(s),
        0 <= index < 9,
        s[index] == Cell::Empty,
    ensures
        player == Player::Computer ==> reply_value(s, player, index) <= value(s, player),
        player == Player::Human ==> reply_value(s, player, index) >= value(s, player),
{
    lemma_search_is_optimal(s, player);
}

/// On a finished board the search has nothing to choose: it reports how the
/// game ended and names cell 0.
pub proof fn lemma_search_when_over(s: Seq<Cell>, player: Player)
    requires
        s.len() == CELLS,
        !in_play(s),
    ensures
        choice(s, player) == 0,
        wins(s, Player::Human) ==> value(s, player) == LOSS,
        !wins(s, Player::Human) && wins(s, Player::Computer) ==> value(s, player) == WIN,
        !wins(s, Player::Human) && !wins(s, Player::Computer) ==> value(s, player) == DRAW,
{
}

/// A grid with an empty cell has one below index 9.
pub proof fn lemma_some_blank(s: Seq<Cell>)
    requires
        s.len() == CELLS,
        blanks(s) > 0,
    ensures
        blank_below(s, 9),
{
    if s[0] != Cell::Empty && s[1] != Cell::Empty && s[2] != Cell::Empty && s[3] != Cell::Empty
        && s[4] != Cell::Empty && s[5] != Cell::Empty && s[6] != Cell::Empty && s[7]
        != Cell::Empty {
        assert(s[8] == Cell::Empty);
    }
}

} // verus!
