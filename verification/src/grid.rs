//! Positions in a form the solver can explore: a grid with nine named
//! cells, and what it means for the computer to hold a position.

use crate::board::{blanks, empty_grid, line_full, placed, wins, Cell, Player, CELLS};
use crate::engine::{choice, in_play, reply_value, value};
use crate::optimal::{lemma_placed, lemma_search_is_optimal};
use vstd::prelude::*;

verus! {

/// A grid with one field for each cell, for proofs only. A position written
/// in this form has nothing to look up: the solver reads each cell off the
/// value, which is what lets it play a game through to the end.
pub ghost struct Grid {
    pub c0: Cell,
    pub c1: Cell,
    pub c2: Cell,
    pub c3: Cell,
    pub c4: Cell,
    pub c5: Cell,
    pub c6: Cell,
    pub c7: Cell,
    pub c8: Cell,
}

impl Grid {
    /// The nine cells of `s`.
    pub open spec fn of(s: Seq<Cell>) -> Grid {
        Grid {
            c0: s[0],
            c1: s[1],
            c2: s[2],
            c3: s[3],
            c4: s[4],
            c5: s[5],
            c6: s[6],
            c7: s[7],
            c8: s[8],
        }
    }

    /// The grid with no mark on it.
    pub open spec fn blank() -> Grid {
        Grid::of(empty_grid())
    }

    /// The cell at `index`.
    pub open spec fn at(self, index: int) -> Cell {
        if index == 0 {
            self.c0
        } else if index == 1 {
            self.c1
        } else if index == 2 {
            self.c2
        } else if index == 3 {
            self.c3
        } else if index == 4 {
            self.c4
        } else if index == 5 {
            self.c5
        } else if index == 6 {
            self.c6
        } else if index == 7 {
            self.c7
        } else {
            self.c8
        }
    }

    /// The grid with `mark` in the cell at `index`.
    pub open spec fn put(self, index: int, mark: Cell) -> Grid {
        if index == 0 {
            Grid { c0: mark, ..self }
        } else if index == 1 {
            Grid { c1: mark, ..self }
        } else if index == 2 {
            Grid { c2: mark, ..self }
        } else if index == 3 {
            Grid { c3: mark, ..self }
        } else if index == 4 {
            Grid { c4: mark, ..self }
        } else if index == 5 {
            Grid { c5: mark, ..self }
        } else if index == 6 {
            Grid { c6: mark, ..self }
        } else if index == 7 {
            Grid { c7: mark, ..self }
        } else {
            Grid { c8: mark, ..self }
        }
    }

    /// `mark` fills one of the eight lines.
    pub open spec fn has_line(self, mark: Cell) -> bool {
        ||| self.c0 == mark && self.c1 == mark && self.c2 == mark
        ||| self.c3 == mark && self.c4 == mark && self.c5 == mark
        ||| self.c6 == mark && self.c7 == mark && self.c8 == mark
        ||| self.c0 == mark && self.c3 == mark && self.c6 == mark
        ||| self.c1 == mark && self.c4 == mark && self.c7 == mark
        ||| self.c2 == mark && self.c5 == mark && self.c8 == mark
        ||| self.c0 == mark && self.c4 == mark && self.c8 == mark
        ||| self.c2 == mark && self.c4 == mark && self.c6 == mark
    }

    /// No cell is empty.
    pub open spec fn full(self) -> bool {
        &&& self.c0 != Cell::Empty
        &&& self.c1 != Cell::Empty
        &&& self.c2 != Cell::Empty
        &&& self.c3 != Cell::Empty
        &&& self.c4 != Cell::Empty
        &&& self.c5 != Cell::Empty
        &&& self.c6 != Cell::Empty
        &&& self.c7 != Cell::Empty
        &&& self.c8 != Cell::Empty
    }
}

/// The computer can keep the human from winning. With `mover` to play on
/// `g`, the human owns no line, and unless the game is over each move of
/// the human, and at least one move of the computer, leads to a position of
/// which the same is true with one ply less. A position that takes more
/// than `plies` moves to settle does not count as held.
pub open spec fn holds(g: Grid, mover: Player, plies: nat) -> bool
    decreases plies,
{
    if g.has_line(Cell::Human) {
        false
    } else if g.has_line(Cell::Computer) {
        true
    } else if g.full() {
        true
    } else if plies == 0 {
        false
    } else {
        match mover {
            Player::Human => {
                &&& g.c0 == Cell::Empty ==> holds(
                    Grid { c0: Cell::Human, ..g },
                    Player::Computer,
                    (plies - 1) as nat,
                )
                &&& g.c1 == Cell::Empty ==> holds(
                    Grid { c1: Cell::Human, ..g },
                    Player::Computer,
                    (plies - 1) as nat,
                )
                &&& g.c2 == Cell::Empty ==> holds(
                    Grid { c2: Cell::Human, ..g },
                    Player::Computer,
                    (plies - 1) as nat,
                )
                &&& g.c3 == Cell::Empty ==> holds(
                    Grid { c3: Cell::Human, ..g },
                    Player::Computer,
                    (plies - 1) as nat,
                )
                &&& g.c4 == Cell::Empty ==> holds(
                    Grid { c4: Cell::Human, ..g },
                    Player::Computer,
                    (plies - 1) as nat,
                )
                &&& g.c5 == Cell::Empty ==> holds(
                    Grid { c5: Cell::Human, ..g },
                    Player::Computer,
                    (plies - 1) as nat,
                )
                &&& g.c6 == Cell::Empty ==> holds(
                    Grid { c6: Cell::Human, ..g },
                    Player::Computer,
                    (plies - 1) as nat,
                )
                &&& g.c7 == Cell::Empty ==> holds(
                    Grid { c7: Cell::Human, ..g },
                    Player::Computer,
                    (plies - 1) as nat,
                )
                &&& g.c8 == Cell::Empty ==> holds(
                    Grid { c8: Cell::Human, ..g },
                    Player::Computer,
                    (plies - 1) as nat,
                )
            },
            Player::Computer => {
                ||| g.c0 == Cell::Empty && holds(
                    Grid { c0: Cell::Computer, ..g },
                    Player::Human,
                    (plies - 1) as nat,
                )
                ||| g.c1 == Cell::Empty && holds(
                    Grid { c1: Cell::Computer, ..g },
                    Player::Human,
                    (plies - 1) as nat,
                )
                ||| g.c2 == Cell::Empty && holds(
                    Grid { c2: Cell::Computer, ..g },
                    Player::Human,
                    (plies - 1) as nat,
                )
                ||| g.c3 == Cell::Empty && holds(
                    Grid { c3: Cell::Computer, ..g },
                    Player::Human,
                    (plies - 1) as nat,
                )
                ||| g.c4 == Cell::Empty && holds(
                    Grid { c4: Cell::Computer, ..g },
                    Player::Human,
                    (plies - 1) as nat,
                )
                ||| g.c5 == Cell::Empty && holds(
                    Grid { c5: Cell::Computer, ..g },
                    Player::Human,
                    (plies - 1) as nat,
                )
                ||| g.c6 == Cell::Empty && holds(
                    Grid { c6: Cell::Computer, ..g },
                    Player::Human,
                    (plies - 1) as nat,
                )
                ||| g.c7 == Cell::Empty && holds(
                    Grid { c7: Cell::Computer, ..g },
                    Player::Human,
                    (plies - 1) as nat,
                )
                ||| g.c8 == Cell::Empty && holds(
                    Grid { c8: Cell::Computer, ..g },
                    Player::Human,
                    (plies - 1) as nat,
                )
            },
        }
    }
}

/// `mover` may mark the cell at `index`, and the computer holds the
/// position that results.
pub open spec fn holds_after(g: Grid, mover: Player, index: int, plies: nat) -> bool {
    g.at(index) == Cell::Empty && holds(
        g.put(index, mover.mark()),
        mover.opponent(),
        (plies - 1) as nat,
    )
}

/// Three rows of three cells.
#[verifier::inline]
pub open spec fn rows(
    top: (Cell, Cell, Cell),
    middle: (Cell, Cell, Cell),
    bottom: (Cell, Cell, Cell),
) -> Grid {
    Grid {
        c0: top.0,
        c1: top.1,
        c2: top.2,
        c3: middle.0,
        c4: middle.1,
        c5: middle.2,
        c6: bottom.0,
        c7: bottom.1,
        c8: bottom.2,
    }
}

/// What `holds` says of a position still in play, move by move: each human
/// move, and at least one computer move, leads to a position that the
/// computer holds.
pub proof fn lemma_holds_unfold(g: Grid, mover: Player, plies: nat)
    requires
        holds(g, mover, plies),
        !g.has_line(Cell::Computer),
        !g.full(),
    ensures
        plies > 0,
        mover == Player::Human ==> forall|i: int|
            0 <= i < 9 && g.at(i) == Cell::Empty ==> #[trigger] holds_after(g, mover, i, plies),
        mover == Player::Computer ==> exists|i: int|
            0 <= i < 9 && #[trigger] holds_after(g, mover, i, plies),
{
    if mover == Player::Computer {
        assert(holds_after(g, mover, 0, plies) || holds_after(g, mover, 1, plies) || holds_after(
            g,
            mover,
            2,
            plies,
        ) || holds_after(g, mover, 3, plies) || holds_after(g, mover, 4, plies) || holds_after(
            g,
            mover,
            5,
            plies,
        ) || holds_after(g, mover, 6, plies) || holds_after(g, mover, 7, plies) || holds_after(
            g,
            mover,
            8,
            plies,
        ));
    }
}

/// One computer move that leads to a position the computer holds is enough
/// for it to hold the position before.
pub proof fn lemma_holds_fold(g: Grid, mover: Player, plies: nat, index: int)
    requires
        mover == Player::Computer,
        !g.has_line(Cell::Human),
        plies > 0,
        0 <= index < 9,
        holds_after(g, mover, index, plies),
    ensures
        holds(g, mover, plies),
{
}

/// If the computer holds after every move the human can make, it holds
/// before the move.
pub proof fn lemma_holds_fold_all(g: Grid, plies: nat)
    requires
        !g.has_line(Cell::Human),
        plies > 0,
        forall|i: int|
            0 <= i < 9 && g.at(i) == Cell::Empty ==> #[trigger] holds_after(
                g,
                Player::Human,
                i,
                plies,
            ),
    ensures
        holds(g, Player::Human, plies),
{
    assert(g.at(0) == Cell::Empty ==> holds_after(g, Player::Human, 0, plies));
    assert(g.at(1) == Cell::Empty ==> holds_after(g, Player::Human, 1, plies));
    assert(g.at(2) == Cell::Empty ==> holds_after(g, Player::Human, 2, plies));
    assert(g.at(3) == Cell::Empty ==> holds_after(g, Player::Human, 3, plies));
    assert(g.at(4) == Cell::Empty ==> holds_after(g, Player::Human, 4, plies));
    assert(g.at(5) == Cell::Empty ==> holds_after(g, Player::Human, 5, plies));
    assert(g.at(6) == Cell::Empty ==> holds_after(g, Player::Human, 6, plies));
    assert(g.at(7) == Cell::Empty ==> holds_after(g, Player::Human, 7, plies));
    assert(g.at(8) == Cell::Empty ==> holds_after(g, Player::Human, 8, plies));
}

/// The nine-field form of a grid agrees with the sequence of its cells on
/// who owns a line, on whether a cell is free, and on what a move does.
pub proof fn lemma_grid_of(s: Seq<Cell>)
    requires
        s.len() == CELLS,
    ensures
        Grid::of(s).has_line(Cell::Human) == wins(s, Player::Human),
        Grid::of(s).has_line(Cell::Computer) == wins(s, Player::Computer),
        Grid::of(s).full() == (blanks(s) == 0),
        forall|i: int| 0 <= i < 9 ==> #[trigger] Grid::of(s).at(i) == s[i],
        forall|i: int, player: Player|
            0 <= i < 9 ==> Grid::of(#[trigger] placed(s, i, player)) == Grid::of(s).put(
                i,
                player.mark(),
            ),
{
    let g = Grid::of(s);
    assert forall|player: Player| g.has_line(player.mark()) == #[trigger] wins(s, player) by {
        let mark = player.mark();
        if g.has_line(mark) {
            assert(line_full(s, 0, mark) || line_full(s, 1, mark) || line_full(s, 2, mark)
                || line_full(s, 3, mark) || line_full(s, 4, mark) || line_full(s, 5, mark)
                || line_full(s, 6, mark) || line_full(s, 7, mark));
        }
    }
    assert(g.has_line(Player::Human.mark()) == wins(s, Player::Human));
    assert(g.has_line(Player::Computer.mark()) == wins(s, Player::Computer));
}

/// A position that the computer holds has a score of at least a draw.
pub proof fn lemma_holds_is_sound(s: Seq<Cell>, mover: Player, plies: nat)
    requires
        s.len() == CELLS,
        holds(Grid::of(s), mover, plies),
    ensures
        value(s, mover) >= 0,
    decreases plies,
{
    let g = Grid::of(s);
    lemma_grid_of(s);
    if in_play(s) {
        lemma_holds_unfold(g, mover, plies);
        lemma_search_is_optimal(s, mover);
        let index = match mover {
            Player::Human => choice(s, mover),
            Player::Computer => choose|i: int|
                0 <= i < 9 && #[trigger] holds_after(g, mover, i, plies),
        };
        assert(holds_after(g, mover, index, plies));
        lemma_placed(s, index, mover);
        lemma_holds_is_sound(placed(s, index, mover), mover.opponent(), (plies - 1) as nat);
        assert(reply_value(s, mover, index) >= 0);
    }
}

} // verus!
