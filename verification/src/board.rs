//! The 3x3 grid: its cells, the eight winning lines and the empty cells.

use vstd::prelude::*;

verus! {

/// What one square of the grid holds.
#[derive(Clone, Copy, PartialEq, Eq, Structural, Debug)]
pub enum Cell {
    Empty,
    Human,
    Computer,
}

/// One of the two sides.
#[derive(Clone, Copy, PartialEq, Eq, Structural, Debug)]
pub enum Player {
    Human,
    Computer,
}

impl Player {
    /// The mark this player leaves in a cell.
    pub open spec fn spec_mark(self) -> Cell {
        match self {
            Player::Human => Cell::Human,
            Player::Computer => Cell::Computer,
        }
    }

    /// The other player.
    pub open spec fn spec_opponent(self) -> Player {
        match self {
            Player::Human => Player::Computer,
            Player::Computer => Player::Human,
        }
    }

    #[verifier::when_used_as_spec(spec_mark)]
    pub fn mark(self) -> (cell: Cell)
        ensures
            cell == self.spec_mark(),
    {
        match self {
            Player::Human => Cell::Human,
            Player::Computer => Cell::Computer,
        }
    }

    #[verifier::when_used_as_spec(spec_opponent)]
    pub fn opponent(self) -> (other: Player)
        ensures
            other == self.spec_opponent(),
    {
        match self {
            Player::Human => Player::Computer,
            Player::Computer => Player::Human,
        }
    }
}

/// Number of cells on the grid.
pub const CELLS: usize = 9;

/// The eight winning lines as triples of cells: the three rows, the three
/// columns and the two diagonals.
pub const LINES: [(usize, usize, usize); 8] = [
    (0, 1, 2),
    (3, 4, 5),
    (6, 7, 8),
    (0, 3, 6),
    (1, 4, 7),
    (2, 5, 8),
    (0, 4, 8),
    (2, 4, 6),
];

/// All three cells of line `k` carry `mark`.
pub open spec fn line_full(s: Seq<Cell>, k: int, mark: Cell) -> bool {
    let (a, b, c) = LINES@[k];
    s[a as int] == mark && s[b as int] == mark && s[c as int] == mark
}

/// `player` owns at least one complete line.
pub open spec fn wins(s: Seq<Cell>, player: Player) -> bool {
    exists|k: int| 0 <= k < 8 && #[trigger] line_full(s, k, player.mark())
}

/// 1 where cell `i` is empty, 0 where it is taken.
pub open spec fn blank_at(s: Seq<Cell>, i: int) -> nat {
    if s[i] == Cell::Empty {
        1
    } else {
        0
    }
}

/// How many of the nine cells are empty.
pub open spec fn blanks(s: Seq<Cell>) -> nat {
    blank_at(s, 0) + blank_at(s, 1) + blank_at(s, 2) + blank_at(s, 3) + blank_at(s, 4) + blank_at(
        s,
        5,
    ) + blank_at(s, 6) + blank_at(s, 7) + blank_at(s, 8)
}

/// The grid with no mark on it.
pub open spec fn empty_grid() -> Seq<Cell> {
    Seq::new(9, |i: int| Cell::Empty)
}

/// The grid `s` after `player` has marked cell `index`.
pub open spec fn placed(s: Seq<Cell>, index: int, player: Player) -> Seq<Cell> {
    s.update(index, player.mark())
}

/// The indices below `n` of the empty cells, lowest first.
pub open spec fn blanks_below(s: Seq<Cell>, n: int) -> Seq<u8>
    decreases n,
{
    if n <= 0 {
        Seq::empty()
    } else if s[n - 1] == Cell::Empty {
        blanks_below(s, n - 1).push((n - 1) as u8)
    } else {
        blanks_below(s, n - 1)
    }
}

/// The indices of all empty cells, lowest first.
pub open spec fn available(s: Seq<Cell>) -> Seq<u8> {
    blanks_below(s, 9)
}

/// `blanks_below(s, n)` is strictly ascending, stays below `n`, and holds
/// exactly the indices of the empty cells below `n`.
pub proof fn lemma_blanks_below(s: Seq<Cell>, n: int)
    requires
        0 <= n <= 9,
    ensures
        blanks_below(s, n).len() <= n,
        forall|i: int| 0 <= i < blanks_below(s, n).len() ==> #[trigger] blanks_below(s, n)[i] < n,
        forall|i: int, j: int|
            0 <= i < j < blanks_below(s, n).len() ==> blanks_below(s, n)[i] < blanks_below(s, n)[j],
        forall|i: int|
            0 <= i < blanks_below(s, n).len() ==> s[#[trigger] blanks_below(s, n)[i] as int]
                == Cell::Empty,
        forall|c: int|
            0 <= c < n && s[c] == Cell::Empty ==> exists|i: int|
                0 <= i < blanks_below(s, n).len() && #[trigger] blanks_below(s, n)[i] == c,
    decreases n,
{
    if n > 0 {
        lemma_blanks_below(s, n - 1);
        let prev = blanks_below(s, n - 1);
        let cur = blanks_below(s, n);
        if s[n - 1] == Cell::Empty {
            assert(cur[cur.len() - 1] == n - 1);
            assert forall|c: int| 0 <= c < n && s[c] == Cell::Empty implies exists|i: int|
                0 <= i < cur.len() && #[trigger] cur[i] == c by {
                if c < n - 1 {
                    let i = choose|i: int| 0 <= i < prev.len() && #[trigger] prev[i] == c;
                    assert(cur[i] == c);
                } else {
                    assert(cur[cur.len() - 1] == c);
                }
            }
        } else {
            assert(cur == prev);
        }
    }
}

/// A line whose three cells all carry the player's mark wins, whichever of
/// the eight it is.
pub proof fn lemma_full_line_wins(s: Seq<Cell>, k: int, player: Player)
    requires
        0 <= k < 8,
        line_full(s, k, player.mark()),
    ensures
        wins(s, player),
{
}

/// Without a line that is all the player's there is no win: a line with an
/// empty cell or with a mark of the other side does not count.
pub proof fn lemma_broken_lines_do_not_win(s: Seq<Cell>, player: Player)
    requires
        forall|k: int|
            0 <= k < 8 ==> s[LINES@[k].0 as int] != player.mark() || s[LINES@[k].1 as int]
                != player.mark() || s[LINES@[k].2 as int] != player.mark(),
    ensures
        !wins(s, player),
{
    assert forall|k: int| 0 <= k < 8 implies !#[trigger] line_full(s, k, player.mark()) by {
        assert(s[LINES@[k].0 as int] != player.mark() || s[LINES@[k].1 as int] != player.mark()
            || s[LINES@[k].2 as int] != player.mark());
    }
}

/// There are as many available cells as empty ones.
pub proof fn lemma_available_count(s: Seq<Cell>)
    ensures
        available(s).len() == blanks(s),
{
    reveal_with_fuel(blanks_below, 10);
}

/// On the empty grid every cell is available, in order from 0 to 8.
pub proof fn lemma_all_available_at_start()
    ensures
        available(empty_grid()) == seq![0u8, 1u8, 2u8, 3u8, 4u8, 5u8, 6u8, 7u8, 8u8],
        blanks(empty_grid()) == 9,
{
    reveal_with_fuel(blanks_below, 10);
    assert(available(empty_grid()) =~= seq![0u8, 1u8, 2u8, 3u8, 4u8, 5u8, 6u8, 7u8, 8u8]);
}

/// On a grid without an empty cell nothing is available.
pub proof fn lemma_none_available_when_full(s: Seq<Cell>)
    requires
        s.len() == CELLS,
        blanks(s) == 0,
    ensures
        available(s) == Seq::<u8>::empty(),
{
    reveal_with_fuel(blanks_below, 10);
}

/// A 3x3 grid in row-major order: cell `3 * row + col`.
#[derive(Clone, Copy, PartialEq, Eq, Debug)]
pub struct Board {
    pub cells: [Cell; 9],
}

impl View for Board {
    type V = Seq<Cell>;

    open spec fn view(&self) -> Seq<Cell> {
        self.cells@
    }
}

impl Board {
    /// The board at the start of a game: nine empty cells.
    pub fn new() -> (board: Board)
        ensures
            board@ == empty_grid(),
    {
        let board = Board { cells: [Cell::Empty; 9] };
        assert(board@ =~= empty_grid());
        board
    }

    /// A copy of the board on which `player` has marked the empty cell
    /// `index`; the board itself is left as it was.
    pub fn place(&self, index: u8, player: Player) -> (next: Board)
        requires
            index < CELLS,
            self@[index as int] == Cell::Empty,
        ensures
            next@ == placed(self@, index as int, player),
            blanks(next@) == blanks(self@) - 1,
    {
        let mut cells = self.cells;
        cells[index as usize] = player.mark();
        let next = Board { cells };
        assert(next@ =~= placed(self@, index as int, player));
        next
    }
}

/// Whether `player` has completed one of the eight lines.
pub fn is_winning(board: &Board, player: Player) -> (won: bool)
    ensures
        won == wins(board@, player),
{
    let mark = player.mark();
    let mut k: usize = 0;
    while k < 8
        invariant
            k <= 8,
            mark == player.mark(),
            forall|j: int| 0 <= j < k ==> !#[trigger] line_full(board@, j, mark),
        decreases 8 - k,
    {
        let (a, b, c) = LINES[k];
        if board.cells[a] == mark && board.cells[b] == mark && board.cells[c] == mark {
            assert(line_full(board@, k as int, mark));
            return true;
        }
        k += 1;
    }
    false
}

/// The indices of the empty cells, in ascending order.
pub fn available_cells(board: &Board) -> (cells: Vec<u8>)
    ensures
        cells@ == available(board@),
        cells@.len() == blanks(board@),
        forall|i: int, j: int| 0 <= i < j < cells@.len() ==> cells@[i] < cells@[j],
        forall|i: int|
            0 <= i < cells@.len() ==> cells@[i] < CELLS && board@[cells@[i] as int] == Cell::Empty,
        forall|c: int|
            0 <= c < CELLS && board@[c] == Cell::Empty ==> exists|i: int|
                0 <= i < cells@.len() && #[trigger] cells@[i] == c,
{
    let mut cells: Vec<u8> = Vec::new();
    let mut x: u8 = 0;
    while x < 9
        invariant
            x <= 9,
            cells@ == blanks_below(board@, x as int),
        decreases 9 - x,
    {
        if board.cells[x as usize] == Cell::Empty {
            cells.push(x);
        }
        x += 1;
    }
    proof {
        lemma_blanks_below(board@, 9);
        lemma_available_count(board@);
    }
    cells
}

} // verus!
