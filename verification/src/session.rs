//! A game in progress: the board, the cursor, and what each command does to
//! them. Reading keys and drawing are left to the caller.

use crate::board::{available_cells, empty_grid, is_winning, wins, Board, Cell, Player};
use crate::engine::{in_play, minimax, value};
use crate::unbeaten::{lemma_human_cannot_force_a_win, lemma_round_keeps_the_draw, round};
use vstd::prelude::*;

verus! {

/// What the player asks for with one key.
#[derive(Clone, Copy, PartialEq, Eq, Structural, Debug)]
pub enum Command {
    Quit,
    Restart,
    Left,
    Right,
    Up,
    Down,
    Place,
    Other,
}

/// What the caller does after a command.
#[derive(Clone, Copy, PartialEq, Eq, Structural, Debug)]
pub enum Action {
    Redraw,
    Exit,
}

/// Where the cursor stands after `command`. Left and right step through the
/// cells in reading order, right wrapping from the last cell to the first
/// and left turning back from the first cell to the second; up and down
/// move by a row and stop at the edge of the grid.
pub open spec fn next_cursor(cursor: int, command: Command) -> int {
    match command {
        Command::Left => if cursor == 0 {
            1
        } else {
            cursor - 1
        },
        Command::Right => if cursor == 8 {
            0
        } else {
            cursor + 1
        },
        Command::Up => if cursor > 2 {
            cursor - 3
        } else {
            cursor
        },
        Command::Down => if cursor < 6 {
            cursor + 3
        } else {
            cursor
        },
        _ => cursor,
    }
}

/// The grid after `command`: a restart clears it, placing plays one round
/// at the cursor, and nothing else touches it.
pub open spec fn next_grid(s: Seq<Cell>, cursor: int, command: Command) -> Seq<Cell> {
    match command {
        Command::Restart => empty_grid(),
        Command::Place => round(s, cursor),
        _ => s,
    }
}

/// The position is still open: nobody owns a line and a cell is free.
pub fn is_in_play(board: &Board) -> (open: bool)
    ensures
        open == in_play(board@),
{
    let cells = available_cells(board);
    !is_winning(board, Player::Human) && !is_winning(board, Player::Computer) && cells.len() != 0
}

/// Plays one round on `board`: the human's mark at `index`, then the
/// computer's answer if the game goes on.
pub fn play_round(board: &Board, index: u8) -> (next: Board)
    ensures
        next@ == round(board@, index as int),
{
    if index < 9 && board.cells[index as usize] == Cell::Empty && is_in_play(board) {
        let marked = board.place(index, Player::Human);
        if is_in_play(&marked) {
            let answer = minimax(&marked, Player::Computer);
            marked.place(answer.index, Player::Computer)
        } else {
            marked
        }
    } else {
        *board
    }
}

/// A game between the human, who moves first, and the computer.
pub struct Game {
    board: Board,
    cursor: u8,
}

impl Game {
    #[verifier::type_invariant]
    spec fn sound(self) -> bool {
        self.cursor < 9 && value(self.board@, Player::Human) >= 0
    }

    /// The cells of the board.
    pub closed spec fn grid(self) -> Seq<Cell> {
        self.board@
    }

    /// The cell the cursor is on.
    pub closed spec fn spot(self) -> int {
        self.cursor as int
    }

    /// A new game: an empty board with the cursor on the first cell.
    pub fn new() -> (game: Game)
        ensures
            game.grid() == empty_grid(),
            game.spot() == 0,
    {
        proof {
            lemma_human_cannot_force_a_win();
        }
        Game { board: Board::new(), cursor: 0 }
    }

    /// The board as it stands.
    pub fn board(&self) -> (board: Board)
        ensures
            board@ == self.grid(),
            !wins(board@, Player::Human),
    {
        proof {
            use_type_invariant(self);
        }
        self.board
    }

    /// The cell the cursor is on.
    pub fn cursor(&self) -> (cursor: u8)
        ensures
            cursor == self.spot(),
            cursor < 9,
    {
        proof {
            use_type_invariant(self);
        }
        self.cursor
    }

    /// Carries out one command and says what the caller is to do next.
    /// Quitting leaves the game as it is. In no game does the human come to
    /// own a line.
    pub fn step(&mut self, command: Command) -> (action: Action)
        ensures
            final(self).grid() == next_grid(old(self).grid(), old(self).spot(), command),
            final(self).spot() == next_cursor(old(self).spot(), command),
            action == if command == Command::Quit {
                Action::Exit
            } else {
                Action::Redraw
            },
            0 <= final(self).spot() < 9,
            !wins(final(self).grid(), Player::Human),
    {
        proof {
            use_type_invariant(&*self);
        }
        let board = self.board;
        let cursor = self.cursor;
        let (board, cursor) = match command {
            Command::Quit => {
                return Action::Exit;
            },
            Command::Restart => {
                proof {
                    lemma_human_cannot_force_a_win();
                }
                (Board::new(), cursor)
            },
            Command::Left => (
                board,
                if cursor == 0 {
                    1
                } else {
                    cursor - 1
                },
            ),
            Command::Right => (
                board,
                if cursor == 8 {
                    0
                } else {
                    cursor + 1
                },
            ),
            Command::Up => (
                board,
                if cursor > 2 {
                    cursor - 3
                } else {
                    cursor
                },
            ),
            Command::Down => (
                board,
                if cursor < 6 {
                    cursor + 3
                } else {
                    cursor
                },
            ),
            Command::Place => {
                proof {
                    lemma_round_keeps_the_draw(board@, cursor as int);
                }
                (play_round(&board, cursor), cursor)
            },
            Command::Other => (board, cursor),
        };
        *self = Game { board, cursor };
        Action::Redraw
    }
}

} // verus!
