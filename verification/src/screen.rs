//! The picture of a game as text for a terminal: the grid, the cursor and
//! the closing message, with the control sequences that place them.

use crate::board::{available_cells, blanks, is_winning, wins, Board, Cell, Player};
use vstd::prelude::*;

verus! {

/// The character for one decimal digit.
pub open spec fn digit(d: int) -> char {
    if d == 0 {
        '0'
    } else if d == 1 {
        '1'
    } else if d == 2 {
        '2'
    } else if d == 3 {
        '3'
    } else if d == 4 {
        '4'
    } else if d == 5 {
        '5'
    } else if d == 6 {
        '6'
    } else if d == 7 {
        '7'
    } else if d == 8 {
        '8'
    } else {
        '9'
    }
}

/// `n` in decimal, without leading zeros.
pub open spec fn decimal(n: nat) -> Seq<char>
    decreases n,
{
    if n < 10 {
        seq![digit(n as int)]
    } else {
        decimal(n / 10).push(digit((n % 10) as int))
    }
}

/// The control sequence that moves the cursor to column `x` of line `y`,
/// both counted from 1: escape, `[`, the line, `;`, the column, `H`.
pub open spec fn goto_text(x: u16, y: u16) -> Seq<char> {
    seq!['\u{1b}', '['] + decimal(y as nat) + seq![';'] + decimal(x as nat) + seq!['H']
}

/// The control sequence that clears the whole screen.
pub open spec fn clear_text() -> Seq<char> {
    seq!['\u{1b}', '[', '2', 'J']
}

/// `termion::cursor::Goto(x, y)` as text. Its `Display` writes escape, `[`,
/// the line, `;`, the column and `H`, the numbers in decimal; it refuses the
/// position (0, 0), which the precondition leaves out.
#[verifier::external_body]
fn goto(x: u16, y: u16) -> (text: String)
    requires
        x >= 1,
        y >= 1,
    ensures
        text@ == goto_text(x, y),
{
    format!("{}", termion::cursor::Goto(x, y))
}

/// `termion::clear::All` as text: its `Display` writes escape, `[`, `2`, `J`.
#[verifier::external_body]
fn clear_all() -> (text: String)
    ensures
        text@ == clear_text(),
{
    format!("{}", termion::clear::All)
}

/// `String::push` appends one character to the end of the string.
pub assume_specification[ String::push ](text: &mut String, ch: char)
    ensures
        final(text)@ == old(text)@.push(ch),
;

/// The character shown for a cell.
pub open spec fn glyph(cell: Cell) -> char {
    match cell {
        Cell::Human => 'O',
        Cell::Computer => 'X',
        Cell::Empty => ' ',
    }
}

/// The character shown for a cell: `O` for the human, `X` for the computer
/// and a space for an empty cell.
pub fn cell_format(cell: Cell) -> (shown: char)
    ensures
        shown == glyph(cell),
{
    match cell {
        Cell::Human => 'O',
        Cell::Computer => 'X',
        Cell::Empty => ' ',
    }
}

/// Row `row` of the grid, drawn on line `row + 4` of the screen.
pub open spec fn row_text(s: Seq<Cell>, row: int) -> Seq<char> {
    goto_text(1, (row + 4) as u16) + "║ "@ + seq![glyph(s[3 * row])] + " | "@ + seq![
        glyph(s[3 * row + 1]),
    ] + " | "@ + seq![glyph(s[3 * row + 2])] + " ║"@ + "\n"@
}

/// The game is over for the human: the computer owns a line or no cell is
/// left.
pub open spec fn is_lost(s: Seq<Cell>) -> bool {
    wins(s, Player::Computer) || blanks(s) == 0
}

/// The message under the grid once the game is over, and nothing before.
pub open spec fn closing_text(s: Seq<Cell>) -> Seq<char> {
    if is_lost(s) {
        goto_text(1, 8) + "You have lost :( Try again? Press r!\n"@ + "\n"@
    } else {
        Seq::empty()
    }
}

/// The top of the picture: the screen cleared, two lines of help and the
/// upper edge of the frame.
pub open spec fn heading_text() -> Seq<char> {
    clear_text() + goto_text(1, 1)
        + "q to exit. Use the arrow keys to navagate. Press space to place."@ + "\n"@
        + goto_text(1, 2) + "You will either tie or lose :)"@ + "\n"@ + goto_text(1, 3)
        + "╔═══════════╗"@ + "\n"@
}

/// The lower edge of the frame, and the cursor left beside cell `cursor`.
pub open spec fn footing_text(cursor: int) -> Seq<char> {
    goto_text(1, 7) + "╚═══════════╝"@ + "\n"@ + goto_text(
        ((cursor % 3) * 4 + 2) as u16,
        (cursor / 3 + 3) as u16,
    ) + "\n"@
}

/// The whole picture: the heading, the three rows of the grid, the footing
/// with the cursor, and the closing message.
pub open spec fn frame(s: Seq<Cell>, cursor: int) -> Seq<char> {
    heading_text() + row_text(s, 0) + row_text(s, 1) + row_text(s, 2) + footing_text(cursor)
        + closing_text(s)
}

fn draw_heading() -> (text: String)
    ensures
        text@ == heading_text(),
{
    let mut text = clear_all();
    text.append(goto(1, 1).as_str());
    text.append("q to exit. Use the arrow keys to navagate. Press space to place.");
    text.append("\n");
    text.append(goto(1, 2).as_str());
    text.append("You will either tie or lose :)");
    text.append("\n");
    text.append(goto(1, 3).as_str());
    text.append("╔═══════════╗");
    text.append("\n");
    text
}

fn draw_footing(cursor: u8) -> (text: String)
    requires
        cursor < 9,
    ensures
        text@ == footing_text(cursor as int),
{
    let column = (cursor as u16 % 3) * 4 + 2;
    let line = cursor as u16 / 3 + 3;
    let mut text = goto(1, 7);
    text.append("╚═══════════╝");
    text.append("\n");
    text.append(goto(column, line).as_str());
    text.append("\n");
    text
}

fn draw_row(board: &Board, row: u8) -> (text: String)
    requires
        row < 3,
    ensures
        text@ == row_text(board@, row as int),
{
    let first = (3 * row) as usize;
    let mut text = goto(1, (row + 4) as u16);
    text.append("║ ");
    text.push(cell_format(board.cells[first]));
    text.append(" | ");
    text.push(cell_format(board.cells[first + 1]));
    text.append(" | ");
    text.push(cell_format(board.cells[first + 2]));
    text.append(" ║");
    text.append("\n");
    text
}

fn draw_closing(board: &Board) -> (text: String)
    ensures
        text@ == closing_text(board@),
{
    let cells = available_cells(board);
    if is_winning(board, Player::Computer) || cells.len() == 0 {
        let mut text = goto(1, 8);
        text.append("You have lost :( Try again? Press r!\n");
        text.append("\n");
        text
    } else {
        String::new()
    }
}

/// Draws the game: the text to write to the terminal for `board` with the
/// cursor on cell `cursor`.
pub fn draw_state(board: &Board, cursor: u8) -> (text: String)
    requires
        cursor < 9,
    ensures
        text@ == frame(board@, cursor as int),
{
    let mut text = draw_heading();
    text.append(draw_row(board, 0).as_str());
    text.append(draw_row(board, 1).as_str());
    text.append(draw_row(board, 2).as_str());
    text.append(draw_footing(cursor).as_str());
    text.append(draw_closing(board).as_str());
    text
}

} // verus!
