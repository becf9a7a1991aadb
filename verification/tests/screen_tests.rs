use tictactoe::board::{Board, Cell};
use tictactoe::screen::{cell_format, draw_state};

const HELP: &str = "q to exit. Use the arrow keys to navagate. Press space to place.";

fn picture_of(codes: [u8; 9]) -> Board {
    let mut cells = [Cell::Empty; 9];
    for i in 0..9 {
        cells[i] = match codes[i] {
            1 => Cell::Human,
            2 => Cell::Computer,
            _ => Cell::Empty,
        };
    }
    Board { cells }
}

fn expected(rows: [&str; 3], cursor: &str, closing: &str) -> String {
    format!(
        "\x1b[2J\x1b[1;1H{}\n\x1b[2;1HYou will either tie or lose :)\n\x1b[3;1H╔═══════════╗\n\x1b[4;1H{}\n\x1b[5;1H{}\n\x1b[6;1H{}\n\x1b[7;1H╚═══════════╝\n{}\n{}",
        HELP, rows[0], rows[1], rows[2], cursor, closing
    )
}

#[test]
fn cell_format_shows_each_cell() {
    assert_eq!(cell_format(Cell::Human), 'O');
    assert_eq!(cell_format(Cell::Computer), 'X');
    assert_eq!(cell_format(Cell::Empty), ' ');
}

#[test]
fn draws_the_empty_board() {
    let text = draw_state(&Board::new(), 0);
    assert_eq!(
        text,
        expected(
            ["║   |   |   ║", "║   |   |   ║", "║   |   |   ║"],
            "\x1b[3;2H",
            ""
        )
    );
}

#[test]
fn draws_the_marks_in_their_cells() {
    let text = draw_state(&picture_of([1, 2, 0, 0, 2, 0, 0, 0, 1]), 4);
    assert_eq!(
        text,
        expected(
            ["║ O | X |   ║", "║   | X |   ║", "║   |   | O ║"],
            "\x1b[4;6H",
            ""
        )
    );
}

#[test]
fn puts_the_cursor_beside_each_cell() {
    let places = [
        "\x1b[3;2H",
        "\x1b[3;6H",
        "\x1b[3;10H",
        "\x1b[4;2H",
        "\x1b[4;6H",
        "\x1b[4;10H",
        "\x1b[5;2H",
        "\x1b[5;6H",
        "\x1b[5;10H",
    ];
    for cursor in 0..9u8 {
        let text = draw_state(&Board::new(), cursor);
        assert_eq!(
            text,
            expected(
                ["║   |   |   ║", "║   |   |   ║", "║   |   |   ║"],
                places[cursor as usize],
                ""
            )
        );
    }
}

#[test]
fn says_so_when_the_computer_has_won() {
    let text = draw_state(&picture_of([2, 2, 2, 1, 1, 0, 0, 0, 1]), 3);
    assert_eq!(
        text,
        expected(
            ["║ X | X | X ║", "║ O | O |   ║", "║   |   | O ║"],
            "\x1b[4;2H",
            "\x1b[8;1HYou have lost :( Try again? Press r!\n\n"
        )
    );
}

#[test]
fn says_so_when_the_board_is_full() {
    let text = draw_state(&picture_of([1, 1, 2, 2, 2, 1, 1, 2, 1]), 8);
    assert_eq!(
        text,
        expected(
            ["║ O | O | X ║", "║ X | X | O ║", "║ O | X | O ║"],
            "\x1b[5;10H",
            "\x1b[8;1HYou have lost :( Try again? Press r!\n\n"
        )
    );
}

#[test]
fn says_nothing_when_only_the_human_has_a_line() {
    let text = draw_state(&picture_of([1, 1, 1, 2, 2, 0, 0, 0, 0]), 0);
    assert!(!text.contains("You have lost"));
    assert!(text.ends_with("\x1b[3;2H\n"));
}

#[test]
fn control_sequences_are_those_of_termion() {
    let text = draw_state(&Board::new(), 7);
    let start = format!(
        "{}{}{}\n{}",
        termion::clear::All,
        termion::cursor::Goto(1, 1),
        HELP,
        termion::cursor::Goto(1, 2)
    );
    assert!(text.starts_with(&start));
    let end = format!("{}\n", termion::cursor::Goto(6, 5));
    assert!(text.ends_with(&end));
}
