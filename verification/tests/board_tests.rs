use tictactoe::board::{available_cells, is_winning, Board, Cell, Player, CELLS, LINES};

const EIGHT_LINES: [[usize; 3]; 8] = [
    [0, 1, 2],
    [3, 4, 5],
    [6, 7, 8],
    [0, 3, 6],
    [1, 4, 7],
    [2, 5, 8],
    [0, 4, 8],
    [2, 4, 6],
];

fn board_of(codes: [u8; 9]) -> Board {
    let mut cells = [Cell::Empty; 9];
    for i in 0..9 {
        cells[i] = match codes[i] {
            1 => Cell::Human,
            2 => Cell::Computer,
            _ => Cell::Empty,
        };
    }
    Board { cells }
}

#[test]
fn line_table_holds_rows_columns_and_diagonals() {
    assert_eq!(CELLS, 9);
    assert_eq!(LINES.len(), 8);
    for (line, expected) in LINES.iter().zip(EIGHT_LINES.iter()) {
        assert_eq!([line.0, line.1, line.2], *expected);
    }
}

#[test]
fn new_board_is_empty() {
    let board = Board::new();
    assert_eq!(board.cells, [Cell::Empty; 9]);
    assert_eq!(board, board_of([0; 9]));
}

#[test]
fn marks_and_opponents() {
    assert_eq!(Player::Human.mark(), Cell::Human);
    assert_eq!(Player::Computer.mark(), Cell::Computer);
    assert_eq!(Player::Human.opponent(), Player::Computer);
    assert_eq!(Player::Computer.opponent(), Player::Human);
}

#[test]
fn place_marks_one_cell_on_a_copy() {
    let board = board_of([1, 0, 0, 0, 2, 0, 0, 0, 0]);
    let next = board.place(8, Player::Human);
    assert_eq!(next, board_of([1, 0, 0, 0, 2, 0, 0, 0, 1]));
    assert_eq!(board, board_of([1, 0, 0, 0, 2, 0, 0, 0, 0]));
    let after = next.place(1, Player::Computer);
    assert_eq!(after, board_of([1, 2, 0, 0, 2, 0, 0, 0, 1]));
}

#[test]
fn every_full_line_wins_for_its_owner() {
    for line in EIGHT_LINES.iter() {
        for (player, other) in [
            (Player::Human, Player::Computer),
            (Player::Computer, Player::Human),
        ] {
            let mut board = Board::new();
            for &cell in line.iter() {
                board = board.place(cell as u8, player);
            }
            assert!(is_winning(&board, player), "line {:?}", line);
            assert!(!is_winning(&board, other), "line {:?}", line);
        }
    }
}

#[test]
fn line_with_an_empty_cell_does_not_win() {
    for line in EIGHT_LINES.iter() {
        for skip in 0..3 {
            let mut board = Board::new();
            for (at, &cell) in line.iter().enumerate() {
                if at != skip {
                    board = board.place(cell as u8, Player::Computer);
                }
            }
            assert!(!is_winning(&board, Player::Computer), "line {:?}", line);
            assert!(!is_winning(&board, Player::Human), "line {:?}", line);
        }
    }
}

#[test]
fn line_with_mixed_marks_does_not_win() {
    for line in EIGHT_LINES.iter() {
        for odd in 0..3 {
            let mut board = Board::new();
            for (at, &cell) in line.iter().enumerate() {
                let player = if at == odd {
                    Player::Human
                } else {
                    Player::Computer
                };
                board = board.place(cell as u8, player);
            }
            assert!(!is_winning(&board, Player::Computer), "line {:?}", line);
            assert!(!is_winning(&board, Player::Human), "line {:?}", line);
        }
    }
}

#[test]
fn empty_board_has_no_winner() {
    let board = Board::new();
    assert!(!is_winning(&board, Player::Human));
    assert!(!is_winning(&board, Player::Computer));
}

#[test]
fn drawn_board_has_no_winner() {
    let board = board_of([1, 2, 1, 2, 2, 1, 1, 1, 2]);
    assert!(!is_winning(&board, Player::Human));
    assert!(!is_winning(&board, Player::Computer));
}

#[test]
fn both_diagonals_are_lines() {
    assert!(is_winning(
        &board_of([1, 2, 0, 2, 1, 0, 0, 0, 1]),
        Player::Human
    ));
    assert!(is_winning(
        &board_of([1, 1, 2, 0, 2, 0, 2, 0, 1]),
        Player::Computer
    ));
}

#[test]
fn available_cells_on_empty_board_are_all_nine_ascending() {
    assert_eq!(
        available_cells(&Board::new()),
        vec![0u8, 1, 2, 3, 4, 5, 6, 7, 8]
    );
}

#[test]
fn available_cells_on_full_board_are_none() {
    let board = board_of([1, 2, 1, 2, 2, 1, 1, 1, 2]);
    assert_eq!(available_cells(&board), Vec::<u8>::new());
}

#[test]
fn available_cells_skip_taken_cells() {
    let board = board_of([2, 0, 0, 0, 1, 0, 0, 0, 0]);
    assert_eq!(available_cells(&board), vec![1u8, 2, 3, 5, 6, 7, 8]);
    let board = board_of([1, 1, 2, 2, 2, 1, 1, 0, 0]);
    assert_eq!(available_cells(&board), vec![7u8, 8]);
    let board = board_of([0, 1, 2, 1, 2, 1, 2, 1, 2]);
    assert_eq!(available_cells(&board), vec![0u8]);
}

#[test]
fn available_cells_leave_the_board_alone() {
    let board = board_of([1, 0, 2, 0, 0, 0, 0, 0, 0]);
    let _ = available_cells(&board);
    assert_eq!(board, board_of([1, 0, 2, 0, 0, 0, 0, 0, 0]));
}
