use tictactoe::board::{Board, Cell};
use tictactoe::session::{is_in_play, play_round, Action, Command, Game};

fn cells_of(codes: [u8; 9]) -> Board {
    let mut cells = [Cell::Empty; 9];
    for i in 0..9 {
        cells[i] = match codes[i] {
            1 => Cell::Human,
            2 => Cell::Computer,
            _ => Cell::Empty,
        };
    }
    Board { cells }
}

fn game_at(cursor: u8) -> Game {
    let mut game = Game::new();
    match cursor / 3 {
        1 => {
            game.step(Command::Down);
        }
        2 => {
            game.step(Command::Down);
            game.step(Command::Down);
        }
        _ => {}
    }
    for _ in 0..cursor % 3 {
        game.step(Command::Right);
    }
    assert_eq!(game.cursor(), cursor);
    game
}

fn press(game: &mut Game, cursor: u8) {
    while game.cursor() / 3 > cursor / 3 {
        game.step(Command::Up);
    }
    while game.cursor() / 3 < cursor / 3 {
        game.step(Command::Down);
    }
    while game.cursor() != cursor {
        game.step(Command::Right);
    }
    assert_eq!(game.step(Command::Place), Action::Redraw);
}

#[test]
fn new_game_starts_empty_at_first_cell() {
    let game = Game::new();
    assert_eq!(game.board(), Board::new());
    assert_eq!(game.cursor(), 0);
}

#[test]
fn quit_exits_and_changes_nothing() {
    let mut game = game_at(4);
    press(&mut game, 4);
    let board = game.board();
    assert_eq!(game.step(Command::Quit), Action::Exit);
    assert_eq!(game.board(), board);
    assert_eq!(game.cursor(), 4);
}

#[test]
fn every_other_command_asks_for_a_redraw() {
    for command in [
        Command::Restart,
        Command::Left,
        Command::Right,
        Command::Up,
        Command::Down,
        Command::Place,
        Command::Other,
    ] {
        let mut game = Game::new();
        assert_eq!(game.step(command), Action::Redraw);
    }
}

#[test]
fn right_steps_forward_and_wraps() {
    let expected = [1u8, 2, 3, 4, 5, 6, 7, 8, 0];
    for start in 0..9u8 {
        let mut game = game_at(start);
        game.step(Command::Right);
        assert_eq!(game.cursor(), expected[start as usize]);
    }
}

#[test]
fn left_steps_back_and_turns_at_first_cell() {
    let expected = [1u8, 0, 1, 2, 3, 4, 5, 6, 7];
    for start in 0..9u8 {
        let mut game = game_at(start);
        game.step(Command::Left);
        assert_eq!(game.cursor(), expected[start as usize]);
    }
}

#[test]
fn up_moves_a_row_and_stops_at_the_top() {
    let expected = [0u8, 1, 2, 0, 1, 2, 3, 4, 5];
    for start in 0..9u8 {
        let mut game = game_at(start);
        game.step(Command::Up);
        assert_eq!(game.cursor(), expected[start as usize]);
    }
}

#[test]
fn down_moves_a_row_and_stops_at_the_bottom() {
    let expected = [3u8, 4, 5, 6, 7, 8, 6, 7, 8];
    for start in 0..9u8 {
        let mut game = game_at(start);
        game.step(Command::Down);
        assert_eq!(game.cursor(), expected[start as usize]);
    }
}

#[test]
fn other_keys_change_nothing() {
    let mut game = game_at(5);
    press(&mut game, 5);
    let board = game.board();
    assert_eq!(game.step(Command::Other), Action::Redraw);
    assert_eq!(game.board(), board);
    assert_eq!(game.cursor(), 5);
}

#[test]
fn place_marks_the_cell_and_the_computer_answers() {
    let mut game = Game::new();
    press(&mut game, 0);
    assert_eq!(game.board(), cells_of([1, 0, 0, 0, 2, 0, 0, 0, 0]));
    assert_eq!(game.cursor(), 0);
    press(&mut game, 8);
    assert_eq!(game.board(), cells_of([1, 2, 0, 0, 2, 0, 0, 0, 1]));
}

#[test]
fn place_on_a_taken_cell_does_nothing() {
    let mut game = Game::new();
    press(&mut game, 0);
    let board = game.board();
    press(&mut game, 0);
    assert_eq!(game.board(), board);
    press(&mut game, 4);
    assert_eq!(game.board(), board);
}

#[test]
fn computer_wins_when_the_human_lets_it() {
    let mut game = Game::new();
    press(&mut game, 4);
    press(&mut game, 8);
    press(&mut game, 3);
    assert_eq!(game.board(), cells_of([2, 2, 2, 1, 1, 0, 0, 0, 1]));
    assert!(!is_in_play(&game.board()));
}

#[test]
fn place_after_the_end_does_nothing() {
    let mut game = Game::new();
    press(&mut game, 4);
    press(&mut game, 8);
    press(&mut game, 3);
    let board = game.board();
    press(&mut game, 7);
    assert_eq!(game.board(), board);
    assert_eq!(game.cursor(), 7);
}

#[test]
fn drawn_game_fills_the_board() {
    let mut game = Game::new();
    for cell in [0u8, 1, 6, 5, 8] {
        press(&mut game, cell);
    }
    assert_eq!(game.board(), cells_of([1, 1, 2, 2, 2, 1, 1, 2, 1]));
    assert!(!is_in_play(&game.board()));
}

#[test]
fn restart_clears_the_board_and_keeps_the_cursor() {
    let mut game = Game::new();
    press(&mut game, 4);
    press(&mut game, 8);
    assert_eq!(game.step(Command::Restart), Action::Redraw);
    assert_eq!(game.board(), Board::new());
    assert_eq!(game.cursor(), 8);
}

#[test]
fn play_round_answers_a_move() {
    let board = cells_of([1, 0, 0, 0, 2, 0, 0, 0, 0]);
    assert_eq!(
        play_round(&board, 8),
        cells_of([1, 2, 0, 0, 2, 0, 0, 0, 1])
    );
    assert_eq!(board, cells_of([1, 0, 0, 0, 2, 0, 0, 0, 0]));
}

#[test]
fn play_round_ignores_what_is_not_a_move() {
    let board = cells_of([1, 0, 0, 0, 2, 0, 0, 0, 0]);
    assert_eq!(play_round(&board, 0), board);
    assert_eq!(play_round(&board, 4), board);
    assert_eq!(play_round(&board, 9), board);
    assert_eq!(play_round(&board, 200), board);
    let over = cells_of([2, 2, 2, 1, 1, 0, 0, 0, 1]);
    assert_eq!(play_round(&over, 5), over);
}

#[test]
fn play_round_stops_when_the_human_fills_the_board() {
    let board = cells_of([1, 2, 1, 1, 2, 0, 2, 1, 2]);
    assert_eq!(
        play_round(&board, 5),
        cells_of([1, 2, 1, 1, 2, 1, 2, 1, 2])
    );
}

#[test]
fn play_round_stops_when_the_human_completes_a_line() {
    let board = cells_of([1, 1, 0, 2, 2, 0, 0, 0, 0]);
    assert_eq!(
        play_round(&board, 2),
        cells_of([1, 1, 1, 2, 2, 0, 0, 0, 0])
    );
}

#[test]
fn in_play_until_a_line_or_a_full_board() {
    assert!(is_in_play(&Board::new()));
    assert!(is_in_play(&cells_of([1, 0, 0, 0, 2, 0, 0, 0, 0])));
    assert!(!is_in_play(&cells_of([1, 1, 1, 2, 2, 0, 0, 0, 0])));
    assert!(!is_in_play(&cells_of([2, 2, 2, 1, 1, 0, 0, 0, 1])));
    assert!(!is_in_play(&cells_of([1, 2, 1, 2, 2, 1, 1, 1, 2])));
}
