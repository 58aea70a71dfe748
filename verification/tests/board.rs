use tictactoe::board::{Board, BoardError};
use tictactoe::event::{Event, Key, MouseButton, MouseEvent};

const EMPTY_CELL: &str = " \x1b[1m \x1b[m\x1b[39m ";
const X_CELL: &str = "\x1b[38;5;1m \x1b[1mX\x1b[m\x1b[39m ";
const O_CELL: &str = "\x1b[38;5;2m \x1b[1mO\x1b[m\x1b[39m ";
const X_TO_MOVE: &str = "\x1b[39m\x1b[4;1HTurn: \x1b[38;5;1m\x1b[1mX\x1b[39m\x1b[m";
const O_TO_MOVE: &str = "\x1b[39m\x1b[4;1HTurn: \x1b[38;5;2m\x1b[1mO\x1b[39m\x1b[m";

fn board() -> Board {
    match Board::new((1, 5), 3) {
        Ok(b) => b,
        Err(e) => panic!("no board: {:?}", e),
    }
}

fn press(x: u16, y: u16) -> Event {
    Event::Mouse(MouseEvent::Press(MouseButton::Left, x, y))
}

/// A press in the middle of the cell in column `cx`, row `cy`, of a board at (1, 5).
fn press_cell(cx: u16, cy: u16) -> Event {
    press(1 + 4 * cx + 2, 5 + 2 * cy + 1)
}

fn play(b: &mut Board, moves: &[(u16, u16)]) {
    for (cx, cy) in moves {
        b.input(&press_cell(*cx, *cy));
    }
}

fn drawn(b: &Board) -> String {
    let mut buff = Vec::new();
    b.render(&mut buff);
    String::from_utf8(buff).unwrap()
}

fn grid(status: &str, cells: [[&str; 3]; 3]) -> String {
    let mut s = String::from(status);
    s.push_str("\x1b[5;1H");
    s.push_str("┏━━━┯━━━┯━━━┓\n\x1b[13D");
    for (y, row) in cells.iter().enumerate() {
        if y > 0 {
            s.push_str("┠───┼───┼───┨\n\x1b[13D");
        }
        s.push_str(&format!("┃{}│{}│{}┃\n\x1b[13D", row[0], row[1], row[2]));
    }
    s.push_str("┗━━━┷━━━┷━━━┛");
    s
}

#[test]
fn new_board_is_empty_and_first_player_moves() {
    let b = board();
    assert_eq!(b.size(), 3);
    assert_eq!(b.turn(), false);
    assert_eq!(b.turns(), 0);
    assert_eq!(b.won(), None);
    for y in 0..3 {
        for x in 0..3 {
            assert_eq!(b.cell(x, y), None);
        }
    }
}

#[test]
fn new_needs_a_row_for_the_status_line() {
    assert!(matches!(Board::new((1, 0), 3), Err(BoardError::NoStatusLine)));
    assert!(matches!(Board::new((0, 1), 3), Err(BoardError::NoStatusLine)));
    assert!(matches!(Board::new((7, 0), 9000), Err(BoardError::NoStatusLine)));
    assert!(matches!(Board::new((1, 1), 3), Ok(_)));
    assert!(matches!(Board::new((0, 2), 3), Ok(_)));
}

#[test]
fn new_refuses_a_grid_past_the_last_coordinate() {
    assert!(matches!(Board::new((1, 5), 8191), Ok(_)));
    assert!(matches!(Board::new((1, 5), 8192), Err(BoardError::TooLarge)));
    assert!(matches!(Board::new((4, 5), 8191), Err(BoardError::TooLarge)));
    assert!(matches!(Board::new((1, 16384), 8192), Err(BoardError::TooLarge)));
    assert!(matches!(Board::new((32767, 5), 0), Ok(_)));
    assert!(matches!(Board::new((32768, 5), 0), Err(BoardError::TooLarge)));
    assert!(matches!(Board::new((5, 32768), 0), Err(BoardError::TooLarge)));
    assert!(matches!(Board::new((5, 32761), 3), Ok(_)));
    assert!(matches!(Board::new((5, 32762), 3), Err(BoardError::TooLarge)));
    assert!(matches!(Board::new((1, 5), usize::MAX), Err(BoardError::TooLarge)));
}

#[test]
fn getcell_finds_the_cell_under_the_mouse() {
    let b = board();
    assert_eq!(b.getcell((2, 6)), Some((0, 0)));
    assert_eq!(b.getcell((3, 6)), Some((0, 0)));
    assert_eq!(b.getcell((4, 6)), Some((0, 0)));
    assert_eq!(b.getcell((6, 8)), Some((1, 1)));
    assert_eq!(b.getcell((12, 10)), Some((2, 2)));
    assert_eq!(b.getcell((10, 6)), Some((2, 0)));
    assert_eq!(b.getcell((2, 10)), Some((0, 2)));
}

#[test]
fn getcell_finds_nothing_on_a_line_or_outside() {
    let b = board();
    assert_eq!(b.getcell((1, 6)), None);
    assert_eq!(b.getcell((5, 6)), None);
    assert_eq!(b.getcell((9, 6)), None);
    assert_eq!(b.getcell((13, 6)), None);
    assert_eq!(b.getcell((2, 5)), None);
    assert_eq!(b.getcell((2, 7)), None);
    assert_eq!(b.getcell((2, 9)), None);
    assert_eq!(b.getcell((2, 11)), None);
    assert_eq!(b.getcell((14, 6)), None);
    assert_eq!(b.getcell((2, 12)), None);
    assert_eq!(b.getcell((0, 6)), None);
    assert_eq!(b.getcell((2, 4)), None);
    assert_eq!(b.getcell((0, 0)), None);
    assert_eq!(b.getcell((40000, 6)), None);
    assert_eq!(b.getcell((2, 65535)), None);
}

#[test]
fn getcell_on_a_board_far_out() {
    let b = match Board::new((32755, 32761), 3) {
        Ok(b) => b,
        Err(e) => panic!("no board: {:?}", e),
    };
    assert_eq!(b.getcell((32756, 32762)), Some((0, 0)));
    assert_eq!(b.getcell((32766, 32766)), Some((2, 2)));
    assert_eq!(b.getcell((32767, 32766)), None);
    assert_eq!(b.getcell((32768, 32762)), None);
    assert_eq!(b.getcell((2, 6)), None);
}

#[test]
fn a_press_places_the_mark_and_passes_the_turn() {
    let mut b = board();
    b.input(&press_cell(0, 0));
    assert_eq!(b.cell(0, 0), Some(false));
    assert_eq!(b.turn(), true);
    assert_eq!(b.turns(), 1);
    b.input(&press_cell(1, 1));
    assert_eq!(b.cell(1, 1), Some(true));
    assert_eq!(b.turn(), false);
    assert_eq!(b.turns(), 2);
    assert_eq!(b.won(), None);
}

#[test]
fn a_press_on_a_taken_cell_or_a_line_changes_nothing() {
    let mut b = board();
    b.input(&press_cell(2, 1));
    b.input(&press_cell(2, 1));
    assert_eq!(b.cell(2, 1), Some(false));
    assert_eq!(b.turn(), true);
    assert_eq!(b.turns(), 1);
    b.input(&press(5, 6));
    b.input(&press(2, 7));
    b.input(&press(60, 6));
    assert_eq!(b.turns(), 1);
    assert_eq!(b.turn(), true);
}

#[test]
fn other_events_change_nothing() {
    let mut b = board();
    b.input(&Event::Mouse(MouseEvent::Press(MouseButton::Right, 3, 6)));
    b.input(&Event::Mouse(MouseEvent::Press(MouseButton::Middle, 3, 6)));
    b.input(&Event::Mouse(MouseEvent::Release(3, 6)));
    b.input(&Event::Mouse(MouseEvent::Hold(3, 6)));
    b.input(&Event::Key(Key::Char('x')));
    b.input(&Event::Key(Key::Esc));
    b.input(&Event::Unsupported(vec![27, 91]));
    assert_eq!(b.turns(), 0);
    assert_eq!(b.turn(), false);
    assert_eq!(b.cell(0, 0), None);
}

#[test]
fn a_full_row_wins_for_the_first_player() {
    let mut b = board();
    play(&mut b, &[(0, 0), (0, 1), (1, 0), (1, 1)]);
    assert_eq!(b.winner(), None);
    play(&mut b, &[(2, 0)]);
    assert_eq!(b.won(), Some(true));
    assert_eq!(b.winner(), Some(true));
}

#[test]
fn a_full_column_wins_for_the_second_player() {
    let mut b = board();
    play(&mut b, &[(0, 0), (1, 0), (0, 1), (1, 1), (2, 2), (1, 2)]);
    assert_eq!(b.won(), Some(false));
    assert_eq!(b.winner(), Some(false));
}

#[test]
fn both_diagonals_win() {
    let mut b = board();
    play(&mut b, &[(0, 0), (1, 0), (1, 1), (2, 0), (2, 2)]);
    assert_eq!(b.won(), Some(true));
    let mut b = board();
    play(&mut b, &[(0, 0), (2, 0), (1, 0), (1, 1), (2, 2), (0, 2)]);
    assert_eq!(b.won(), Some(false));
}

#[test]
fn winner_leaves_the_board_as_it_was() {
    let mut b = board();
    play(&mut b, &[(0, 0), (1, 1)]);
    let before = drawn(&b);
    assert_eq!(b.winner(), None);
    assert_eq!(drawn(&b), before);
    assert_eq!(b.turns(), 2);
}

#[test]
fn after_a_win_presses_are_ignored() {
    let mut b = board();
    play(&mut b, &[(0, 0), (0, 1), (1, 0), (1, 1), (2, 0)]);
    assert_eq!(b.won(), Some(true));
    let before = drawn(&b);
    play(&mut b, &[(2, 2), (2, 1), (0, 2)]);
    assert_eq!(b.cell(2, 2), None);
    assert_eq!(b.cell(2, 1), None);
    assert_eq!(b.cell(0, 2), None);
    assert_eq!(b.turns(), 5);
    assert_eq!(b.turn(), true);
    assert_eq!(drawn(&b), before);
}

#[test]
fn a_full_board_without_a_line_has_no_winner() {
    let mut b = board();
    play(&mut b, &[(0, 0), (1, 0), (2, 0), (1, 1), (0, 1), (2, 1), (1, 2), (0, 2), (2, 2)]);
    assert_eq!(b.turns(), 9);
    assert_eq!(b.won(), None);
    assert_eq!(b.winner(), None);
}

#[test]
fn reset_empties_the_board() {
    let mut b = board();
    play(&mut b, &[(0, 0), (0, 1), (1, 0), (1, 1), (2, 0)]);
    b.reset();
    assert_eq!(b.turns(), 0);
    assert_eq!(b.turn(), false);
    assert_eq!(b.won(), None);
    for y in 0..3 {
        for x in 0..3 {
            assert_eq!(b.cell(x, y), None);
        }
    }
    assert_eq!(drawn(&b), drawn(&board()));
    b.input(&press_cell(1, 1));
    assert_eq!(b.cell(1, 1), Some(false));
}

#[test]
fn render_draws_the_empty_board() {
    let e = EMPTY_CELL;
    assert_eq!(drawn(&board()), grid(X_TO_MOVE, [[e, e, e], [e, e, e], [e, e, e]]));
}

#[test]
fn render_draws_the_marks_in_their_colours() {
    let e = EMPTY_CELL;
    let mut b = board();
    play(&mut b, &[(0, 0)]);
    assert_eq!(drawn(&b), grid(O_TO_MOVE, [[X_CELL, e, e], [e, e, e], [e, e, e]]));
    play(&mut b, &[(2, 1)]);
    assert_eq!(drawn(&b), grid(X_TO_MOVE, [[X_CELL, e, e], [e, e, O_CELL], [e, e, e]]));
}

#[test]
fn render_keeps_what_the_buffer_held() {
    let mut buff = b"frame".to_vec();
    board().render(&mut buff);
    let e = EMPTY_CELL;
    let expected = format!("frame{}", grid(X_TO_MOVE, [[e, e, e], [e, e, e], [e, e, e]]));
    assert_eq!(String::from_utf8(buff).unwrap(), expected);
}

#[test]
fn render_names_the_winner() {
    let e = EMPTY_CELL;
    let mut b = board();
    play(&mut b, &[(0, 0), (0, 1), (1, 0), (1, 1), (2, 0)]);
    let status = "\x1b[38;5;1m\x1b[4;1H\x1b[1mX\x1b[39m\x1b[m won!";
    assert_eq!(
        drawn(&b),
        grid(status, [[X_CELL, X_CELL, X_CELL], [O_CELL, O_CELL, e], [e, e, e]])
    );
    let mut b = board();
    play(&mut b, &[(0, 0), (1, 0), (0, 1), (1, 1), (2, 2), (1, 2)]);
    let status = "\x1b[38;5;2m\x1b[4;1H\x1b[1mO\x1b[39m\x1b[m won!";
    assert_eq!(
        drawn(&b),
        grid(status, [[X_CELL, O_CELL, e], [X_CELL, O_CELL, e], [e, O_CELL, X_CELL]])
    );
}

#[test]
fn render_calls_a_full_board_a_tie() {
    let mut b = board();
    play(&mut b, &[(0, 0), (1, 0), (2, 0), (1, 1), (0, 1), (2, 1), (1, 2), (0, 2), (2, 2)]);
    let status = "\x1b[4;1H\x1b[39m\x1b[1mTIE!\x1b[m";
    assert_eq!(
        drawn(&b),
        grid(status, [[X_CELL, O_CELL, X_CELL], [X_CELL, O_CELL, O_CELL], [O_CELL, X_CELL, X_CELL]])
    );
}

#[test]
fn render_of_one_cell() {
    let mut b = match Board::new((20, 3), 1) {
        Ok(b) => b,
        Err(e) => panic!("no board: {:?}", e),
    };
    b.input(&press(22, 4));
    let expected = format!(
        "\x1b[2;20H\x1b[39m\x1b[1mTIE!\x1b[m\x1b[3;20H┏━━━┓\n\x1b[5D┃{}┃\n\x1b[5D┗━━━┛",
        X_CELL
    );
    assert_eq!(drawn(&b), expected);
    assert_eq!(b.won(), Some(true));
}

#[test]
fn a_board_without_cells() {
    let mut b = match Board::new((3, 2), 0) {
        Ok(b) => b,
        Err(e) => panic!("no board: {:?}", e),
    };
    assert_eq!(b.getcell((3, 2)), None);
    assert_eq!(b.winner(), Some(false));
    assert_eq!(drawn(&b), "\x1b[1;3H\x1b[39m\x1b[1mTIE!\x1b[m\x1b[2;3H┛");
}
