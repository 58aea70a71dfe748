use tictactoe::event::{Event, Key, MouseButton, MouseEvent};
use tictactoe::game::TicTacToe;

const PREAMBLE: &str = "\x1b[2J\x1b[m\x1b[49m\x1b[38;5;7m";

fn game() -> TicTacToe {
    match TicTacToe::new() {
        Ok(g) => g,
        Err(e) => panic!("no game: {:?}", e),
    }
}

/// A press of the left button in the middle of the cell in column `cx`, row `cy`.
fn press_cell(cx: u16, cy: u16) -> Event {
    Event::Mouse(MouseEvent::Press(MouseButton::Left, 1 + 4 * cx + 2, 5 + 2 * cy + 1))
}

fn feed(g: &mut TicTacToe, e: Event) -> Vec<u8> {
    let mut buff = Vec::new();
    g.update(e, false, false, &Vec::new(), None, &mut buff);
    buff
}

fn board_text(g: &TicTacToe) -> Vec<u8> {
    let mut buff = Vec::new();
    g.board().render(&mut buff);
    buff
}

#[test]
fn a_new_game_runs_on_an_empty_board() {
    let g = game();
    assert!(g.running());
    assert_eq!(g.board().size(), 3);
    assert_eq!(g.board().turns(), 0);
    assert_eq!(g.board().getcell((2, 6)), Some((0, 0)));
}

#[test]
fn two_presses_place_two_marks_and_the_turn_comes_back() {
    let mut g = game();
    feed(&mut g, press_cell(0, 0));
    feed(&mut g, press_cell(1, 1));
    assert_eq!(g.board().cell(0, 0), Some(false));
    assert_eq!(g.board().cell(1, 1), Some(true));
    assert_eq!(g.board().turn(), false);
    assert_eq!(g.board().turns(), 2);
    assert!(g.running());
}

#[test]
fn a_diagonal_wins_and_the_board_is_closed() {
    let mut g = game();
    for (cx, cy) in [(0, 0), (1, 0), (1, 1), (2, 0)] {
        feed(&mut g, press_cell(cx, cy));
        assert_eq!(g.board().won(), None);
    }
    feed(&mut g, press_cell(2, 2));
    assert_eq!(g.board().won(), Some(true));
    assert_eq!(g.board().cell(0, 0), Some(false));
    assert_eq!(g.board().cell(1, 1), Some(false));
    assert_eq!(g.board().cell(2, 2), Some(false));
    let before = board_text(&g);
    for (cx, cy) in [(0, 1), (2, 1), (0, 2), (1, 2)] {
        feed(&mut g, press_cell(cx, cy));
        assert_eq!(g.board().cell(cx as usize, cy as usize), None);
    }
    assert_eq!(g.board().turns(), 5);
    assert_eq!(board_text(&g), before);
    assert!(g.running());
}

#[test]
fn escape_and_the_exit_button_end_the_game() {
    let mut g = game();
    feed(&mut g, Event::Key(Key::Char('q')));
    assert!(g.running());
    feed(&mut g, Event::Key(Key::Esc));
    assert!(!g.running());

    let mut g = game();
    let mut buff = Vec::new();
    g.update(Event::Mouse(MouseEvent::Release(2, 2)), true, false, &Vec::new(), None, &mut buff);
    assert!(!g.running());
    feed(&mut g, press_cell(0, 0));
    assert!(!g.running());
    assert_eq!(g.board().cell(0, 0), Some(false));
}

#[test]
fn the_reset_button_empties_the_board() {
    let mut g = game();
    feed(&mut g, press_cell(0, 0));
    feed(&mut g, press_cell(1, 1));
    let mut buff = Vec::new();
    g.update(Event::Mouse(MouseEvent::Release(16, 2)), false, true, &Vec::new(), None, &mut buff);
    assert_eq!(g.board().turns(), 0);
    assert_eq!(g.board().turn(), false);
    assert_eq!(g.board().cell(0, 0), None);
    assert_eq!(g.board().cell(1, 1), None);
    assert!(g.running());
    let mut fresh = PREAMBLE.as_bytes().to_vec();
    fresh.extend_from_slice(&board_text(&game()));
    assert_eq!(buff, fresh);
}

#[test]
fn the_reset_comes_after_the_press() {
    let mut g = game();
    let mut buff = Vec::new();
    g.update(press_cell(2, 2), false, true, &Vec::new(), None, &mut buff);
    assert_eq!(g.board().cell(2, 2), None);
    assert_eq!(g.board().turns(), 0);
}

#[test]
fn a_frame_is_preamble_widgets_board_and_bottom_line() {
    let mut g = game();
    let widgets = b"[exit][reset]".to_vec();
    let mut buff = b"old".to_vec();
    g.update(press_cell(1, 0), false, false, &widgets, Some(24), &mut buff);
    let mut expected = b"old".to_vec();
    expected.extend_from_slice(PREAMBLE.as_bytes());
    expected.extend_from_slice(&widgets);
    expected.extend_from_slice(&board_text(&g));
    expected.extend_from_slice(b"\x1b[24;1H");
    assert_eq!(buff, expected);
    assert_eq!(g.board().cell(1, 0), Some(false));
}

#[test]
fn a_frame_without_a_known_height_has_no_bottom_line() {
    let mut g = game();
    let widgets = b"w".to_vec();
    let mut buff = Vec::new();
    g.update(Event::Key(Key::Null), false, false, &widgets, None, &mut buff);
    let mut expected = PREAMBLE.as_bytes().to_vec();
    expected.extend_from_slice(&widgets);
    expected.extend_from_slice(&board_text(&game()));
    assert_eq!(buff, expected);
}
