use std::collections::VecDeque;
use tictactoe::event::{Event, Key, MouseButton, MouseEvent};
use tictactoe::terminalgame::{Action, Driver, Phase, TerminalGame};
use tictactoe::text::put_seconds;
use tictactoe::tictactoe::TicTacToe;

const WIPE: &[u8] = b"\x1b[2J\x1b[1;1H\n";

fn driver(fps: u32) -> Driver {
    match Driver::new(fps) {
        Some(d) => d,
        None => panic!("no driver"),
    }
}

fn key(c: char) -> Event {
    Event::Key(Key::Char(c))
}

/// What a frame of the game shows after `typed`: that, and the play time in the corner.
fn frame_of(typed: &str, game: &TicTacToe) -> Vec<u8> {
    let mut expected = typed.as_bytes().to_vec();
    expected.extend_from_slice(b"\x1b[1;1H");
    put_seconds(&mut expected, game.play_time());
    expected
}

#[test]
fn no_driver_for_a_rate_of_zero() {
    assert!(Driver::new(0).is_none());
    let d = driver(60);
    assert_eq!(d.phase(), Phase::Opening);
    assert!(d.buffer().is_empty());
    assert!(!d.stalled());
}

#[test]
fn a_game_that_has_stopped_gets_no_frame() {
    let mut game = TicTacToe::new();
    game.input(key('q'));
    game.input(Event::Key(Key::Esc));
    assert!(!game.running());
    let mut d = driver(game.fps());
    let mut queue = VecDeque::new();
    queue.push_back(key('z'));

    assert_eq!(d.step(&mut game, &mut queue), Action::Write);
    assert_eq!(d.buffer().as_slice(), WIPE);
    assert_eq!(d.phase(), Phase::Running);

    assert_eq!(d.step(&mut game, &mut queue), Action::Write);
    assert_eq!(d.buffer().as_slice(), WIPE);
    assert_eq!(d.phase(), Phase::Closed);

    assert_eq!(d.step(&mut game, &mut queue), Action::Exit);
    assert!(d.buffer().is_empty());
    assert_eq!(d.phase(), Phase::Closed);
    assert_eq!(d.step(&mut game, &mut queue), Action::Exit);

    assert_eq!(game.pending().as_slice(), b"q");
    assert_eq!(game.play_time(), 0);
    assert_eq!(queue.len(), 1);
}

#[test]
fn a_frame_delivers_every_event_in_order() {
    let mut game = TicTacToe::new();
    let mut d = driver(game.fps());
    let mut queue = VecDeque::new();
    assert_eq!(d.step(&mut game, &mut queue), Action::Write);

    let typed = "the quick brown fox, twice: the quick brown fox";
    for c in typed.chars() {
        queue.push_back(key(c));
    }
    assert_eq!(d.step(&mut game, &mut queue), Action::Write);
    assert_eq!(d.phase(), Phase::Pacing);
    assert!(queue.is_empty());
    assert_eq!(d.buffer(), &frame_of(typed, &game));
    assert!(game.pending().is_empty());
}

#[test]
fn a_frame_keeps_nothing_of_the_frame_before() {
    let mut game = TicTacToe::new();
    let mut d = driver(1000);
    let mut queue = VecDeque::new();
    assert_eq!(d.step(&mut game, &mut queue), Action::Write);

    queue.push_back(key('a'));
    assert_eq!(d.step(&mut game, &mut queue), Action::Write);
    assert_eq!(d.buffer(), &frame_of("a", &game));

    match d.step(&mut game, &mut queue) {
        Action::Sleep(wait) => assert!(wait <= 1_000_000),
        other => panic!("no pause but {:?}", other),
    }
    assert!(d.buffer().is_empty());
    assert_eq!(d.phase(), Phase::Running);

    queue.push_back(key('b'));
    assert_eq!(d.step(&mut game, &mut queue), Action::Write);
    assert_eq!(d.buffer(), &frame_of("b", &game));

    match d.step(&mut game, &mut queue) {
        Action::Sleep(wait) => assert!(wait <= 2_000_000),
        other => panic!("no pause but {:?}", other),
    }
    assert_eq!(d.step(&mut game, &mut queue), Action::Write);
    assert_eq!(d.buffer(), &frame_of("", &game));
}

#[test]
fn the_game_stops_on_escape_and_the_screen_is_cleared() {
    let mut game = TicTacToe::new();
    let mut d = driver(500);
    let mut queue = VecDeque::new();
    assert_eq!(d.step(&mut game, &mut queue), Action::Write);
    queue.push_back(key('k'));
    queue.push_back(Event::Key(Key::Esc));
    queue.push_back(key('l'));
    assert_eq!(d.step(&mut game, &mut queue), Action::Write);
    assert_eq!(d.buffer(), &frame_of("kl", &game));
    assert!(matches!(d.step(&mut game, &mut queue), Action::Sleep(_)));
    assert_eq!(d.step(&mut game, &mut queue), Action::Write);
    assert_eq!(d.buffer().as_slice(), WIPE);
    assert_eq!(d.step(&mut game, &mut queue), Action::Exit);
}

#[test]
fn the_demo_echoes_the_mouse() {
    let mut game = TicTacToe::new();
    game.input(Event::Mouse(MouseEvent::Press(MouseButton::Left, 7, 3)));
    assert_eq!(game.pending().as_slice(), b"\x1b[3;7H");
    game.input(Event::Mouse(MouseEvent::Hold(8, 3)));
    assert_eq!(game.pending().as_slice(), b"\x1b[3;7H\x1b[3;8Hx");
    game.input(Event::Mouse(MouseEvent::Release(8, 3)));
    game.input(Event::Mouse(MouseEvent::Press(MouseButton::Middle, 1, 1)));
    game.input(key('é'));
    assert_eq!(game.pending().as_slice(), "\x1b[3;7H\x1b[3;8Hxé".as_bytes());
    game.input(Event::Mouse(MouseEvent::Press(MouseButton::Right, 2, 2)));
    assert_eq!(game.pending().as_slice(), "\x1b[3;7H\x1b[3;8Hxé\x1b[2J".as_bytes());
}

#[test]
fn the_demo_is_deaf_while_the_right_button_is_down() {
    let mut game = TicTacToe::new();
    game.input(Event::Mouse(MouseEvent::Press(MouseButton::Right, 2, 2)));
    game.input(key('a'));
    game.input(Event::Key(Key::Esc));
    assert!(game.running());
    assert_eq!(game.pending().as_slice(), b"\x1b[2J");
    game.input(Event::Mouse(MouseEvent::Release(2, 2)));
    game.input(key('b'));
    assert_eq!(game.pending().as_slice(), b"\x1b[2Jb");
    game.input(Event::Key(Key::Esc));
    assert!(!game.running());
}

#[test]
fn the_demo_moves_no_cursor_to_nowhere() {
    let mut game = TicTacToe::new();
    game.input(Event::Mouse(MouseEvent::Press(MouseButton::Left, 0, 0)));
    assert!(game.pending().is_empty());
    game.input(Event::Mouse(MouseEvent::Hold(0, 0)));
    assert_eq!(game.pending().as_slice(), b"x");
    game.input(Event::Mouse(MouseEvent::Press(MouseButton::Left, 0, 4)));
    assert_eq!(game.pending().as_slice(), b"x\x1b[4;0H");
}

#[test]
fn the_demo_reads_the_clock_every_sixtieth_frame() {
    let mut game = TicTacToe::new();
    assert_eq!(game.fps(), 60);
    game.update_at(5_000_000_000);
    assert_eq!(game.play_time(), 5_000_000_000);
    for k in 0..59u128 {
        game.update_at(6_000_000_000 + k);
        assert_eq!(game.play_time(), 5_000_000_000);
    }
    game.update_at(7_250_000_000);
    assert_eq!(game.play_time(), 7_250_000_000);
    let mut buff = Vec::new();
    game.render(&mut buff);
    assert_eq!(buff, b"\x1b[1;1H7.25".to_vec());
}
