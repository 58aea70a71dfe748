//! A small game for the timed driver: it echoes what is typed and clicked
//! and shows the play time.
use vstd::prelude::*;
use vstd::utf8::encode_utf8;
use std::time::Instant;
use crate::escape::{clear_all, clear_text, goto, goto_text};
use crate::event::{Event, Key, MouseButton, MouseEvent};
use crate::terminalgame::TerminalGame;
use crate::text::{
    lemma_appended_nothing, lemma_appended_twice, put_char, put_seconds, put_str, seconds_text,
};

verus! {

/// The sequence that sends the cursor to column `x`, row `y`. There is
/// none for `(0, 0)`, which is no place on a screen counted from one.
pub open spec fn cursor_text(x: u16, y: u16) -> Seq<char> {
    if x == 0 && y == 0 {
        Seq::empty()
    } else {
        goto_text(x, y)
    }
}

/// The game as a value.
pub struct Play {
    /// Whether the game goes on.
    pub running: bool,
    /// The frame rate asked for.
    pub fps: u32,
    /// The bytes that wait for the next frame.
    pub pending: Seq<u8>,
    /// Where a mouse button is held down, and which.
    pub mouse: Option<(u16, u16, MouseButton)>,
    /// The play time on show, in nanoseconds.
    pub ttime: nat,
    /// The frames since the play time was last read.
    pub i: nat,
}

impl Play {
    /// The game before the first event.
    pub open spec fn fresh() -> Play {
        Play { running: true, fps: 60, pending: Seq::empty(), mouse: None, ttime: 0, i: 0 }
    }

    /// What an event adds to the next frame, where it is taken: a press of
    /// the left button moves the cursor there, one of the right button
    /// clears the screen, a held button leaves an `x`, a character key
    /// its character.
    pub open spec fn echo(e: Event) -> Seq<char> {
        match e {
            Event::Mouse(MouseEvent::Press(MouseButton::Left, x, y)) => cursor_text(x, y),
            Event::Mouse(MouseEvent::Press(MouseButton::Right, _, _)) => clear_text(),
            Event::Mouse(MouseEvent::Hold(x, y)) => cursor_text(x, y) + "x"@,
            Event::Key(Key::Char(c)) => seq![c],
            _ => Seq::empty(),
        }
    }

    /// Whether the keyboard is off: it is while the right button is down.
    pub open spec fn deaf(self) -> bool {
        self.mouse matches Some((_, _, MouseButton::Right))
    }

    /// The game after an event. A press is remembered until the release;
    /// keys count only while the right button is up, and `Esc` ends the
    /// game.
    pub open spec fn after_input(self, e: Event) -> Play {
        match e {
            Event::Mouse(MouseEvent::Press(k, x, y)) => Play {
                mouse: Some((x, y, k)),
                pending: self.pending + encode_utf8(Self::echo(e)),
                ..self
            },
            Event::Mouse(MouseEvent::Hold(_, _)) => Play {
                pending: self.pending + encode_utf8(Self::echo(e)),
                ..self
            },
            Event::Mouse(MouseEvent::Release(_, _)) => Play { mouse: None, ..self },
            Event::Key(k) => if self.deaf() {
                self
            } else {
                match k {
                    Key::Char(_) => Play {
                        pending: self.pending + encode_utf8(Self::echo(e)),
                        ..self
                    },
                    Key::Esc => Play { running: false, ..self },
                    _ => self,
                }
            },
            Event::Unsupported(_) => self,
        }
    }

    /// The game after a frame in which the clock, if it was read, stood at
    /// `elapsed` nanoseconds: it is read every sixtieth frame.
    pub open spec fn after_update(self, elapsed: nat) -> Play {
        if self.i % 60 == 0 {
            Play { ttime: elapsed, i: 1, ..self }
        } else {
            Play { i: self.i + 1, ..self }
        }
    }

    /// What a frame shows: what was pending, then the play time in the top
    /// left corner.
    pub open spec fn frame(self) -> Seq<u8> {
        self.pending + encode_utf8(goto_text(1, 1) + seconds_text(self.ttime))
    }
}

/// The game.
pub struct TicTacToe {
    running: bool,
    fps: u32,
    buff: Vec<u8>,
    mouse: Option<(u16, u16, MouseButton)>,
    timer: Instant,
    ttime: u128,
    i: usize,
}

impl View for TicTacToe {
    type V = Play;

    closed spec fn view(&self) -> Play {
        Play {
            running: self.running,
            fps: self.fps,
            pending: self.buff@,
            mouse: self.mouse,
            ttime: self.ttime as nat,
            i: self.i as nat,
        }
    }
}

impl TicTacToe {
    /// A game that runs at sixty frames a second, with the clock started
    /// now.
    pub fn new() -> (game: TicTacToe)
        ensures
            game@ == Play::fresh(),
            game.inv(),
    {
        TicTacToe {
            running: true,
            fps: 60,
            buff: Vec::new(),
            mouse: None,
            timer: Instant::now(),
            ttime: 0,
            i: 0,
        }
    }

    /// The bytes that wait for the next frame.
    pub fn pending(&self) -> (bytes: &Vec<u8>)
        ensures
            bytes@ == self@.pending,
    {
        &self.buff
    }

    /// The play time on show, in nanoseconds.
    pub fn play_time(&self) -> (nanos: u128)
        ensures
            nanos == self@.ttime,
    {
        self.ttime
    }

    /// Puts the sequence that sends the cursor to `(x, y)` with what waits
    /// for the next frame.
    fn put_cursor(&mut self, x: u16, y: u16)
        ensures
            final(self)@ == (Play {
                pending: old(self)@.pending + encode_utf8(cursor_text(x, y)),
                ..old(self)@
            }),
    {
        if x != 0 || y != 0 {
            let there = goto(x, y);
            put_str(&mut self.buff, there.as_str());
        } else {
            proof {
                lemma_appended_nothing(self.buff@);
            }
        }
    }

    /// One frame at a time when the clock stands at `elapsed` nanoseconds.
    pub fn update_at(&mut self, elapsed: u128)
        requires
            old(self).inv(),
        ensures
            final(self).inv(),
            final(self)@ == old(self)@.after_update(elapsed as nat),
    {
        if self.i % 60 == 0 {
            self.ttime = elapsed;
            self.i = 0;
        }
        self.i = self.i + 1;
    }
}

impl TerminalGame for TicTacToe {
    open spec fn inv(&self) -> bool {
        self@.i <= 60
    }

    open spec fn input_spec(pre: Self, e: Event, post: Self) -> bool {
        post@ == pre@.after_input(e)
    }

    open spec fn update_spec(pre: Self, post: Self) -> bool {
        exists|elapsed: nat| post@ == pre@.after_update(elapsed)
    }

    open spec fn render_spec(pre: Self, post: Self, out: Seq<u8>) -> bool {
        out == pre@.frame() && post@ == (Play { pending: Seq::empty(), ..pre@ })
    }

    open spec fn running_spec(&self) -> bool {
        self@.running
    }

    open spec fn fps_spec(&self) -> u32 {
        self@.fps
    }

    fn input(&mut self, e: Event) {
        match e {
            Event::Mouse(m) => match m {
                MouseEvent::Press(k, x, y) => {
                    self.mouse = Some((x, y, k));
                    match k {
                        MouseButton::Left => self.put_cursor(x, y),
                        MouseButton::Right => {
                            let clear = clear_all();
                            put_str(&mut self.buff, clear.as_str());
                        },
                        _ => {
                            proof {
                                lemma_appended_nothing(self.buff@);
                            }
                        },
                    }
                },
                MouseEvent::Hold(x, y) => {
                    self.put_cursor(x, y);
                    let ghost mid = self.buff@;
                    put_str(&mut self.buff, "x");
                    proof {
                        lemma_appended_twice(
                            old(self).buff@,
                            mid,
                            self.buff@,
                            cursor_text(x, y),
                            "x"@,
                        );
                    }
                },
                MouseEvent::Release(_, _) => {
                    self.mouse = None;
                },
            },
            Event::Key(k) => {
                if let Some((_, _, MouseButton::Right)) = self.mouse {
                } else {
                    match k {
                        Key::Char(c) => {
                            put_char(&mut self.buff, c);
                        },
                        Key::Esc => {
                            self.running = false;
                        },
                        _ => (),
                    }
                }
            },
            _ => (),
        }
    }

    fn update(&mut self) {
        let elapsed = if self.i % 60 == 0 {
            let gone = self.timer.elapsed();
            gone.as_nanos()
        } else {
            self.ttime
        };
        self.update_at(elapsed);
    }

    fn render(&mut self, buff: &mut Vec<u8>) {
        buff.append(&mut self.buff);
        let ghost carried = buff@;
        let home = goto(1, 1);
        put_str(buff, home.as_str());
        let ghost homed = buff@;
        put_seconds(buff, self.ttime);
        proof {
            lemma_appended_twice(carried, homed, buff@, goto_text(1, 1), seconds_text(self.ttime as nat));
            assert(carried =~= old(self)@.pending);
        }
    }

    fn running(&self) -> (on: bool) {
        self.running
    }

    fn fps(&self) -> (rate: u32) {
        self.fps
    }
}

} // verus!
