//! Tic-tac-toe for two at one terminal: a board, an exit and a reset.
//!
//! The two buttons and their labels are widgets of the program around the
//! library. The game takes what they report and the bytes they draw.
use vstd::prelude::*;
use vstd::utf8::encode_utf8;
use crate::board::{Board, BoardError, Grid};
use crate::escape::{
    bg_reset, bg_reset_text, clear_all, clear_text, fg_text, fg_white, goto, goto_text, plain,
    plain_text,
};
use crate::event::{Event, Key};
use crate::text::{appended, emit, lemma_appended_nothing, lemma_concat_assoc, put_str};

verus! {

/// What every frame starts with: the screen is cleared, the text attributes
/// and the background are reset and the foreground is white.
pub open spec fn preamble_text() -> Seq<char> {
    clear_text() + plain_text() + bg_reset_text() + fg_text(7)
}

/// The game as a value.
pub struct Match {
    /// Whether the game goes on.
    pub running: bool,
    /// The board.
    pub board: Grid,
    /// Bytes for the bottom line of the screen, shown once.
    pub debug: Seq<u8>,
}

impl Match {
    /// What holds of every game: its board is well formed.
    pub open spec fn wf(self) -> bool {
        self.board.wf()
    }

    /// The game before the first event: a board of three by three below the
    /// buttons.
    pub open spec fn fresh() -> Match {
        Match { running: true, board: Grid::empty((1, 5), 3), debug: Seq::empty() }
    }

    /// The game after an event. The board takes the event first; `Esc` or a
    /// release of the exit button ends the game; a release of the reset
    /// button then empties the board.
    pub open spec fn after_event(self, e: Event, exit_released: bool, reset_released: bool) -> Match {
        let played = self.board.after_input(e);
        Match {
            running: self.running && !(e matches Event::Key(Key::Esc)) && !exit_released,
            board: if reset_released {
                Grid::empty(played.pos, played.n)
            } else {
                played
            },
            debug: self.debug,
        }
    }

    /// The bytes of a frame: the preamble, what the widgets drew, the board
    /// and, where the screen's height is known, the bottom line.
    pub open spec fn frame(self, widgets: Seq<u8>, rows: Option<u16>) -> Seq<u8> {
        let top = encode_utf8(preamble_text()) + widgets + encode_utf8(self.board.text());
        match rows {
            Some(h) => top + encode_utf8(goto_text(1, h)) + self.debug,
            None => top,
        }
    }

    /// The game after a frame: what was shown on the bottom line is gone.
    pub open spec fn after_frame(self, rows: Option<u16>) -> Match {
        match rows {
            Some(_) => Match { debug: Seq::empty(), ..self },
            None => self,
        }
    }
}

/// Bytes in a row can be grouped either way.
proof fn lemma_grouped(a: Seq<u8>, b: Seq<u8>, c: Seq<u8>)
    ensures
        (a + b) + c == a + (b + c),
{
    assert((a + b) + c =~= a + (b + c));
}

/// The game.
pub struct TicTacToe {
    dbuff: Vec<u8>,
    running: bool,
    board: Board,
}

impl View for TicTacToe {
    type V = Match;

    closed spec fn view(&self) -> Match {
        Match { running: self.running, board: self.board@, debug: self.dbuff@ }
    }
}

impl TicTacToe {
    /// A new game.
    pub fn new() -> (made: Result<TicTacToe, BoardError>)
        ensures
            made matches Ok(game) && game@ == Match::fresh() && game@.wf(),
    {
        match Board::new((1, 5), 3) {
            Ok(board) => Ok(TicTacToe { dbuff: Vec::new(), running: true, board }),
            Err(e) => Err(e),
        }
    }

    /// Takes one event and draws the frame that follows it.
    ///
    /// `exit_released` and `reset_released` say whether the event let go of
    /// the left mouse button over the exit and the reset button; `widgets`
    /// holds what the buttons and labels drew; `rows` is the height of the
    /// screen, where it is known.
    pub fn update(
        &mut self,
        e: Event,
        exit_released: bool,
        reset_released: bool,
        widgets: &Vec<u8>,
        rows: Option<u16>,
        buff: &mut Vec<u8>,
    )
        requires
            old(self)@.wf(),
        ensures
            final(self)@.wf(),
            final(self)@ == old(self)@.after_event(e, exit_released, reset_released).after_frame(
                rows,
            ),
            final(buff)@ == old(buff)@ + old(self)@.after_event(
                e,
                exit_released,
                reset_released,
            ).frame(widgets@, rows),
    {
        self.take(e, exit_released, reset_released);
        self.draw(widgets, rows, buff);
    }

    /// Takes one event, and what the buttons made of it.
    fn take(&mut self, e: Event, exit_released: bool, reset_released: bool)
        requires
            old(self)@.wf(),
        ensures
            final(self)@.wf(),
            final(self)@ == old(self)@.after_event(e, exit_released, reset_released),
    {
        self.board.input(&e);
        match e {
            Event::Key(Key::Esc) => {
                self.running = false;
            },
            _ => (),
        }
        if exit_released {
            self.running = false;
        }
        if reset_released {
            self.board.reset();
        }
    }

    /// Draws a frame.
    fn draw(&mut self, widgets: &Vec<u8>, rows: Option<u16>, buff: &mut Vec<u8>)
        requires
            old(self)@.wf(),
        ensures
            final(self)@ == old(self)@.after_frame(rows),
            final(buff)@ == old(buff)@ + old(self)@.frame(widgets@, rows),
    {
        let ghost before = buff@;
        let ghost head = encode_utf8(preamble_text());
        let ghost body = encode_utf8(self@.board.text());
        self.put_preamble(buff);
        buff.extend_from_slice(widgets.as_slice());
        assert(buff@ =~= before + head + widgets@);
        self.board.render(buff);
        proof {
            lemma_grouped(before, head + widgets@, body);
            lemma_grouped(before, head, widgets@);
        }
        if let Some(h) = rows {
            let ghost top = head + widgets@ + body;
            let ghost tail = encode_utf8(goto_text(1, h));
            let bottom = goto(1, h);
            put_str(buff, bottom.as_str());
            buff.append(&mut self.dbuff);
            proof {
                lemma_grouped(before, top, tail);
                lemma_grouped(before, top + tail, old(self)@.debug);
            }
        }
    }

    /// Writes what every frame starts with.
    fn put_preamble(&self, buff: &mut Vec<u8>)
        ensures
            appended(old(buff)@, final(buff)@, preamble_text()),
    {
        let ghost start = buff@;
        let ghost t = Seq::<char>::empty();
        let ghost mut w = Seq::<char>::empty();
        proof {
            lemma_appended_nothing(start);
            lemma_concat_assoc(t, w, w);
        }
        let clear = clear_all();
        let normal = plain();
        let back = bg_reset();
        let white = fg_white();
        emit(buff, clear.as_str(), Ghost(start), Ghost(t + w));
        proof {
            lemma_concat_assoc(t, w, clear@);
            w = w + clear@;
        }
        emit(buff, normal.as_str(), Ghost(start), Ghost(t + w));
        proof {
            lemma_concat_assoc(t, w, normal@);
            w = w + normal@;
        }
        emit(buff, back.as_str(), Ghost(start), Ghost(t + w));
        proof {
            lemma_concat_assoc(t, w, back@);
            w = w + back@;
        }
        emit(buff, white.as_str(), Ghost(start), Ghost(t + w));
        proof {
            lemma_concat_assoc(t, w, white@);
            w = w + white@;
            assert(w =~= preamble_text());
            assert(t + w =~= w);
        }
    }

    /// Whether the game goes on.
    pub fn running(&self) -> (on: bool)
        ensures
            on == self@.running,
    {
        self.running
    }

    /// The board.
    pub fn board(&self) -> (board: &Board)
        ensures
            board@ == self@.board,
    {
        &self.board
    }
}

} // verus!
