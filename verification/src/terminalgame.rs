//! The game loop: what a game must offer, and the driver that sequences
//! input, update, render, flush and wait.
//!
//! The driver decides; it neither reads the terminal nor writes to it nor
//! sleeps. The program around it does what each step asks for and steps
//! again.
use vstd::prelude::*;
use vstd::utf8::encode_utf8;
use std::collections::VecDeque;
use crate::escape::{clear_all, clear_text, goto, goto_text};
use crate::event::Event;
use crate::syncer::{Schedule, Syncer};
use crate::text::{emit, lemma_appended_nothing, lemma_concat_assoc};

verus! {

/// A game that the driver can run.
///
/// Each callback comes with a relation that says what it may do; the driver
/// promises of a frame what these relations say of its parts.
pub trait TerminalGame: Sized {
    /// What holds of the game between callbacks.
    spec fn inv(&self) -> bool;

    /// `post` may be what `input` makes of `pre` on the event `e`.
    spec fn input_spec(pre: Self, e: Event, post: Self) -> bool;

    /// `post` may be what `update` makes of `pre`.
    spec fn update_spec(pre: Self, post: Self) -> bool;

    /// `render` may make `post` of `pre` and leave `out` in the buffer.
    spec fn render_spec(pre: Self, post: Self, out: Seq<u8>) -> bool;

    /// Whether the game goes on.
    spec fn running_spec(&self) -> bool;

    /// The frame rate the game asks for.
    spec fn fps_spec(&self) -> u32;

    /// Takes one input event.
    fn input(&mut self, e: Event)
        requires
            old(self).inv(),
        ensures
            final(self).inv(),
            Self::input_spec(*old(self), e, *final(self)),
    ;

    /// Moves the game on by one frame.
    fn update(&mut self)
        requires
            old(self).inv(),
        ensures
            final(self).inv(),
            Self::update_spec(*old(self), *final(self)),
    ;

    /// Draws the frame into `buff`, which is empty when the game gets it.
    fn render(&mut self, buff: &mut Vec<u8>)
        requires
            old(self).inv(),
            old(buff)@.len() == 0,
        ensures
            final(self).inv(),
            Self::render_spec(*old(self), *final(self), final(buff)@),
    ;

    /// Whether the game goes on. The driver asks once before every frame
    /// and stops when the answer is no.
    fn running(&self) -> (on: bool)
        requires
            self.inv(),
        ensures
            on == self.running_spec(),
    ;

    /// The frame rate the game asks for, in frames per second.
    fn fps(&self) -> (rate: u32)
        requires
            self.inv(),
        ensures
            rate == self.fps_spec(),
    ;
}

/// `post` may be what `pre` becomes when it takes `events` one by one, in
/// their order, each exactly once.
pub open spec fn delivered<G: TerminalGame>(pre: G, events: Seq<Event>, post: G) -> bool
    decreases events.len(),
{
    if events.len() == 0 {
        post == pre
    } else {
        exists|mid: G|
            delivered(pre, events.drop_last(), mid) && G::input_spec(mid, events.last(), post)
    }
}

/// `post` and `out` may be what one frame makes of `pre`: the game takes
/// `events` in order, then updates once, then renders `out` once.
pub open spec fn framed<G: TerminalGame>(pre: G, events: Seq<Event>, post: G, out: Seq<u8>) -> bool {
    exists|fed: G, moved: G|
        delivered(pre, events, fed) && G::update_spec(fed, moved) && G::render_spec(
            moved,
            post,
            out,
        )
}

/// One more event delivered.
pub proof fn lemma_delivered_more<G: TerminalGame>(
    pre: G,
    events: Seq<Event>,
    k: int,
    mid: G,
    post: G,
)
    requires
        0 <= k < events.len(),
        delivered(pre, events.take(k), mid),
        G::input_spec(mid, events[k], post),
    ensures
        delivered(pre, events.take(k + 1), post),
{
    let more = events.take(k + 1);
    assert(more.drop_last() =~= events.take(k));
    assert(more.last() == events[k]);
}

/// What the driver writes before the first frame and after the last: it
/// clears the screen and sends the cursor home.
pub open spec fn wipe_text() -> Seq<char> {
    clear_text() + goto_text(1, 1) + "\n"@
}

/// Where the driver is in its round.
#[derive(Clone, Copy, Debug, PartialEq, Eq, Structural)]
pub enum Phase {
    /// Nothing has been written yet.
    Opening,
    /// The next step asks the game whether it goes on, and makes a frame
    /// if it does.
    Running,
    /// A frame has been written; the next step paces.
    Pacing,
    /// The game has stopped and the screen has been cleared.
    Closed,
}

/// What the program around the driver does after a step.
#[derive(Clone, Copy, Debug, PartialEq, Eq, Structural)]
pub enum Action {
    /// Write the whole buffer to the terminal, in one piece, and flush.
    Write,
    /// Sleep for so many nanoseconds.
    Sleep(u128),
    /// Give the terminal back and return.
    Exit,
}

/// A driver as a value.
pub struct Session {
    pub phase: Phase,
    /// What the buffer holds.
    pub buffer: Seq<u8>,
    pub schedule: Schedule,
}

/// The game loop driver. It owns the render buffer and the scheduler.
pub struct Driver {
    phase: Phase,
    buff: Vec<u8>,
    syncer: Syncer,
}

impl View for Driver {
    type V = Session;

    closed spec fn view(&self) -> Session {
        Session { phase: self.phase, buffer: self.buff@, schedule: self.syncer@ }
    }
}

impl Session {
    /// Whether the next step would pace and the scheduler cannot.
    pub open spec fn stalled(self) -> bool {
        self.phase == Phase::Pacing && self.schedule.deadline + self.schedule.interval > u128::MAX
    }
}

impl Driver {
    /// A driver for `fps` frames in a second, about to open. There is none
    /// for a rate of zero.
    pub fn new(fps: u32) -> (made: Option<Driver>)
        ensures
            match made {
                Some(d) => fps > 0 && d@ == (Session {
                    phase: Phase::Opening,
                    buffer: Seq::empty(),
                    schedule: Schedule::fresh((1_000_000_000int / fps as int) as nat),
                }),
                None => fps == 0,
            },
    {
        if fps == 0 {
            None
        } else {
            Some(Driver { phase: Phase::Opening, buff: Vec::new(), syncer: Syncer::from_fps(fps) })
        }
    }

    /// Where the driver is in its round.
    pub fn phase(&self) -> (phase: Phase)
        ensures
            phase == self@.phase,
    {
        self.phase
    }

    /// The render buffer: after a step that asks for a write, the bytes to
    /// write.
    pub fn buffer(&self) -> (buff: &Vec<u8>)
        ensures
            buff@ == self@.buffer,
    {
        &self.buff
    }

    /// Whether the next step would pace and the scheduler cannot.
    pub fn stalled(&self) -> (stuck: bool)
        ensures
            stuck == self@.stalled(),
    {
        match self.phase {
            Phase::Pacing => self.syncer.exhausted(),
            _ => false,
        }
    }

    /// Fills the empty buffer with the bytes that clear the screen.
    fn wipe(&mut self)
        requires
            old(self).buff@.len() == 0,
        ensures
            final(self).buff@ == encode_utf8(wipe_text()),
            final(self).phase == old(self).phase,
            final(self).syncer == old(self).syncer,
    {
        let ghost start = self.buff@;
        let ghost t = Seq::<char>::empty();
        let ghost mut w = Seq::<char>::empty();
        proof {
            lemma_appended_nothing(start);
            lemma_concat_assoc(t, w, w);
        }
        let clear = clear_all();
        let home = goto(1, 1);
        emit(&mut self.buff, clear.as_str(), Ghost(start), Ghost(t + w));
        proof {
            lemma_concat_assoc(t, w, clear@);
            w = w + clear@;
        }
        emit(&mut self.buff, home.as_str(), Ghost(start), Ghost(t + w));
        proof {
            lemma_concat_assoc(t, w, home@);
            w = w + home@;
        }
        emit(&mut self.buff, "\n", Ghost(start), Ghost(t + w));
        proof {
            lemma_concat_assoc(t, w, "\n"@);
            w = w + "\n"@;
            assert(w =~= wipe_text());
            assert(t + w =~= w);
            assert(start + encode_utf8(wipe_text()) =~= encode_utf8(wipe_text()));
        }
    }

    /// One step of the game loop.
    ///
    /// Opening, the driver fills the buffer with the bytes that clear the
    /// screen and asks for a write. Running, it asks the game whether it
    /// goes on: if not, it fills the buffer with the same bytes, asks for a
    /// write and is closed; if so, it makes one frame and asks for a write.
    /// A frame hands the game every queued event, in order, then updates it
    /// once, then has it render into the emptied buffer once. Pacing, it
    /// empties the buffer and asks for the sleep that the scheduler gives.
    /// Closed, it asks for the exit.
    pub fn step<G: TerminalGame>(&mut self, game: &mut G, queue: &mut VecDeque<Event>) -> (action:
        Action)
        requires
            old(game).inv(),
            !old(self)@.stalled(),
        ensures
            final(game).inv(),
            !(old(self)@.phase == Phase::Running && old(game).running_spec()) ==> *final(game)
                == *old(game) && final(queue)@ == old(queue)@,
            match old(self)@.phase {
                Phase::Opening => {
                    &&& action == Action::Write
                    &&& final(self)@ == (Session {
                        phase: Phase::Running,
                        buffer: encode_utf8(wipe_text()),
                        schedule: old(self)@.schedule,
                    })
                },
                Phase::Running => if old(game).running_spec() {
                    &&& action == Action::Write
                    &&& final(self)@.phase == Phase::Pacing
                    &&& final(self)@.schedule == old(self)@.schedule
                    &&& final(queue)@.len() == 0
                    &&& framed(*old(game), old(queue)@, *final(game), final(self)@.buffer)
                } else {
                    &&& action == Action::Write
                    &&& final(self)@ == (Session {
                        phase: Phase::Closed,
                        buffer: encode_utf8(wipe_text()),
                        schedule: old(self)@.schedule,
                    })
                },
                Phase::Pacing => {
                    &&& action matches Action::Sleep(wait)
                    &&& wait <= old(self)@.schedule.deadline
                    &&& final(self)@ == (Session {
                        phase: Phase::Running,
                        buffer: Seq::empty(),
                        schedule: old(self)@.schedule.next(),
                    })
                },
                Phase::Closed => {
                    &&& action == Action::Exit
                    &&& final(self)@ == (Session { buffer: Seq::empty(), ..old(self)@ })
                },
            },
    {
        self.buff.clear();
        match self.phase {
            Phase::Opening => {
                self.wipe();
                self.phase = Phase::Running;
                Action::Write
            },
            Phase::Running => {
                if game.running() {
                    self.frame(game, queue);
                    self.phase = Phase::Pacing;
                } else {
                    self.wipe();
                    self.phase = Phase::Closed;
                }
                Action::Write
            },
            Phase::Pacing => {
                let wait = self.syncer.sync();
                self.phase = Phase::Running;
                Action::Sleep(wait)
            },
            Phase::Closed => Action::Exit,
        }
    }

    /// One frame into the empty buffer: every queued event to the game, in
    /// order, then one update, then one render.
    fn frame<G: TerminalGame>(&mut self, game: &mut G, queue: &mut VecDeque<Event>)
        requires
            old(game).inv(),
            old(self).buff@.len() == 0,
        ensures
            final(game).inv(),
            final(queue)@.len() == 0,
            framed(*old(game), old(queue)@, *final(game), final(self).buff@),
            final(self).phase == old(self).phase,
            final(self).syncer == old(self).syncer,
    {
        let ghost first = *game;
        let ghost events = queue@;
        let ghost mut k: int = 0;
        assert(events.take(0) =~= Seq::<Event>::empty());
        loop
            invariant
                game.inv(),
                0 <= k <= events.len(),
                queue@ == events.skip(k),
                delivered(first, events.take(k), *game),
                self.buff@.len() == 0,
                self.phase == old(self).phase,
                self.syncer == old(self).syncer,
            ensures
                game.inv(),
                queue@.len() == 0,
                delivered(first, events, *game),
                self.buff@.len() == 0,
                self.phase == old(self).phase,
                self.syncer == old(self).syncer,
            decreases events.len() - k,
        {
            let ghost mid = *game;
            match queue.pop_front() {
                Some(e) => {
                    game.input(e);
                    proof {
                        assert(e == events[k]);
                        lemma_delivered_more(first, events, k, mid, *game);
                        assert(queue@ =~= events.skip(k + 1));
                        k = k + 1;
                    }
                },
                None => {
                    assert(events.take(k) =~= events);
                    break ;
                },
            }
        }
        let ghost fed = *game;
        game.update();
        let ghost moved = *game;
        game.render(&mut self.buff);
    }
}

} // verus!
