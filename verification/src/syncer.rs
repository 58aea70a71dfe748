//! The frame scheduler: a deadline that moves on by one interval per tick,
//! however long the frame took.
use vstd::prelude::*;
use std::time::Instant;

verus! {

/// `std::time::Instant`, a reading of the monotonic clock. Nothing is known
/// of what it holds.
#[verifier::external_type_specification]
#[verifier::external_body]
pub struct ExInstant(Instant);

/// `Instant::now` reads the clock: nothing is claimed of what it returns.
pub assume_specification[ Instant::now ]() -> (now: Instant)
;

/// `Instant::elapsed` reads the clock again: nothing is claimed of what it
/// returns.
pub assume_specification[ Instant::elapsed ](then: &Instant) -> (gone: core::time::Duration)
;

/// `Duration::as_nanos` gives a span in nanoseconds: nothing is claimed of
/// what it returns, since nothing is known of the span.
pub assume_specification[ core::time::Duration::as_nanos ](span: &core::time::Duration) -> (nanos:
    u128)
;

/// A scheduler as a value. Times are in nanoseconds since the scheduler was
/// made.
pub struct Schedule {
    /// The length of one frame.
    pub interval: nat,
    /// When the frame under way is due to end.
    pub deadline: nat,
}

impl Schedule {
    /// The scheduler at the start of the first frame.
    pub open spec fn fresh(interval: nat) -> Schedule {
        Schedule { interval, deadline: interval }
    }

    /// How long a tick at time `elapsed` waits: until the deadline, or not
    /// at all where the deadline has passed.
    pub open spec fn wait(self, elapsed: nat) -> nat {
        if elapsed < self.deadline {
            (self.deadline - elapsed) as nat
        } else {
            0
        }
    }

    /// When a tick at time `elapsed` is over.
    pub open spec fn wake(self, elapsed: nat) -> nat {
        elapsed + self.wait(elapsed)
    }

    /// The scheduler after a tick: the deadline is one interval later.
    pub open spec fn next(self) -> Schedule {
        Schedule { interval: self.interval, deadline: self.deadline + self.interval }
    }

    /// The scheduler after `k` ticks.
    pub open spec fn after(self, k: nat) -> Schedule
        decreases k,
    {
        if k == 0 {
            self
        } else {
            self.after((k - 1) as nat).next()
        }
    }

    /// When the last of `k` ticks in a row is over, the first made at time
    /// `from` and each later one as soon as the one before is over.
    pub open spec fn steady(self, from: nat, k: nat) -> nat
        decreases k,
    {
        if k == 0 {
            from
        } else {
            self.next().steady(self.wake(from), (k - 1) as nat)
        }
    }
}

/// After `k` ticks the deadline is `k` intervals later, whenever the ticks
/// were made.
pub proof fn lemma_no_drift(s: Schedule, k: nat)
    ensures
        s.after(k).interval == s.interval,
        s.after(k).deadline == s.deadline + k * s.interval,
    decreases k,
{
    if k > 0 {
        lemma_no_drift(s, (k - 1) as nat);
        assert(k * s.interval == (k - 1) * s.interval + s.interval) by (nonlinear_arith);
    } else {
        assert(k * s.interval == 0) by (nonlinear_arith)
            requires
                k == 0,
        ;
    }
}

/// A tick is over at the deadline, or at once where the deadline has
/// passed, and never waits longer than to the deadline.
pub proof fn lemma_wake(s: Schedule, elapsed: nat)
    ensures
        elapsed <= s.deadline ==> s.wake(elapsed) == s.deadline,
        elapsed >= s.deadline ==> s.wait(elapsed) == 0 && s.wake(elapsed) == elapsed,
        s.wait(elapsed) <= s.deadline,
{
}

/// Ticks in a row take one interval each: where the first of `k` ticks is
/// made no later than its deadline, the last is over `k - 1` intervals
/// after that deadline.
pub proof fn lemma_steady(s: Schedule, from: nat, k: nat)
    requires
        k > 0,
        from <= s.deadline,
    ensures
        s.steady(from, k) == s.deadline + (k - 1) * s.interval,
    decreases k,
{
    if k > 1 {
        lemma_steady(s.next(), s.wake(from), (k - 1) as nat);
        assert((k - 1) * s.interval == (k - 2) * s.interval + s.interval) by (nonlinear_arith);
    } else {
        assert(s.next().steady(s.wake(from), 0) == s.wake(from));
    }
}

/// From a fresh scheduler, `k` ticks in a row take `k` intervals.
pub proof fn lemma_steady_from_fresh(interval: nat, k: nat)
    ensures
        Schedule::fresh(interval).steady(0, k) == k * interval,
{
    if k > 0 {
        lemma_steady(Schedule::fresh(interval), 0, k);
        assert(interval + (k - 1) * interval == k * interval) by (nonlinear_arith);
    } else {
        assert(0 * interval == 0) by (nonlinear_arith);
    }
}

/// The frame scheduler.
pub struct Syncer {
    interval: u128,
    deadline: u128,
    origin: Instant,
}

impl View for Syncer {
    type V = Schedule;

    closed spec fn view(&self) -> Schedule {
        Schedule { interval: self.interval as nat, deadline: self.deadline as nat }
    }
}

impl Syncer {
    /// A scheduler for frames of `interval` nanoseconds, started now.
    pub fn new(interval: u128) -> (s: Syncer)
        ensures
            s@ == Schedule::fresh(interval as nat),
    {
        Syncer { interval, deadline: interval, origin: Instant::now() }
    }

    /// A scheduler for `fps` frames in a second, started now. A frame
    /// lasts a whole number of nanoseconds, rounded down.
    pub fn from_fps(fps: u32) -> (s: Syncer)
        requires
            fps > 0,
        ensures
            s@ == Schedule::fresh((1_000_000_000int / fps as int) as nat),
    {
        Self::new(1_000_000_000u128 / (fps as u128))
    }

    /// The length of one frame, in nanoseconds.
    pub fn interval(&self) -> (interval: u128)
        ensures
            interval == self@.interval,
    {
        self.interval
    }

    /// When the frame under way is due to end, in nanoseconds since the
    /// scheduler was made.
    pub fn deadline(&self) -> (deadline: u128)
        ensures
            deadline == self@.deadline,
    {
        self.deadline
    }

    /// Whether the deadline has come as far as the clock can count, so that
    /// no further tick can be made.
    pub fn exhausted(&self) -> (spent: bool)
        ensures
            spent == (self@.deadline + self@.interval > u128::MAX),
    {
        self.deadline > u128::MAX - self.interval
    }

    /// One tick at the time `elapsed`, in nanoseconds since the scheduler
    /// was made: says how long to wait and moves the deadline on by exactly
    /// one interval, also where the deadline has passed.
    pub fn advance(&mut self, elapsed: u128) -> (wait: u128)
        requires
            old(self)@.deadline + old(self)@.interval <= u128::MAX,
        ensures
            wait == old(self)@.wait(elapsed as nat),
            final(self)@ == old(self)@.next(),
    {
        let wait = if elapsed < self.deadline {
            self.deadline - elapsed
        } else {
            0
        };
        self.deadline = self.deadline + self.interval;
        wait
    }

    /// One tick now: reads the clock and makes the tick at that time. The
    /// caller sleeps for the nanoseconds returned.
    pub fn sync(&mut self) -> (wait: u128)
        requires
            old(self)@.deadline + old(self)@.interval <= u128::MAX,
        ensures
            wait <= old(self)@.deadline,
            final(self)@ == old(self)@.next(),
    {
        let gone = self.origin.elapsed();
        let elapsed = gone.as_nanos();
        self.advance(elapsed)
    }
}

} // verus!
