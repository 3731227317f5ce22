use vstd::prelude::*;

verus! {

/// A countdown in microseconds. It fires on the tick that uses up what is
/// left of it, and then starts over from its full duration; time beyond the
/// firing point is not carried over.
#[derive(Clone, Copy, Debug, PartialEq, Eq, Structural)]
pub struct Countdown {
    pub duration: u64,
    pub remaining: u64,
}

impl Countdown {
    pub open spec fn wf(self) -> bool {
        self.remaining <= self.duration
    }

    /// The countdown started over from its full duration.
    pub open spec fn restarted(self) -> Countdown {
        Countdown { duration: self.duration, remaining: self.duration }
    }

    /// The countdown after `elapsed` microseconds, and whether it fired.
    pub open spec fn ticked(self, elapsed: u64) -> (Countdown, bool) {
        if elapsed >= self.remaining {
            (self.restarted(), true)
        } else {
            (Countdown { duration: self.duration, remaining: (self.remaining - elapsed) as u64 }, false)
        }
    }

    /// A countdown of `duration` microseconds that has not started to run.
    pub fn new(duration: u64) -> (r: Countdown)
        ensures
            r.duration == duration,
            r.remaining == duration,
    {
        Countdown { duration, remaining: duration }
    }

    pub fn reset(&mut self)
        ensures
            *final(self) == old(self).restarted(),
    {
        self.remaining = self.duration;
    }

    /// Lets `elapsed` microseconds pass; returns whether the countdown fired.
    pub fn tick(&mut self, elapsed: u64) -> (fired: bool)
        ensures
            (*final(self), fired) == old(self).ticked(elapsed),
    {
        if elapsed >= self.remaining {
            self.remaining = self.duration;
            true
        } else {
            self.remaining = self.remaining - elapsed;
            false
        }
    }
}

/// The four countdowns of a game: gravity, the repeat rates of a held
/// sideways move and of a held soft drop, and the lock delay of a grounded
/// piece.
#[derive(Clone, Copy, Debug, PartialEq, Eq, Structural)]
pub struct Timers {
    pub gravity: Countdown,
    pub move_x: Countdown,
    pub move_y: Countdown,
    pub lock_delay: Countdown,
}

impl Timers {
    pub open spec fn wf(self) -> bool {
        self.gravity.wf() && self.move_x.wf() && self.move_y.wf() && self.lock_delay.wf()
    }

    /// Countdowns with the given durations, in microseconds, none started.
    pub fn new(gravity: u64, move_x: u64, move_y: u64, lock_delay: u64) -> (r: Timers)
        ensures
            r.gravity.duration == gravity && r.gravity.remaining == gravity,
            r.move_x.duration == move_x && r.move_x.remaining == move_x,
            r.move_y.duration == move_y && r.move_y.remaining == move_y,
            r.lock_delay.duration == lock_delay && r.lock_delay.remaining == lock_delay,
    {
        Timers {
            gravity: Countdown::new(gravity),
            move_x: Countdown::new(move_x),
            move_y: Countdown::new(move_y),
            lock_delay: Countdown::new(lock_delay),
        }
    }
}

} // verus!
