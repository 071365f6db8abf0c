use vstd::prelude::*;

verus! {

/// A countdown ticked by frame time, in milliseconds. A one-shot timer stops
/// at its duration; a repeating one wraps around and keeps going.
#[derive(Clone, Copy, Debug, PartialEq, Eq, Structural)]
pub struct Timer {
    pub duration: u64,
    pub elapsed: u64,
    pub repeating: bool,
    /// The duration has been reached (for a repeating timer: on the last tick).
    pub finished: bool,
    /// The last tick reached the duration.
    pub just_finished: bool,
}

impl Timer {
    pub open spec fn well_formed(self) -> bool {
        &&& self.elapsed <= self.duration
        &&& self.repeating && self.duration > 0 ==> self.elapsed < self.duration
        &&& self.just_finished ==> self.finished
    }

    pub open spec fn once_spec(duration: u64) -> Timer {
        Timer { duration, elapsed: 0, repeating: false, finished: false, just_finished: false }
    }

    /// A one-shot timer that has not started.
    pub fn once(duration: u64) -> (r: Timer)
        ensures
            r.well_formed(),
            r == Timer::once_spec(duration),
    {
        Timer { duration, elapsed: 0, repeating: false, finished: false, just_finished: false }
    }

    pub open spec fn repeating_spec(duration: u64) -> Timer {
        Timer { duration, elapsed: 0, repeating: true, finished: false, just_finished: false }
    }

    /// A repeating timer that has not started.
    pub fn repeating(duration: u64) -> (r: Timer)
        ensures
            r.well_formed(),
            r == Timer::repeating_spec(duration),
    {
        Timer { duration, elapsed: 0, repeating: true, finished: false, just_finished: false }
    }

    /// Milliseconds left before the duration is reached.
    pub fn remaining(&self) -> (r: u64)
        requires
            self.well_formed(),
        ensures
            r == self.duration - self.elapsed,
    {
        self.duration - self.elapsed
    }

    /// Back to no elapsed time.
    pub fn reset(&mut self)
        ensures
            *final(self) == (Timer { elapsed: 0, finished: false, just_finished: false, ..*old(self) }),
            final(self).well_formed(),
    {
        self.elapsed = 0;
        self.finished = false;
        self.just_finished = false;
    }

    /// Spec of one tick of `dt` milliseconds.
    pub open spec fn ticked(self, dt: nat) -> Timer {
        if !self.repeating && self.finished {
            Timer { just_finished: false, ..self }
        } else if self.elapsed + dt >= self.duration {
            let e = if !self.repeating || self.duration == 0 {
                if self.repeating { 0 } else { self.duration }
            } else {
                ((self.elapsed + dt) as nat % (self.duration as nat)) as u64
            };
            Timer { elapsed: e, finished: true, just_finished: true, ..self }
        } else {
            Timer { elapsed: (self.elapsed + dt) as u64, finished: false, just_finished: false, ..self }
        }
    }

    /// Advances the timer by `dt` milliseconds; returns whether this tick
    /// reached the duration.
    pub fn tick(&mut self, dt: u64) -> (r: bool)
        requires
            old(self).well_formed(),
        ensures
            *final(self) == old(self).ticked(dt as nat),
            final(self).well_formed(),
            r == final(self).just_finished,
    {
        if !self.repeating && self.finished {
            self.just_finished = false;
            return false;
        }
        let left: u64 = self.duration - self.elapsed;
        if dt >= left {
            if !self.repeating {
                self.elapsed = self.duration;
            } else if self.duration == 0 {
                self.elapsed = 0;
            } else {
                let e: u128 = (self.elapsed as u128 + dt as u128) % (self.duration as u128);
                self.elapsed = e as u64;
            }
            self.finished = true;
            self.just_finished = true;
            true
        } else {
            self.elapsed = self.elapsed + dt;
            self.finished = false;
            self.just_finished = false;
            false
        }
    }
}

} // verus!
