//! A frame-driven countdown timer with pause/resume and "fired this tick"
//! edge detection. Durations and elapsed time are in milliseconds.
//!
//! A `Once` timer fires on the tick in which its accumulated time first
//! reaches its duration, and never again until it is reset. A `Repeating`
//! timer fires on every tick in which it reaches its duration and then keeps
//! the leftover time, so that a completion is reported exactly once even when
//! it lands precisely on a tick boundary.

use vstd::prelude::*;

verus! {

#[derive(Clone, Copy, Debug, PartialEq, Eq, Structural)]
pub enum TimerMode {
    Once,
    Repeating,
}

#[derive(Clone, Copy, Debug, PartialEq, Eq, Structural)]
pub struct GameTimer {
    pub duration: u64,
    pub elapsed: u64,
    pub mode: TimerMode,
    pub paused: bool,
}

impl GameTimer {
    /// Well-formedness: the duration is positive, and the elapsed time never
    /// runs past it (a repeating timer always keeps the remainder).
    pub open spec fn wf(self) -> bool {
        &&& self.duration >= 1
        &&& match self.mode {
            TimerMode::Once => self.elapsed <= self.duration,
            TimerMode::Repeating => self.elapsed < self.duration,
        }
    }

    /// The timer state after advancing by `dt` milliseconds.
    pub open spec fn spec_tick(self, dt: u64) -> GameTimer {
        if self.paused {
            self
        } else {
            match self.mode {
                TimerMode::Once => GameTimer {
                    elapsed: if self.elapsed + dt >= self.duration {
                        self.duration
                    } else {
                        (self.elapsed + dt) as u64
                    },
                    ..self
                },
                TimerMode::Repeating => GameTimer {
                    elapsed: ((self.elapsed + dt) % (self.duration as int)) as u64,
                    ..self
                },
            }
        }
    }

    /// Whether advancing by `dt` reports a completion on that tick.
    pub open spec fn spec_fires(self, dt: u64) -> bool {
        if self.paused {
            false
        } else {
            match self.mode {
                TimerMode::Once => self.elapsed < self.duration
                    && self.elapsed + dt >= self.duration,
                TimerMode::Repeating => self.elapsed + dt >= self.duration,
            }
        }
    }

    /// A `Once` timer that has already completed.
    pub open spec fn spec_finished(self) -> bool {
        self.elapsed >= self.duration
    }

    pub fn new(duration: u64, mode: TimerMode) -> (t: GameTimer)
        requires
            duration >= 1,
        ensures
            t.wf(),
            t == (GameTimer { duration, elapsed: 0, mode, paused: false }),
    {
        GameTimer { duration, elapsed: 0, mode, paused: false }
    }

    /// Advance the timer by `dt` milliseconds; the result says whether the
    /// timer completed on this tick.
    pub fn tick(&mut self, dt: u64) -> (fired: bool)
        requires
            old(self).wf(),
        ensures
            final(self).wf(),
            *final(self) == old(self).spec_tick(dt),
            fired == old(self).spec_fires(dt),
    {
        if self.paused {
            return false;
        }
        let sum: u128 = self.elapsed as u128 + dt as u128;
        match self.mode {
            TimerMode::Once => {
                let was_running = self.elapsed < self.duration;
                if sum >= self.duration as u128 {
                    self.elapsed = self.duration;
                    was_running
                } else {
                    self.elapsed = sum as u64;
                    false
                }
            },
            TimerMode::Repeating => {
                let fired = sum >= self.duration as u128;
                self.elapsed = (sum % (self.duration as u128)) as u64;
                fired
            },
        }
    }

    pub fn pause(&mut self)
        ensures
            *final(self) == (GameTimer { paused: true, ..*old(self) }),
    {
        self.paused = true;
    }

    pub fn unpause(&mut self)
        ensures
            *final(self) == (GameTimer { paused: false, ..*old(self) }),
    {
        self.paused = false;
    }

    pub fn reset(&mut self)
        ensures
            *final(self) == (GameTimer { elapsed: 0, ..*old(self) }),
    {
        self.elapsed = 0;
    }

    /// Give the timer a new duration and start it over from zero.
    pub fn restart_with(&mut self, duration: u64)
        requires
            duration >= 1,
        ensures
            final(self).wf(),
            *final(self) == (GameTimer { duration, elapsed: 0, ..*old(self) }),
    {
        self.duration = duration;
        self.elapsed = 0;
    }

    /// The timer after its duration is shortened by `cut`, floored at one
    /// millisecond, with the elapsed time clamped to keep it well-formed.
    pub open spec fn spec_shorten(self, cut: u64) -> GameTimer {
        let duration = if self.duration - cut >= 1 {
            (self.duration - cut) as u64
        } else {
            1u64
        };
        let cap = match self.mode {
            TimerMode::Once => duration,
            TimerMode::Repeating => (duration - 1) as u64,
        };
        GameTimer {
            duration,
            elapsed: if self.elapsed <= cap {
                self.elapsed
            } else {
                cap
            },
            ..self
        }
    }

    /// Shorten the duration by `cut` milliseconds, never below one
    /// millisecond; the elapsed time is clamped so the timer stays
    /// well-formed.
    pub fn shorten_duration(&mut self, cut: u64)
        requires
            old(self).wf(),
        ensures
            final(self).wf(),
            *final(self) == old(self).spec_shorten(cut),
    {
        let new_duration: u64 = if self.duration > cut && self.duration - cut >= 1 {
            self.duration - cut
        } else {
            1
        };
        self.duration = new_duration;
        match self.mode {
            TimerMode::Once => {
                if self.elapsed > new_duration {
                    self.elapsed = new_duration;
                }
            },
            TimerMode::Repeating => {
                if self.elapsed >= new_duration {
                    self.elapsed = new_duration - 1;
                }
            },
        }
    }

    /// A paused timer neither advances nor fires.
    pub proof fn lemma_paused_is_inert(self, dt: u64)
        requires
            self.paused,
        ensures
            self.spec_tick(dt) == self,
            !self.spec_fires(dt),
    {
    }

    /// A completion is reported exactly once: a `Once` timer that fires ends
    /// up finished, and a finished `Once` timer never fires again, no matter
    /// how it keeps being ticked.
    pub proof fn lemma_once_fires_at_most_once(self, dt1: u64, dt2: u64)
        requires
            self.wf(),
            self.mode == TimerMode::Once,
        ensures
            self.spec_fires(dt1) ==> self.spec_tick(dt1).spec_finished(),
            self.spec_finished() ==> !self.spec_fires(dt2),
            self.spec_finished() ==> self.spec_tick(dt2).spec_finished(),
    {
    }
}

} // verus!
