//! Countdown timers driven by elapsed time. Time is counted in nanoseconds.

use vstd::prelude::*;

verus! {

/// What a timer does when it reaches its duration.
#[derive(Clone, Copy, PartialEq, Eq, Structural, Debug)]
pub enum TimerMode {
    /// Stops at its duration and stays finished until it is reset.
    Once,
    /// Starts over at its duration, carrying the remainder.
    Repeating,
}

/// A countdown of `duration` nanoseconds.
#[derive(Clone, Copy, PartialEq, Eq, Structural, Debug)]
pub struct Timer {
    pub elapsed: u64,
    pub duration: u64,
    pub mode: TimerMode,
    pub finished: bool,
    pub times_finished_this_tick: u32,
}

impl Timer {
    /// The states that a timer can be in: a one-shot timer never runs past
    /// its duration and is at it when finished; a repeating timer stays below
    /// its duration.
    pub open spec fn wf(self) -> bool {
        match self.mode {
            TimerMode::Once => {
                &&& self.elapsed <= self.duration
                &&& self.finished ==> self.elapsed == self.duration
            },
            TimerMode::Repeating => {
                &&& self.duration > 0 ==> self.elapsed < self.duration
                &&& self.duration == 0 ==> self.elapsed == 0
            },
        }
    }

    /// A timer that has not run yet.
    pub open spec fn fresh(duration: u64, mode: TimerMode) -> Timer {
        Timer { elapsed: 0, duration, mode, finished: false, times_finished_this_tick: 0 }
    }

    /// The timer after `delta` more nanoseconds.
    ///
    /// A finished one-shot timer stays as it is. A one-shot timer that reaches
    /// its duration stops there and finishes once. A repeating timer finishes
    /// once for each whole duration in the time that has run up, keeps the
    /// remainder, and is finished only in the tick in which it fired. The
    /// count of a tick is kept in 32 bits: of a count that does not fit, the
    /// lowest 32 bits are kept. With a duration of zero the timer fires without
    /// end, which is counted as `u32::MAX`.
    pub open spec fn ticked(self, delta: u64) -> Timer {
        let total: int = self.elapsed + delta;
        match self.mode {
            TimerMode::Once => {
                if self.finished {
                    Timer { times_finished_this_tick: 0, ..self }
                } else if total >= self.duration {
                    Timer {
                        elapsed: self.duration,
                        finished: true,
                        times_finished_this_tick: 1,
                        ..self
                    }
                } else {
                    Timer {
                        elapsed: total as u64,
                        finished: false,
                        times_finished_this_tick: 0,
                        ..self
                    }
                }
            },
            TimerMode::Repeating => {
                if self.duration == 0 {
                    Timer {
                        elapsed: 0,
                        finished: true,
                        times_finished_this_tick: u32::MAX,
                        ..self
                    }
                } else if total >= self.duration {
                    let times: int = total / (self.duration as int);
                    Timer {
                        elapsed: (total % (self.duration as int)) as u64,
                        finished: true,
                        times_finished_this_tick: (times % 0x1_0000_0000) as u32,
                        ..self
                    }
                } else {
                    Timer {
                        elapsed: total as u64,
                        finished: false,
                        times_finished_this_tick: 0,
                        ..self
                    }
                }
            },
        }
    }

    /// The timer set back to its start.
    pub open spec fn rewound(self) -> Timer {
        Timer { elapsed: 0, finished: false, times_finished_this_tick: 0, ..self }
    }

    /// Ticking keeps a timer well-formed, and never changes its duration or
    /// its mode.
    pub proof fn lemma_ticked_wf(self, delta: u64)
        requires
            self.wf(),
        ensures
            self.ticked(delta).wf(),
            self.ticked(delta).duration == self.duration,
            self.ticked(delta).mode == self.mode,
    {
        if self.mode == TimerMode::Repeating && self.duration > 0 {
            let total: int = self.elapsed + delta;
            let d: int = self.duration as int;
            assert(0 <= total % d < d) by (nonlinear_arith)
                requires
                    d > 0,
                    total >= 0,
            ;
        }
    }

    pub fn new(duration: u64, mode: TimerMode) -> (t: Timer)
        ensures
            t == Timer::fresh(duration, mode),
            t.wf(),
    {
        Timer { elapsed: 0, duration, mode, finished: false, times_finished_this_tick: 0 }
    }

    /// Advances the timer by `delta` nanoseconds.
    pub fn tick(&mut self, delta: u64)
        requires
            old(self).wf(),
        ensures
            *final(self) == old(self).ticked(delta),
            final(self).wf(),
    {
        proof {
            self.lemma_ticked_wf(delta);
        }
        let total: u128 = self.elapsed as u128 + delta as u128;
        let d: u128 = self.duration as u128;
        match self.mode {
            TimerMode::Once => {
                if self.finished {
                    self.times_finished_this_tick = 0;
                } else if total >= d {
                    self.elapsed = self.duration;
                    self.finished = true;
                    self.times_finished_this_tick = 1;
                } else {
                    self.elapsed = total as u64;
                    self.finished = false;
                    self.times_finished_this_tick = 0;
                }
            },
            TimerMode::Repeating => {
                if self.duration == 0 {
                    self.elapsed = 0;
                    self.finished = true;
                    self.times_finished_this_tick = u32::MAX;
                } else if total >= d {
                    let times: u128 = total / d;
                    let rest: u128 = total % d;
                    assert(0 <= rest < d) by (nonlinear_arith)
                        requires
                            d > 0,
                            rest == total % d,
                    ;
                    self.elapsed = rest as u64;
                    self.finished = true;
                    self.times_finished_this_tick = (times % 4_294_967_296) as u32;
                } else {
                    self.elapsed = total as u64;
                    self.finished = false;
                    self.times_finished_this_tick = 0;
                }
            },
        }
    }

    /// Sets the timer back to its start.
    pub fn reset(&mut self)
        ensures
            *final(self) == old(self).rewound(),
            old(self).wf() ==> final(self).wf(),
    {
        self.elapsed = 0;
        self.finished = false;
        self.times_finished_this_tick = 0;
    }

    /// Whether the timer has reached its duration: for a repeating timer, in
    /// the last tick.
    pub fn finished(&self) -> (b: bool)
        ensures
            b == self.finished,
    {
        self.finished
    }

    /// Whether the timer reached its duration in the last tick.
    pub fn just_finished(&self) -> (b: bool)
        ensures
            b == (self.times_finished_this_tick > 0),
    {
        self.times_finished_this_tick > 0
    }

    pub fn times_finished_this_tick(&self) -> (n: u32)
        ensures
            n == self.times_finished_this_tick,
    {
        self.times_finished_this_tick
    }

    pub fn elapsed(&self) -> (nanos: u64)
        ensures
            nanos == self.elapsed,
    {
        self.elapsed
    }

    pub fn duration(&self) -> (nanos: u64)
        ensures
            nanos == self.duration,
    {
        self.duration
    }

    pub fn mode(&self) -> (m: TimerMode)
        ensures
            m == self.mode,
    {
        self.mode
    }
}

} // verus!
