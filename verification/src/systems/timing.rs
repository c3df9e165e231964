//! The fixed-timestep clock: turns elapsed time into whole simulation
//! ticks. All times are nanoseconds on a clock of the caller's choosing.
use vstd::prelude::*;
use crate::scalar::{quotient, Scalar, SCALE};

verus! {

/// Nanoseconds in a second.
pub const NANOS_PER_SECOND: u64 = 1_000_000_000;

/// Length of one simulation tick: eight milliseconds.
pub const TICK_NANOS: u64 = 8_000_000;

/// How many ticks' worth of time one frame may add at most, so that a
/// stall is not followed by a burst.
pub const MAX_TICKS_PER_FRAME: u64 = 5;

/// `count` events in `nanos` nanoseconds as a rate per second, rounded to
/// nearest, halves up. Events in no time at all give the largest rate,
/// and no events in no time give zero.
pub open spec fn rate_per_second(count: nat, nanos: nat) -> nat {
    if nanos == 0 {
        if count == 0 {
            0
        } else {
            u32::MAX as nat
        }
    } else {
        let rounded = (2 * count * NANOS_PER_SECOND as nat + nanos) / (2 * nanos);
        if rounded > u32::MAX {
            u32::MAX as nat
        } else {
            rounded
        }
    }
}

/// Computes `rate_per_second`.
pub fn rate(count: u32, nanos: u64) -> (r: u32)
    ensures
        r == rate_per_second(count as nat, nanos as nat),
{
    if nanos == 0 {
        if count == 0 {
            0
        } else {
            u32::MAX
        }
    } else {
        assert(2 * count * NANOS_PER_SECOND <= 2 * 0xffff_ffff * NANOS_PER_SECOND)
            by (nonlinear_arith)
            requires
                0 <= count <= 0xffff_ffff,
                NANOS_PER_SECOND > 0,
        ;
        let doubled: u128 = 2 * (count as u128) * (NANOS_PER_SECOND as u128) + nanos as u128;
        let rounded: u128 = doubled / (2 * (nanos as u128));
        if rounded > u32::MAX as u128 {
            u32::MAX
        } else {
            rounded as u32
        }
    }
}

/// What a clock holds.
pub struct TimeState {
    /// Time simulated so far.
    pub sim_time: nat,
    /// When the clock was last ticked.
    pub last_update: nat,
    /// Time that has passed but is not yet simulated; less than a tick.
    pub accumulator: nat,
    /// When the frame rate was last reported.
    pub fps_timer: nat,
    /// Frames since then.
    pub fps_frame_count: nat,
    /// The frame rate last reported.
    pub current_fps: nat,
    pub paused: bool,
}

/// What one call of `tick` tells its caller.
pub struct Tick {
    /// Simulation ticks to run now.
    pub steps: u32,
    /// The frame rate, once per second.
    pub fps: Option<u32>,
    /// Whether anything changed that is worth drawing.
    pub redraw: bool,
    /// How far the clock is into the next tick, from zero to one.
    pub alpha: Scalar,
}

impl TimeState {
    /// Time since the last tick, nothing if `now` lies before it.
    pub open spec fn elapsed(self, now: nat) -> nat {
        if now >= self.last_update {
            (now - self.last_update) as nat
        } else {
            0
        }
    }

    /// Time that a tick at `now` adds to the accumulator: the elapsed
    /// time, five ticks at most.
    pub open spec fn gained(self, now: nat) -> nat {
        if self.elapsed(now) > MAX_TICKS_PER_FRAME * TICK_NANOS {
            (MAX_TICKS_PER_FRAME * TICK_NANOS) as nat
        } else {
            self.elapsed(now)
        }
    }

    /// Time since the frame rate was last reported.
    pub open spec fn since_report(self, now: nat) -> nat {
        if now >= self.fps_timer {
            (now - self.fps_timer) as nat
        } else {
            0
        }
    }

    /// Whether a tick at `now` reports the frame rate: a second has
    /// passed since the last report.
    pub open spec fn reports(self, now: nat) -> bool {
        !self.paused && self.since_report(now) >= NANOS_PER_SECOND
    }

    /// The frames counted once a tick at `now` has counted its own.
    pub open spec fn frames(self) -> nat {
        if self.fps_frame_count < u32::MAX {
            self.fps_frame_count + 1
        } else {
            self.fps_frame_count
        }
    }

    /// The state after a tick at `now`.
    pub open spec fn ticked(self, now: nat) -> TimeState {
        if self.paused {
            TimeState { last_update: now, accumulator: 0, ..self }
        } else {
            let total = self.accumulator + self.gained(now);
            let simulated = self.sim_time + (total / TICK_NANOS as nat) * TICK_NANOS as nat;
            TimeState {
                sim_time: if simulated > u64::MAX {
                    u64::MAX as nat
                } else {
                    simulated
                },
                last_update: now,
                accumulator: total % TICK_NANOS as nat,
                fps_timer: if self.reports(now) {
                    now
                } else {
                    self.fps_timer
                },
                fps_frame_count: if self.reports(now) {
                    0
                } else {
                    self.frames()
                },
                current_fps: if self.reports(now) {
                    rate_per_second(self.frames(), self.since_report(now))
                } else {
                    self.current_fps
                },
                ..self
            }
        }
    }

    /// What a tick at `now` returns.
    pub open spec fn tick(self, now: nat) -> Tick {
        if self.paused {
            Tick { steps: 0, fps: None, redraw: false, alpha: Scalar { raw: 0 } }
        } else {
            let total = self.accumulator + self.gained(now);
            let steps = total / TICK_NANOS as nat;
            Tick {
                steps: steps as u32,
                fps: if self.reports(now) {
                    Some(rate_per_second(self.frames(), self.since_report(now)) as u32)
                } else {
                    None
                },
                redraw: steps > 0 || self.reports(now),
                alpha: Scalar {
                    raw: quotient((total % TICK_NANOS as nat) * SCALE, TICK_NANOS as int) as i64,
                },
            }
        }
    }

    /// The state after the pause is toggled at `now`: on leaving the
    /// pause the clock starts afresh from `now`.
    pub open spec fn toggled(self, now: nat) -> TimeState {
        if self.paused {
            TimeState {
                paused: false,
                last_update: now,
                fps_timer: now,
                accumulator: 0,
                ..self
            }
        } else {
            TimeState { paused: true, ..self }
        }
    }
}

/// The simulation clock.
pub struct TimeSystem {
    sim_time: u64,
    last_update: u64,
    sim_accumulator: u64,
    fps_timer: u64,
    fps_frame_count: u32,
    current_fps: u32,
    paused: bool,
}

impl View for TimeSystem {
    type V = TimeState;

    closed spec fn view(&self) -> TimeState {
        TimeState {
            sim_time: self.sim_time as nat,
            last_update: self.last_update as nat,
            accumulator: self.sim_accumulator as nat,
            fps_timer: self.fps_timer as nat,
            fps_frame_count: self.fps_frame_count as nat,
            current_fps: self.current_fps as nat,
            paused: self.paused,
        }
    }
}

impl TimeSystem {
    /// Less than a tick is waiting.
    #[verifier::type_invariant]
    closed spec fn inv(self) -> bool {
        self.sim_accumulator < TICK_NANOS
    }

    /// A running clock started at `now`.
    pub fn new(now: u64) -> (clock: TimeSystem)
        ensures
            clock@ == (TimeState {
                sim_time: 0,
                last_update: now as nat,
                accumulator: 0,
                fps_timer: now as nat,
                fps_frame_count: 0,
                current_fps: 0,
                paused: false,
            }),
    {
        TimeSystem {
            sim_time: 0,
            last_update: now,
            sim_accumulator: 0,
            fps_timer: now,
            fps_frame_count: 0,
            current_fps: 0,
            paused: false,
        }
    }

    /// Length of a tick, in seconds.
    pub fn sim_dt(&self) -> (dt: Scalar)
        ensures
            dt@ == TICK_NANOS,
    {
        Scalar::from_raw(TICK_NANOS as i64)
    }

    /// Time simulated so far, in nanoseconds.
    pub fn sim_time(&self) -> (t: u64)
        ensures
            t == self@.sim_time,
    {
        self.sim_time
    }

    /// The frame rate last reported.
    pub fn current_fps(&self) -> (fps: u32)
        ensures
            fps == self@.current_fps,
    {
        self.current_fps
    }

    pub fn is_paused(&self) -> (paused: bool)
        ensures
            paused == self@.paused,
    {
        self.paused
    }

    /// Advances the clock to `now` and says how many ticks to simulate,
    /// the frame rate once a second, whether to redraw, and how far the
    /// clock is into the next tick.
    pub fn tick(&mut self, now: u64) -> (r: (u32, Option<u32>, bool, Scalar))
        ensures
            final(self)@ == old(self)@.ticked(now as nat),
            r.0 == old(self)@.tick(now as nat).steps,
            r.1 == old(self)@.tick(now as nat).fps,
            r.2 == old(self)@.tick(now as nat).redraw,
            r.3 == old(self)@.tick(now as nat).alpha,
            r.0 <= MAX_TICKS_PER_FRAME,
            0 <= r.3@ < SCALE,
    {
        proof {
            use_type_invariant(&*self);
        }
        let elapsed: u64 = if now >= self.last_update {
            now - self.last_update
        } else {
            0
        };
        self.last_update = now;
        if self.paused {
            self.sim_accumulator = 0;
            return (0, None, false, Scalar::zero());
        }
        let capped: u64 = if elapsed > MAX_TICKS_PER_FRAME * TICK_NANOS {
            MAX_TICKS_PER_FRAME * TICK_NANOS
        } else {
            elapsed
        };
        let total: u64 = self.sim_accumulator + capped;
        let steps: u64 = total / TICK_NANOS;
        let rest: u64 = total % TICK_NANOS;
        assert(steps <= MAX_TICKS_PER_FRAME);
        assert(steps * TICK_NANOS <= MAX_TICKS_PER_FRAME * TICK_NANOS) by (nonlinear_arith)
            requires
                steps <= MAX_TICKS_PER_FRAME,
        ;
        self.sim_accumulator = rest;
        self.sim_time = self.sim_time.saturating_add(steps * TICK_NANOS);
        let since: u64 = if now >= self.fps_timer {
            now - self.fps_timer
        } else {
            0
        };
        if self.fps_frame_count < u32::MAX {
            self.fps_frame_count = self.fps_frame_count + 1;
        }
        let mut fps_update: Option<u32> = None;
        if since >= NANOS_PER_SECOND {
            let fps: u32 = rate(self.fps_frame_count, since);
            self.current_fps = fps;
            self.fps_frame_count = 0;
            self.fps_timer = now;
            fps_update = Some(fps);
        }
        assert(rest * SCALE <= TICK_NANOS * SCALE) by (nonlinear_arith)
            requires
                rest <= TICK_NANOS,
                SCALE > 0,
        ;
        let alpha = Scalar::from_raw(rest as i64).div(Scalar::from_raw(TICK_NANOS as i64));
        proof {
            reveal(quotient);
            assert((rest * SCALE) / (TICK_NANOS as int) < SCALE) by (nonlinear_arith)
                requires
                    0 <= rest < TICK_NANOS,
                    TICK_NANOS > 0,
                    SCALE > 0,
            ;
            assert((rest * SCALE) / (TICK_NANOS as int) >= 0) by (nonlinear_arith)
                requires
                    0 <= rest,
                    TICK_NANOS > 0,
                    SCALE > 0,
            ;
        }
        (steps as u32, fps_update, steps > 0 || fps_update.is_some(), alpha)
    }

    /// Pauses a running clock, or lets a paused one run on from `now`.
    pub fn toggle_pause(&mut self, now: u64)
        ensures
            final(self)@ == old(self)@.toggled(now as nat),
    {
        proof {
            use_type_invariant(&*self);
        }
        self.paused = !self.paused;
        if !self.paused {
            self.last_update = now;
            self.fps_timer = now;
            self.sim_accumulator = 0;
        }
    }

    /// When the next tick falls due: one tick after the last update, or
    /// the end of time where that cannot be held.
    pub fn next_wakeup(&self) -> (at: u64)
        ensures
            at == if self@.last_update + TICK_NANOS > u64::MAX {
                u64::MAX as nat
            } else {
                self@.last_update + TICK_NANOS as nat
            },
    {
        self.last_update.saturating_add(TICK_NANOS)
    }
}

} // verus!
