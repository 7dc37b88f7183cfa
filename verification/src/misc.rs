use vstd::prelude::*;

pub mod color;
pub mod coordinates;
pub mod moments;
pub mod time;

pub use time::{PulseTimer, TickTimer};

use crate::clock::{elapsed, Duration, Instant};
use crate::misc::time::reading_before;

verus! {

/// The state of a frame clock.
pub struct FrameModel {
    pub start_tick: nat,
    pub last_tick: nat,
    pub delta: nat,
    pub tick_count: nat,
}

/// A frame clock: the time since it started, the time between the last two
/// frames and the number of frames.
#[derive(Clone, Copy, Debug)]
pub struct Time {
    start_tick: Instant,
    last_tick: Instant,
    delta: Duration,
    tick_count: u32,
}

impl View for Time {
    type V = FrameModel;

    closed spec fn view(&self) -> FrameModel {
        FrameModel {
            start_tick: self.start_tick@,
            last_tick: self.last_tick@,
            delta: self.delta@,
            tick_count: self.tick_count as nat,
        }
    }
}

/// A frame clock started at `now`.
pub open spec fn frame_start(now: nat) -> FrameModel {
    FrameModel { start_tick: now, last_tick: now, delta: 0, tick_count: 0 }
}

/// The state after a frame recorded at `now`.
pub open spec fn frame_clock_tick(m: FrameModel, now: nat) -> FrameModel {
    FrameModel {
        last_tick: now,
        delta: elapsed(m.last_tick, now),
        tick_count: m.tick_count + 1,
        ..m
    }
}

/// The state after frames recorded at each of the readings `nows`, in order.
pub open spec fn frame_clock_run(m: FrameModel, nows: Seq<nat>) -> FrameModel
    decreases nows.len(),
{
    if nows.len() == 0 {
        m
    } else {
        frame_clock_tick(frame_clock_run(m, nows.drop_last()), nows.last())
    }
}

/// After frames at the readings `nows`, a frame clock has counted each of
/// them, keeps its start, has its last frame at the last reading and its
/// delta as the time since the reading before (or since its last frame
/// before the run); with no frame its state is unchanged, so a clock just
/// started or reset has a delta of zero.
pub proof fn lemma_frame_clock_ticks(m: FrameModel, nows: Seq<nat>)
    ensures
        frame_clock_run(m, nows).tick_count == m.tick_count + nows.len(),
        frame_clock_run(m, nows).start_tick == m.start_tick,
        nows.len() == 0 ==> frame_clock_run(m, nows) == m,
        nows.len() > 0 ==> frame_clock_run(m, nows).last_tick == nows.last(),
        nows.len() > 0 ==> frame_clock_run(m, nows).delta == elapsed(
            reading_before(m.last_tick, nows, nows.len() - 1),
            nows.last(),
        ),
    decreases nows.len(),
{
    if nows.len() > 0 {
        let rest = nows.drop_last();
        lemma_frame_clock_ticks(m, rest);
        if rest.len() > 0 {
            assert(rest.last() == nows[nows.len() - 2]);
        }
    }
}

impl Time {
    /// A frame clock started at `now`.
    pub fn now(now: Instant) -> (t: Time)
        ensures
            t@ == frame_start(now@),
    {
        Time { start_tick: now, last_tick: now, delta: Duration::default(), tick_count: 0 }
    }

    /// Records a frame at `now`; the count must not be at its maximum (the
    /// increment would overflow).
    pub fn tick(&mut self, now: Instant)
        requires
            old(self)@.tick_count < u32::MAX,
        ensures
            final(self)@ == frame_clock_tick(old(self)@, now@),
    {
        self.delta = now.duration_since(&self.last_tick);
        self.last_tick = now;
        self.tick_count = self.tick_count + 1;
    }

    /// Restarts the clock at `now`.
    pub fn reset(&mut self, now: Instant)
        ensures
            final(self)@ == frame_start(now@),
    {
        self.start_tick = now;
        self.last_tick = now;
        self.delta = Duration::default();
        self.tick_count = 0;
    }

    /// The time from the start to the last frame.
    pub fn time(&self) -> (d: Duration)
        ensures
            d@ == elapsed(self@.start_tick, self@.last_tick),
    {
        self.last_tick.duration_since(&self.start_tick)
    }

    /// The time between the last two frames.
    pub fn delta(&self) -> (d: Duration)
        ensures
            d@ == self@.delta,
    {
        self.delta
    }

    /// The number of frames since the start.
    pub fn tick_count(&self) -> (n: u32)
        ensures
            n == self@.tick_count,
    {
        self.tick_count
    }
}

} // verus!
