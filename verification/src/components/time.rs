//! The main loop's clock and a timer for diagnosing the cost of code.
use vstd::prelude::*;

use crate::clock::{elapsed, Duration, Instant};
use crate::misc::moments::population_variance;
use crate::misc::time::{
    is_population_sd, micros, reading_before, samples_add, samples_add_fits, samples_empty,
    SampleStats, Samples,
};

verus! {

/// The state of a `DiagnosticTimer`.
pub struct DiagnosticModel {
    pub is_recording: bool,
    pub begin_tick: nat,
    pub samples: Samples,
}

/// The state after `stop_record(now)`: a running record ends and its span is
/// added to the statistics; without a running record nothing changes.
pub open spec fn diagnostic_stop(m: DiagnosticModel, now: nat) -> DiagnosticModel {
    if m.is_recording {
        DiagnosticModel {
            is_recording: false,
            samples: samples_add(m.samples, elapsed(m.begin_tick, now)),
            ..m
        }
    } else {
        m
    }
}

/// Whether `stop_record(now)` stays within the range of the arithmetic.
pub open spec fn diagnostic_stop_fits(m: DiagnosticModel, now: nat) -> bool {
    m.is_recording ==> samples_add_fits(m.samples, elapsed(m.begin_tick, now))
}

/// The state after `start_record(now)`: a record starts unless one is
/// running already.
pub open spec fn diagnostic_start(m: DiagnosticModel, now: nat) -> DiagnosticModel {
    if m.is_recording {
        m
    } else {
        DiagnosticModel { is_recording: true, begin_tick: now, ..m }
    }
}

/// The state after each of the events `evs` in order: `(true, t)` starts a
/// record at `t`, `(false, t)` stops one at `t`.
pub open spec fn diagnostic_run(m: DiagnosticModel, evs: Seq<(bool, nat)>) -> DiagnosticModel
    decreases evs.len(),
{
    if evs.len() == 0 {
        m
    } else {
        let before = diagnostic_run(m, evs.drop_last());
        let (start, t) = evs.last();
        if start {
            diagnostic_start(before, t)
        } else {
            diagnostic_stop(before, t)
        }
    }
}

/// Whether the `i`-th of `evs` is a stop that directly follows a start (or,
/// for the first, a timer that was recording): the stops that finish a
/// record.
pub open spec fn completes_record(was_recording: bool, evs: Seq<(bool, nat)>, i: int) -> bool {
    &&& !evs[i].0
    &&& if i == 0 {
        was_recording
    } else {
        evs[i - 1].0
    }
}

/// How many of `evs` finish a record.
pub open spec fn completed_records(was_recording: bool, evs: Seq<(bool, nat)>) -> nat
    decreases evs.len(),
{
    if evs.len() == 0 {
        0
    } else {
        completed_records(was_recording, evs.drop_last()) + if completes_record(
            was_recording,
            evs,
            evs.len() - 1,
        ) {
            1nat
        } else {
            0nat
        }
    }
}

/// A `DiagnosticTimer` is recording exactly when the last event was a start
/// (or, with no event, when it was recording before), and it counts one
/// record for each stop that follows a start: starts while recording and
/// stops while idle change nothing.
pub proof fn lemma_diagnostic_history(m: DiagnosticModel, evs: Seq<(bool, nat)>)
    ensures
        diagnostic_run(m, evs).is_recording == if evs.len() == 0 {
            m.is_recording
        } else {
            evs.last().0
        },
        diagnostic_run(m, evs).samples.record_count == m.samples.record_count
            + completed_records(m.is_recording, evs),
    decreases evs.len(),
{
    if evs.len() > 0 {
        let rest = evs.drop_last();
        lemma_diagnostic_history(m, rest);
        if rest.len() > 0 {
            assert(rest.last() == evs[evs.len() - 2]);
        }
    }
}

/// A timer used to diagnose the performance of a piece of code.
#[derive(Clone, Copy)]
pub struct DiagnosticTimer {
    is_recording: bool,
    begin_tick: Instant,
    stats: SampleStats,
}

impl View for DiagnosticTimer {
    type V = DiagnosticModel;

    closed spec fn view(&self) -> DiagnosticModel {
        DiagnosticModel {
            is_recording: self.is_recording,
            begin_tick: self.begin_tick@,
            samples: self.stats@,
        }
    }
}

impl DiagnosticTimer {
    /// A timer created at `now` with a record already running.
    pub fn now(now: Instant) -> (t: DiagnosticTimer)
        ensures
            t@ == (DiagnosticModel {
                is_recording: true,
                begin_tick: now@,
                samples: samples_empty(),
            }),
    {
        DiagnosticTimer { is_recording: true, begin_tick: now, stats: SampleStats::new() }
    }

    /// A timer created at `now`, not recording.
    pub fn new(now: Instant) -> (t: DiagnosticTimer)
        ensures
            t@ == (DiagnosticModel {
                is_recording: false,
                begin_tick: now@,
                samples: samples_empty(),
            }),
    {
        DiagnosticTimer { is_recording: false, begin_tick: now, stats: SampleStats::new() }
    }

    /// Begins a record at `now`, unless one is running already.
    pub fn start_record(&mut self, now: Instant)
        ensures
            final(self)@ == diagnostic_start(old(self)@, now@),
    {
        if !self.is_recording {
            self.begin_tick = now;
            self.is_recording = true;
        }
    }

    /// Whether `stop_record(now)` stays within the range of the arithmetic.
    pub fn stop_fits(&self, now: Instant) -> (b: bool)
        ensures
            b == diagnostic_stop_fits(self@, now@),
    {
        if self.is_recording {
            let delta = now.duration_since(&self.begin_tick);
            self.stats.add_fits(delta)
        } else {
            true
        }
    }

    /// Finishes the running record at `now`, if there is one.
    pub fn stop_record(&mut self, now: Instant)
        requires
            diagnostic_stop_fits(old(self)@, now@),
        ensures
            final(self)@ == diagnostic_stop(old(self)@, now@),
    {
        if self.is_recording {
            let delta = now.duration_since(&self.begin_tick);
            self.stats.add(delta);
            self.is_recording = false;
        }
    }

    /// Whether a record is running.
    pub fn is_recording(&self) -> (b: bool)
        ensures
            b == self@.is_recording,
    {
        self.is_recording
    }

    /// The span of the last record.
    pub fn delta(&self) -> (d: Duration)
        ensures
            d@ == self@.samples.delta,
    {
        self.stats.delta()
    }

    /// The average of the recorded spans.
    pub fn delta_avg(&self) -> (d: Duration)
        ensures
            d@ == self@.samples.delta_avg,
    {
        self.stats.delta_avg()
    }

    /// The population standard deviation of the recorded spans, in whole
    /// microseconds.
    pub fn delta_sd(&self) -> (d: Duration)
        ensures
            is_population_sd(d@, self@.samples.micros),
    {
        self.stats.delta_sd()
    }

    /// The number of finished records.
    pub fn record_count(&self) -> (n: u64)
        ensures
            n == self@.samples.record_count,
            n <= u32::MAX,
    {
        self.stats.record_count()
    }

    /// The variance of the recorded spans, in microseconds².
    pub fn delta_variance_micros(&self) -> (v: u128)
        ensures
            v == population_variance(self@.samples.micros),
    {
        self.stats.delta_variance_micros()
    }
}

/// The state of a `Time`: its diagnostic timer, the instant it was created
/// at and the instant its last record ended (its creation while none has).
pub struct FrameStatsModel {
    pub timer: DiagnosticModel,
    pub start: nat,
    pub last_stop: nat,
}

/// The state after `stop_record(now)`.
pub open spec fn frame_stop(m: FrameStatsModel, now: nat) -> FrameStatsModel {
    FrameStatsModel {
        timer: diagnostic_stop(m.timer, now),
        last_stop: if m.timer.is_recording {
            now
        } else {
            m.last_stop
        },
        ..m
    }
}

/// The state after `tick(now)`: the running frame ends at `now` and the next
/// begins there.
pub open spec fn frame_tick(m: FrameStatsModel, now: nat) -> FrameStatsModel {
    let stopped = frame_stop(m, now);
    FrameStatsModel { timer: diagnostic_start(stopped.timer, now), ..stopped }
}

/// The state after ticks at each of the readings `nows`, in order.
pub open spec fn frame_run(m: FrameStatsModel, nows: Seq<nat>) -> FrameStatsModel
    decreases nows.len(),
{
    if nows.len() == 0 {
        m
    } else {
        frame_tick(frame_run(m, nows.drop_last()), nows.last())
    }
}

/// A running clock that ticks at the readings `nows` keeps recording, counts
/// one finished frame per tick, records each frame from the reading before
/// (or the start of the running frame) to its own, and its time runs from
/// its creation to the last reading.
pub proof fn lemma_frame_ticks(m: FrameStatsModel, nows: Seq<nat>)
    requires
        m.timer.is_recording,
    ensures
        frame_run(m, nows).timer.is_recording,
        frame_run(m, nows).start == m.start,
        frame_run(m, nows).timer.samples.record_count == m.timer.samples.record_count
            + nows.len(),
        frame_run(m, nows).timer.samples.micros == m.timer.samples.micros + Seq::new(
            nows.len(),
            |i: int| micros(elapsed(reading_before(m.timer.begin_tick, nows, i), nows[i])),
        ),
        nows.len() > 0 ==> frame_run(m, nows).last_stop == nows.last(),
        nows.len() > 0 ==> frame_run(m, nows).timer.begin_tick == nows.last(),
        nows.len() > 0 ==> frame_run(m, nows).timer.samples.delta == elapsed(
            reading_before(m.timer.begin_tick, nows, nows.len() - 1),
            nows.last(),
        ),
    decreases nows.len(),
{
    let f = |i: int| micros(elapsed(reading_before(m.timer.begin_tick, nows, i), nows[i]));
    if nows.len() == 0 {
        assert(m.timer.samples.micros + Seq::new(0, f) =~= m.timer.samples.micros);
    } else {
        let rest = nows.drop_last();
        let k = nows.len() - 1;
        lemma_frame_ticks(m, rest);
        if rest.len() > 0 {
            assert(rest.last() == nows[k - 1]);
        }
        let g = |i: int| micros(elapsed(reading_before(m.timer.begin_tick, rest, i), rest[i]));
        assert(Seq::new(nows.len(), f) =~= Seq::new(rest.len(), g).push(f(k)));
        assert(frame_run(m, rest).timer.begin_tick == reading_before(
            m.timer.begin_tick,
            nows,
            k,
        ));
        assert(m.timer.samples.micros + Seq::new(nows.len(), f) =~= (m.timer.samples.micros
            + Seq::new(rest.len(), g)).push(f(k)));
    }
}

/// The main loop's clock: each frame is one record of a diagnostic timer.
#[derive(Clone, Copy)]
pub struct Time {
    pt: DiagnosticTimer,
    start: Instant,
    last_stop: Instant,
}

impl View for Time {
    type V = FrameStatsModel;

    closed spec fn view(&self) -> FrameStatsModel {
        FrameStatsModel { timer: self.pt@, start: self.start@, last_stop: self.last_stop@ }
    }
}

impl Time {
    /// A clock started at `now`, its first frame running.
    pub fn now(now: Instant) -> (t: Time)
        ensures
            t@ == (FrameStatsModel {
                timer: DiagnosticModel {
                    is_recording: true,
                    begin_tick: now@,
                    samples: samples_empty(),
                },
                start: now@,
                last_stop: now@,
            }),
    {
        Time { pt: DiagnosticTimer::now(now), start: now, last_stop: now }
    }

    /// Begins a frame at `now`, unless one is running already.
    pub fn start_record(&mut self, now: Instant)
        ensures
            final(self)@ == (FrameStatsModel {
                timer: diagnostic_start(old(self)@.timer, now@),
                ..old(self)@
            }),
    {
        self.pt.start_record(now);
    }

    /// Whether `stop_record(now)` and `tick(now)` stay within the range of
    /// the arithmetic.
    pub fn stop_fits(&self, now: Instant) -> (b: bool)
        ensures
            b == diagnostic_stop_fits(self@.timer, now@),
    {
        self.pt.stop_fits(now)
    }

    /// Finishes the running frame at `now`, if there is one.
    pub fn stop_record(&mut self, now: Instant)
        requires
            diagnostic_stop_fits(old(self)@.timer, now@),
        ensures
            final(self)@ == frame_stop(old(self)@, now@),
    {
        if self.pt.is_recording() {
            self.last_stop = now;
        }
        self.pt.stop_record(now);
    }

    /// Whether a frame is running.
    pub fn is_recording(&self) -> (b: bool)
        ensures
            b == self@.timer.is_recording,
    {
        self.pt.is_recording()
    }

    /// Finishes the running frame at `now` and begins the next one, like
    /// pressing a stopwatch.
    pub fn tick(&mut self, now: Instant)
        requires
            diagnostic_stop_fits(old(self)@.timer, now@),
        ensures
            final(self)@ == frame_tick(old(self)@, now@),
    {
        self.stop_record(now);
        self.start_record(now);
    }

    /// The span of the last frame.
    pub fn delta(&self) -> (d: Duration)
        ensures
            d@ == self@.timer.samples.delta,
    {
        self.pt.delta()
    }

    /// The average span of the frames.
    pub fn delta_avg(&self) -> (d: Duration)
        ensures
            d@ == self@.timer.samples.delta_avg,
    {
        self.pt.delta_avg()
    }

    /// The population standard deviation of the frame spans, in whole
    /// microseconds.
    pub fn delta_sd(&self) -> (d: Duration)
        ensures
            is_population_sd(d@, self@.timer.samples.micros),
    {
        self.pt.delta_sd()
    }

    /// The number of finished frames.
    pub fn record_count(&self) -> (n: u64)
        ensures
            n == self@.timer.samples.record_count,
            n <= u32::MAX,
    {
        self.pt.record_count()
    }

    /// The population variance of the frame spans, in microseconds².
    pub fn delta_variance_micros(&self) -> (v: u128)
        ensures
            v == population_variance(self@.timer.samples.micros),
    {
        self.pt.delta_variance_micros()
    }

    /// The time from the clock's creation to the end of its last finished
    /// frame.
    pub fn time(&self) -> (d: Duration)
        ensures
            d@ == elapsed(self@.start, self@.last_stop),
    {
        self.last_stop.duration_since(&self.start)
    }
}

/// Stopping a clock that is not recording changes nothing, and starting
/// one that is recording changes nothing. Stopping a recording clock ends
/// its frame at `now`: one more finished frame, spanning from the frame's
/// start to `now`, and the clock's time now runs to `now`. Starting an idle
/// clock begins a frame at `now` and keeps the statistics. So the end of
/// the clock's time moves only when a frame finishes.
pub proof fn lemma_stop_start_effects(m: FrameStatsModel, now: nat)
    ensures
        !m.timer.is_recording ==> frame_stop(m, now) == m,
        !m.timer.is_recording ==> diagnostic_stop(m.timer, now) == m.timer,
        m.timer.is_recording ==> diagnostic_start(m.timer, now) == m.timer,
        m.timer.is_recording ==> {
            let r = frame_stop(m, now);
            &&& !r.timer.is_recording
            &&& r.last_stop == now
            &&& r.start == m.start
            &&& r.timer.samples.record_count == m.timer.samples.record_count + 1
            &&& r.timer.samples.delta == elapsed(m.timer.begin_tick, now)
        },
        !m.timer.is_recording ==> {
            let r = diagnostic_start(m.timer, now);
            &&& r.is_recording
            &&& r.begin_tick == now
            &&& r.samples == m.timer.samples
        },
        frame_stop(m, now).last_stop != m.last_stop ==> frame_stop(m, now).timer.samples.record_count
            == m.timer.samples.record_count + 1,
{
}

} // verus!
