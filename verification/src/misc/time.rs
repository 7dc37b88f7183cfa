//! Timers driven by readings of a monotonic clock.
//!
//! Every operation that the engine performs "now" takes the reading of the
//! clock as its argument, so that what a timer does is a function of the
//! readings it is handed.
use vstd::prelude::*;

use crate::clock::{elapsed, max_nanos, Duration, Instant};
use crate::misc::moments::{
    floor_sqrt, is_floor_sqrt, lemma_equal_values_no_variance, moments_add_fits,
    population_variance, seq_sum, Moments,
};

verus! {

// ---------------------------------------------------------------------------
// Shared arithmetic
// ---------------------------------------------------------------------------

/// The interval between two ticks of a clock that ticks `ticks_per_second`
/// times a second: a second divided by the rate, rounded down to the
/// nanosecond; one second for a rate of one; and the longest whole number of
/// seconds (a clock that never ticks) for a rate of zero.
pub open spec fn target_delta_nanos(ticks_per_second: u32) -> nat {
    if ticks_per_second == 0 {
        u64::MAX as nat * 1_000_000_000
    } else if ticks_per_second == 1 {
        1_000_000_000
    } else {
        1_000_000_000nat / (ticks_per_second as nat)
    }
}

/// The interval between two ticks at `ticks_per_second`.
pub(crate) fn target_delta(ticks_per_second: u32) -> (d: Duration)
    ensures
        d@ == target_delta_nanos(ticks_per_second),
{
    if ticks_per_second == 0 {
        Duration::new(u64::MAX, 0)
    } else if ticks_per_second == 1 {
        Duration::new(1, 0)
    } else {
        let nanos: u32 = 1_000_000_000u32 / ticks_per_second;
        Duration::new(0, nanos)
    }
}

/// The whole microseconds of a span of `nanos` nanoseconds.
pub open spec fn micros(nanos: nat) -> nat {
    nanos / 1000
}

/// A sample average taken over `count` samples (the count converted to
/// `u32`, wrapping) extended by one more sample `delta`.
pub open spec fn next_average(avg: nat, count: nat, delta: nat) -> nat {
    let c = (count as u32) as nat;
    (avg * c + delta) / (c + 1)
}

/// Whether extending the average stays within the range of the arithmetic
/// (the standard library panics otherwise).
pub open spec fn next_average_fits(avg: nat, count: nat, delta: nat) -> bool {
    let c = (count as u32) as nat;
    &&& c < u32::MAX
    &&& avg * c + delta <= max_nanos()
}

/// The average `avg` of `count` samples extended by the sample `delta`.
pub(crate) fn extend_average(avg: Duration, count: u64, delta: Duration) -> (a: Duration)
    requires
        next_average_fits(avg@, count as nat, delta@),
    ensures
        a@ == next_average(avg@, count as nat, delta@),
{
    let c: u32 = count as u32;
    proof {
        assert(avg@ * c <= avg@ * c + delta@);
    }
    let total = avg.mul(c).add(delta);
    total.div(c + 1)
}

/// The standard deviation of the values `vs`, in microseconds, as a span:
/// the square root of their population variance, rounded down to a whole
/// microsecond.
pub open spec fn is_population_sd(d: nat, vs: Seq<nat>) -> bool {
    d % 1000 == 0 && is_floor_sqrt(d / 1000, population_variance(vs))
}

/// The standard deviation of the values recorded in `m`.
pub(crate) fn standard_deviation(m: &Moments) -> (d: Duration)
    ensures
        is_population_sd(d@, m@),
{
    let sd = floor_sqrt(m.variance());
    proof {
        assert(sd < 0x1_0000_0000_0000_0000) by (nonlinear_arith)
            requires
                sd * sd <= u128::MAX,
        ;
    }
    Duration::from_micros(sd as u64)
}

/// Equal spans give a standard deviation of zero.
pub proof fn lemma_equal_spans_no_deviation(vs: Seq<nat>, c: nat, d: nat)
    requires
        forall|i: int| 0 <= i < vs.len() ==> vs[i] == c,
        is_population_sd(d, vs),
    ensures
        d == 0,
{
    lemma_equal_values_no_variance(vs, c);
    let r = d / 1000;
    assert(r == 0) by (nonlinear_arith)
        requires
            r * r <= 0,
    ;
}

/// The reading that came before the `i`-th of `nows`: `from` for the first.
pub open spec fn reading_before(from: nat, nows: Seq<nat>, i: int) -> nat {
    if i == 0 {
        from
    } else {
        nows[i - 1]
    }
}

// ---------------------------------------------------------------------------
// PulseTimer
// ---------------------------------------------------------------------------

/// The state of a `PulseTimer`, instants and spans in nanoseconds.
pub struct PulseModel {
    pub ticks_per_second: u32,
    pub target_delta: nat,
    pub last_update: nat,
    pub prev_tick: nat,
    pub last_tick: nat,
    pub total_time: nat,
    pub accumulated_time: nat,
}

/// A fixed-rate clock: it accumulates the time that passes between updates
/// and fires once each time a whole interval has accumulated.
#[derive(Clone, Copy, Debug)]
pub struct PulseTimer {
    target_ticks: u32,
    target_delta: Duration,
    last_update: Instant,
    prev_tick: Instant,
    last_tick: Instant,
    total_time: Duration,
    accumulated_time: Duration,
}

impl View for PulseTimer {
    type V = PulseModel;

    closed spec fn view(&self) -> PulseModel {
        PulseModel {
            ticks_per_second: self.target_ticks,
            target_delta: self.target_delta@,
            last_update: self.last_update@,
            prev_tick: self.prev_tick@,
            last_tick: self.last_tick@,
            total_time: self.total_time@,
            accumulated_time: self.accumulated_time@,
        }
    }
}

/// Whether an update at `now` keeps the running totals within range.
pub open spec fn pulse_update_fits(m: PulseModel, now: nat) -> bool {
    let diff = elapsed(m.last_update, now);
    &&& m.total_time + diff <= max_nanos()
    &&& m.accumulated_time + diff <= max_nanos()
}

/// Whether an update at `now` fires.
pub open spec fn pulse_fires(m: PulseModel, now: nat) -> bool {
    m.accumulated_time + elapsed(m.last_update, now) >= m.target_delta
}

/// The state after an update at `now`.
pub open spec fn pulse_update(m: PulseModel, now: nat) -> PulseModel {
    let diff = elapsed(m.last_update, now);
    let acc = m.accumulated_time + diff;
    if acc >= m.target_delta {
        PulseModel {
            last_update: now,
            prev_tick: m.last_tick,
            last_tick: now,
            total_time: m.total_time + diff,
            accumulated_time: (acc - m.target_delta) as nat,
            ..m
        }
    } else {
        PulseModel {
            last_update: now,
            total_time: m.total_time + diff,
            accumulated_time: acc,
            ..m
        }
    }
}

impl PulseTimer {
    /// The stored interval is always the interval of the stored rate.
    #[verifier::type_invariant]
    spec fn interval_matches_rate(self) -> bool {
        self.target_delta@ == target_delta_nanos(self.target_ticks)
    }

    /// A clock ticking `ticks_per_second` times a second, started at `now`.
    pub fn new(ticks_per_second: u32, now: Instant) -> (t: PulseTimer)
        ensures
            t@ == (PulseModel {
                ticks_per_second: ticks_per_second,
                target_delta: target_delta_nanos(ticks_per_second),
                last_update: now@,
                prev_tick: now@,
                last_tick: now@,
                total_time: 0,
                accumulated_time: 0,
            }),
    {
        PulseTimer {
            target_ticks: ticks_per_second,
            target_delta: target_delta(ticks_per_second),
            last_update: now,
            prev_tick: now,
            last_tick: now,
            total_time: Duration::default(),
            accumulated_time: Duration::default(),
        }
    }

    /// Whether `update(now)` stays within the range of durations.
    pub fn update_fits(&self, now: Instant) -> (b: bool)
        ensures
            b == pulse_update_fits(self@, now@),
    {
        let diff = now.duration_since(&self.last_update);
        self.total_time.checked_add(diff).is_some() && self.accumulated_time.checked_add(
            diff,
        ).is_some()
    }

    /// Accumulates the time since the last update; returns whether a whole
    /// interval had accumulated, in which case one interval is consumed and
    /// the tick is recorded at `now`.
    pub fn update(&mut self, now: Instant) -> (fired: bool)
        requires
            pulse_update_fits(old(self)@, now@),
        ensures
            fired == pulse_fires(old(self)@, now@),
            final(self)@ == pulse_update(old(self)@, now@),
            final(self)@.target_delta == target_delta_nanos(final(self)@.ticks_per_second),
            !fired ==> final(self)@.accumulated_time < target_delta_nanos(
                final(self)@.ticks_per_second,
            ),
    {
        proof {
            use_type_invariant(&*self);
        }
        let diff = now.duration_since(&self.last_update);
        self.last_update = now;
        self.total_time = self.total_time.add(diff);
        self.accumulated_time = self.accumulated_time.add(diff);
        if self.accumulated_time.ge(&self.target_delta) {
            self.prev_tick = self.last_tick;
            self.last_tick = self.last_update;
            self.accumulated_time = self.accumulated_time.sub(self.target_delta);
            true
        } else {
            false
        }
    }

    /// The time between the last two ticks.
    pub fn delta(&self) -> (d: Duration)
        ensures
            d@ == elapsed(self@.prev_tick, self@.last_tick),
    {
        self.last_tick.duration_since(&self.prev_tick)
    }

    /// All the time accumulated since the clock was started.
    pub fn total_time(&self) -> (d: Duration)
        ensures
            d@ == self@.total_time,
    {
        self.total_time
    }

    /// The time accumulated towards the next tick.
    pub fn accumulated_time(&self) -> (d: Duration)
        ensures
            d@ == self@.accumulated_time,
    {
        self.accumulated_time
    }

    /// The rate the clock ticks at; the clock's interval is always the
    /// interval of that rate.
    pub fn ticks_per_second(&self) -> (n: u32)
        ensures
            n == self@.ticks_per_second,
            self@.target_delta == target_delta_nanos(n),
    {
        proof {
            use_type_invariant(self);
        }
        self.target_ticks
    }

    /// Changes the rate; the time accumulated so far is kept.
    pub fn set_ticks_per_second(&mut self, ticks_per_second: u32)
        ensures
            final(self)@ == (PulseModel {
                ticks_per_second: ticks_per_second,
                target_delta: target_delta_nanos(ticks_per_second),
                ..old(self)@
            }),
    {
        let interval = target_delta(ticks_per_second);
        *self = PulseTimer { target_ticks: ticks_per_second, target_delta: interval, ..*self };
    }
}

/// The state after updates at each of the readings `nows`, in order.
pub open spec fn pulse_run(m: PulseModel, nows: Seq<nat>) -> PulseModel
    decreases nows.len(),
{
    if nows.len() == 0 {
        m
    } else {
        pulse_update(pulse_run(m, nows.drop_last()), nows.last())
    }
}

/// The readings among `nows` at which the updates fire, in order.
pub open spec fn pulse_fire_times(m: PulseModel, nows: Seq<nat>) -> Seq<nat>
    decreases nows.len(),
{
    if nows.len() == 0 {
        Seq::empty()
    } else {
        let before = pulse_run(m, nows.drop_last());
        let times = pulse_fire_times(m, nows.drop_last());
        if pulse_fires(before, nows.last()) {
            times.push(nows.last())
        } else {
            times
        }
    }
}

/// How many of the updates at the readings `nows` fire.
pub open spec fn pulse_fire_count(m: PulseModel, nows: Seq<nat>) -> nat {
    pulse_fire_times(m, nows).len()
}

/// Readings of a monotonic clock, taken no earlier than `from`.
pub open spec fn readings_from(from: nat, nows: Seq<nat>) -> bool {
    &&& forall|i: int, j: int| 0 <= i <= j < nows.len() ==> nows[i] <= nows[j]
    &&& nows.len() > 0 ==> from <= nows[0]
}

/// A `PulseTimer` neither loses nor invents time: over any run of updates,
/// whatever the readings, every interval of the time it added up is either
/// consumed by a firing or still accumulated, and its rate is never changed
/// by updating. When the readings come from a monotonic clock, the time
/// added up is exactly the time the clock advanced.
pub proof fn lemma_pulse_keeps_time(m: PulseModel, nows: Seq<nat>)
    ensures
        pulse_run(m, nows).target_delta == m.target_delta,
        pulse_run(m, nows).ticks_per_second == m.ticks_per_second,
        nows.len() > 0 ==> pulse_run(m, nows).last_update == nows.last(),
        pulse_run(m, nows).total_time >= m.total_time,
        pulse_fire_count(m, nows) * m.target_delta + pulse_run(m, nows).accumulated_time
            == m.accumulated_time + pulse_run(m, nows).total_time - m.total_time,
        readings_from(m.last_update, nows) && nows.len() > 0 ==> pulse_run(m, nows).total_time
            == m.total_time + (nows.last() - m.last_update),
    decreases nows.len(),
{
    if nows.len() == 0 {
        assert(pulse_fire_count(m, nows) == 0);
        assert(0 * m.target_delta == 0) by (nonlinear_arith);
    } else {
        let rest = nows.drop_last();
        lemma_pulse_keeps_time(m, rest);
        let r = pulse_run(m, rest);
        let c = pulse_fire_count(m, rest);
        let t = m.target_delta;
        let x = nows.last();
        let diff = elapsed(r.last_update, x);
        let after = pulse_run(m, nows);
        assert(after == pulse_update(r, x));
        assert(after.total_time == r.total_time + diff);
        if readings_from(m.last_update, nows) {
            assert(readings_from(m.last_update, rest));
            if rest.len() > 0 {
                assert(rest.last() == nows[nows.len() - 2]);
                assert(r.last_update <= x);
            }
        }
        if pulse_fires(r, x) {
            assert(pulse_fire_count(m, nows) == c + 1);
            assert(after.accumulated_time == r.accumulated_time + diff - t);
            assert((c + 1) * t == c * t + t) by (nonlinear_arith);
            assert(pulse_fire_count(m, nows) * t == c * t + t);
        } else {
            assert(pulse_fire_count(m, nows) == c);
            assert(after.accumulated_time == r.accumulated_time + diff);
        }
    }
}

/// A `PulseTimer` remembers the readings of its last two firings: its delta
/// is the time between them. Updates that do not fire change neither; before
/// any firing both are where they were, and after the first firing the
/// earlier one is the clock's previous last tick.
pub proof fn lemma_pulse_last_ticks(m: PulseModel, nows: Seq<nat>)
    ensures
        ({
            let times = pulse_fire_times(m, nows);
            let r = pulse_run(m, nows);
            &&& times.len() == 0 ==> r.prev_tick == m.prev_tick && r.last_tick == m.last_tick
            &&& times.len() == 1 ==> r.prev_tick == m.last_tick && r.last_tick == times[0]
            &&& times.len() >= 2 ==> r.prev_tick == times[times.len() - 2] && r.last_tick
                == times.last()
        }),
    decreases nows.len(),
{
    if nows.len() > 0 {
        let rest = nows.drop_last();
        lemma_pulse_last_ticks(m, rest);
        let r = pulse_run(m, rest);
        let x = nows.last();
        assert(pulse_run(m, nows) == pulse_update(r, x));
        let before = pulse_fire_times(m, rest);
        if pulse_fires(r, x) {
            assert(pulse_fire_times(m, nows) == before.push(x));
        } else {
            assert(pulse_fire_times(m, nows) == before);
        }
    }
}

/// The running average stays within the range of its samples: extending an
/// average that lies between `lo` and `hi` by a sample between them gives
/// an average between them.
pub proof fn lemma_next_average_between(avg: nat, count: nat, delta: nat, lo: nat, hi: nat)
    requires
        lo <= avg <= hi,
        lo <= delta <= hi,
    ensures
        lo <= next_average(avg, count, delta) <= hi,
{
    let c = (count as u32) as nat;
    assert(lo * (c + 1) <= avg * c + delta <= hi * (c + 1)) by (nonlinear_arith)
        requires
            lo <= avg <= hi,
            lo <= delta <= hi,
    ;
    vstd::arithmetic::div_mod::lemma_div_is_ordered((lo * (c + 1)) as int, (avg * c + delta) as int, (c + 1) as int);
    vstd::arithmetic::div_mod::lemma_div_is_ordered((avg * c + delta) as int, (hi * (c + 1)) as int, (c + 1) as int);
    vstd::arithmetic::div_mod::lemma_div_by_multiple(lo as int, (c + 1) as int);
    vstd::arithmetic::div_mod::lemma_div_by_multiple(hi as int, (c + 1) as int);
}

// ---------------------------------------------------------------------------
// TickTimer
// ---------------------------------------------------------------------------

/// The state of a `TickTimer`.
pub struct TickModel {
    pub last_tick: nat,
    pub delta: nat,
}

/// The state after a tick at `now`.
pub open spec fn tick_step(m: TickModel, now: nat) -> TickModel {
    TickModel { last_tick: now, delta: elapsed(m.last_tick, now) }
}

/// The state after ticks at each of the readings `nows`, in order.
pub open spec fn tick_run(m: TickModel, nows: Seq<nat>) -> TickModel
    decreases nows.len(),
{
    if nows.len() == 0 {
        m
    } else {
        tick_step(tick_run(m, nows.drop_last()), nows.last())
    }
}

/// The delta that each of the ticks at `nows` records.
pub open spec fn tick_deltas(m: TickModel, nows: Seq<nat>) -> Seq<nat> {
    Seq::new(nows.len(), |i: int| elapsed(reading_before(m.last_tick, nows, i), nows[i]))
}

/// Each tick of a `TickTimer` records the time since the tick before it (or
/// since the start), so the last delta is the time between the last two
/// readings; over readings of a monotonic clock the deltas add up to the
/// time from the start to the last tick.
pub proof fn lemma_tick_deltas(m: TickModel, nows: Seq<nat>)
    ensures
        nows.len() > 0 ==> tick_run(m, nows).last_tick == nows.last(),
        nows.len() > 0 ==> tick_run(m, nows).delta == tick_deltas(m, nows).last(),
        readings_from(m.last_tick, nows) && nows.len() > 0 ==> seq_sum(tick_deltas(m, nows))
            == nows.last() - m.last_tick,
    decreases nows.len(),
{
    if nows.len() > 0 {
        let rest = nows.drop_last();
        lemma_tick_deltas(m, rest);
        let k = nows.len() - 1;
        let ds = tick_deltas(m, nows);
        assert(ds.drop_last() =~= tick_deltas(m, rest));
        assert(tick_run(m, nows) == tick_step(tick_run(m, rest), nows.last()));
        if rest.len() > 0 {
            assert(rest.last() == nows[k - 1]);
        }
        assert(tick_run(m, rest).last_tick == reading_before(m.last_tick, nows, k));
        assert(ds.last() == elapsed(reading_before(m.last_tick, nows, k), nows[k]));
        assert(seq_sum(ds) == seq_sum(tick_deltas(m, rest)) + ds.last());
        if readings_from(m.last_tick, nows) {
            assert(readings_from(m.last_tick, rest));
            assert(reading_before(m.last_tick, nows, k) <= nows[k]);
        }
    }
}

/// A stopwatch that remembers the time between its last two ticks.
#[derive(Clone, Copy, Debug)]
pub struct TickTimer {
    last_tick: Instant,
    delta: Duration,
}

impl View for TickTimer {
    type V = TickModel;

    closed spec fn view(&self) -> TickModel {
        TickModel { last_tick: self.last_tick@, delta: self.delta@ }
    }
}

impl TickTimer {
    /// A stopwatch started at `now`.
    pub fn new(now: Instant) -> (t: TickTimer)
        ensures
            t@ == (TickModel { last_tick: now@, delta: 0 }),
    {
        TickTimer { last_tick: now, delta: Duration::default() }
    }

    /// Records a tick at `now`.
    pub fn tick(&mut self, now: Instant)
        ensures
            final(self)@ == tick_step(old(self)@, now@),
    {
        self.delta = now.duration_since(&self.last_tick);
        self.last_tick = now;
    }

    /// The time between the last two ticks.
    pub fn delta(&self) -> (d: Duration)
        ensures
            d@ == self@.delta,
    {
        self.delta
    }
}

// ---------------------------------------------------------------------------
// Sample statistics shared by the recording timers
// ---------------------------------------------------------------------------

/// Recorded spans: the last one, their running average, every span in
/// whole microseconds, and their number.
pub struct Samples {
    pub delta: nat,
    pub delta_avg: nat,
    pub micros: Seq<nat>,
    pub record_count: nat,
}

/// Whether recording the span `delta` stays within the range of the
/// arithmetic (the standard library panics otherwise).
pub open spec fn samples_add_fits(s: Samples, delta: nat) -> bool {
    &&& next_average_fits(s.delta_avg, s.record_count, delta)
    &&& moments_add_fits(s.micros, micros(delta))
}

/// The statistics after recording the span `delta`.
pub open spec fn samples_add(s: Samples, delta: nat) -> Samples {
    Samples {
        delta: delta,
        delta_avg: next_average(s.delta_avg, s.record_count, delta),
        micros: s.micros.push(micros(delta)),
        record_count: s.record_count + 1,
    }
}

/// No span recorded yet.
pub open spec fn samples_empty() -> Samples {
    Samples { delta: 0, delta_avg: 0, micros: Seq::empty(), record_count: 0 }
}

/// The statistics after recording each of the spans `ds`, in order.
pub open spec fn samples_run(s: Samples, ds: Seq<nat>) -> Samples
    decreases ds.len(),
{
    if ds.len() == 0 {
        s
    } else {
        samples_add(samples_run(s, ds.drop_last()), ds.last())
    }
}

/// Recording the spans `ds` from nothing counts them, keeps each in whole
/// microseconds, remembers the last, and gives an average that lies between
/// the smallest and the largest of them.
pub proof fn lemma_recorded_spans(ds: Seq<nat>, lo: nat, hi: nat)
    requires
        ds.len() > 0,
        forall|i: int| 0 <= i < ds.len() ==> lo <= #[trigger] ds[i] <= hi,
    ensures
        samples_run(samples_empty(), ds).record_count == ds.len(),
        samples_run(samples_empty(), ds).micros == ds.map_values(|d: nat| micros(d)),
        samples_run(samples_empty(), ds).delta == ds.last(),
        lo <= samples_run(samples_empty(), ds).delta_avg <= hi,
    decreases ds.len(),
{
    let rest = ds.drop_last();
    let d = ds.last();
    assert(lo <= ds[ds.len() - 1] <= hi);
    if rest.len() == 0 {
        assert(samples_run(samples_empty(), rest) == samples_empty());
        assert(((0nat as u32) as nat) == 0);
        assert((0 * 0 + d) / (0 + 1) == d) by (nonlinear_arith);
        assert(next_average(0, 0, d) == d);
        assert(ds.map_values(|d: nat| micros(d)) =~= seq![micros(d)]);
    } else {
        assert forall|i: int| 0 <= i < rest.len() implies lo <= #[trigger] rest[i] <= hi by {
            assert(rest[i] == ds[i]);
        }
        lemma_recorded_spans(rest, lo, hi);
        let before = samples_run(samples_empty(), rest);
        lemma_next_average_between(before.delta_avg, before.record_count, d, lo, hi);
        assert(ds.map_values(|d: nat| micros(d)) =~= rest.map_values(|d: nat| micros(d)).push(
            micros(d),
        ));
    }
}

/// The running average loses less than a nanosecond per record to
/// rounding: recording the spans `ds` from nothing (at most `u32::MAX` of
/// them, which is as many as a timer records) gives an average `a` with
/// `a·n ≤ Σ ds ≤ a·n + n(n−1)/2`, so the true mean exceeds `a` by at most
/// `(n−1)/2` nanoseconds.
pub proof fn lemma_average_rounding(ds: Seq<nat>)
    requires
        ds.len() <= u32::MAX,
    ensures
        samples_run(samples_empty(), ds).delta_avg * ds.len() <= seq_sum(ds),
        2 * (seq_sum(ds) - samples_run(samples_empty(), ds).delta_avg * ds.len()) <= ds.len() * (
        ds.len() - 1),
    decreases ds.len(),
{
    if ds.len() == 0 {
        assert(samples_run(samples_empty(), ds).delta_avg * 0 == 0) by (nonlinear_arith);
    } else {
        let rest = ds.drop_last();
        let d = ds.last();
        lemma_average_rounding(rest);
        lemma_recorded_count(rest);
        let before = samples_run(samples_empty(), rest);
        let a = before.delta_avg;
        let c = rest.len();
        assert(((c as u32) as nat) == c);
        let q = a * c + d;
        let a2 = q / (c + 1);
        assert(samples_run(samples_empty(), ds).delta_avg == a2);
        vstd::arithmetic::div_mod::lemma_fundamental_div_mod(q as int, (c + 1) as int);
        vstd::arithmetic::div_mod::lemma_mod_bound(q as int, (c + 1) as int);
        let r = q % (c + 1);
        let s0 = seq_sum(rest);
        assert(seq_sum(ds) == s0 + d);
        assert(a2 * (c + 1) + r == q) by (nonlinear_arith)
            requires
                q == (c + 1) * (q / (c + 1)) + q % (c + 1),
                a2 == q / (c + 1),
                r == q % (c + 1),
        ;
        assert(seq_sum(ds) - a2 * (c + 1) == (s0 - a * c) + r);
        assert(2 * (s0 - a * c) + 2 * r <= (c + 1) * c) by (nonlinear_arith)
            requires
                2 * (s0 - a * c) <= c * (c - 1),
                r <= c,
        ;
    }
}

/// Recording the spans `ds` from nothing counts them.
proof fn lemma_recorded_count(ds: Seq<nat>)
    ensures
        samples_run(samples_empty(), ds).record_count == ds.len(),
    decreases ds.len(),
{
    if ds.len() > 0 {
        lemma_recorded_count(ds.drop_last());
    }
}

/// Running statistics over recorded spans.
#[derive(Clone, Copy)]
pub(crate) struct SampleStats {
    delta: Duration,
    delta_avg: Duration,
    moments: Moments,
}

impl View for SampleStats {
    type V = Samples;

    closed spec fn view(&self) -> Samples {
        Samples {
            delta: self.delta@,
            delta_avg: self.delta_avg@,
            micros: self.moments@,
            record_count: self.moments@.len(),
        }
    }
}

impl SampleStats {
    /// Recording stops before the count passes `u32::MAX` (the averaging
    /// arithmetic counts in 32 bits).
    #[verifier::type_invariant]
    spec fn count_fits(self) -> bool {
        self.moments@.len() <= u32::MAX
    }

    pub(crate) fn new() -> (s: SampleStats)
        ensures
            s@ == samples_empty(),
    {
        SampleStats { delta: Duration::default(), delta_avg: Duration::default(), moments: Moments::new() }
    }

    pub(crate) fn add_fits(&self, delta: Duration) -> (b: bool)
        ensures
            b == samples_add_fits(self@, delta@),
    {
        if !self.moments.add_fits(delta.as_micros()) {
            return false;
        }
        let c: u32 = self.moments.count() as u32;
        if c == u32::MAX {
            return false;
        }
        let scaled = match self.delta_avg.checked_mul(c) {
            Some(x) => x,
            None => {
                proof {
                    assert(self@.delta_avg * c <= self@.delta_avg * c + delta@);
                }
                return false;
            },
        };
        scaled.checked_add(delta).is_some()
    }

    pub(crate) fn add(&mut self, delta: Duration)
        requires
            samples_add_fits(old(self)@, delta@),
        ensures
            final(self)@ == samples_add(old(self)@, delta@),
    {
        proof {
            use_type_invariant(&*self);
        }
        let avg = extend_average(self.delta_avg, self.moments.count(), delta);
        let mut moments = self.moments;
        moments.add(delta.as_micros());
        *self = SampleStats { delta, delta_avg: avg, moments };
    }

    pub(crate) fn delta(&self) -> (d: Duration)
        ensures
            d@ == self@.delta,
    {
        self.delta
    }

    pub(crate) fn delta_avg(&self) -> (d: Duration)
        ensures
            d@ == self@.delta_avg,
    {
        self.delta_avg
    }

    pub(crate) fn delta_sd(&self) -> (d: Duration)
        ensures
            is_population_sd(d@, self@.micros),
    {
        standard_deviation(&self.moments)
    }

    pub(crate) fn record_count(&self) -> (n: u64)
        ensures
            n == self@.record_count,
            n <= u32::MAX,
    {
        proof {
            use_type_invariant(self);
        }
        self.moments.count()
    }

    pub(crate) fn delta_variance_micros(&self) -> (v: u128)
        ensures
            v == population_variance(self@.micros),
    {
        self.moments.variance()
    }
}

// ---------------------------------------------------------------------------
// ProfileTimer
// ---------------------------------------------------------------------------

/// The state of a `ProfileTimer`.
pub struct ProfileModel {
    pub begin_tick: nat,
    pub samples: Samples,
    pub is_record: bool,
}

/// A stopwatch for measuring a piece of code: each record runs from
/// `begin_record` to `finish_record`, and the records are summarised.
#[derive(Clone, Copy)]
pub struct ProfileTimer {
    begin_tick: Instant,
    stats: SampleStats,
    is_record: bool,
}

impl View for ProfileTimer {
    type V = ProfileModel;

    closed spec fn view(&self) -> ProfileModel {
        ProfileModel { begin_tick: self.begin_tick@, samples: self.stats@, is_record: self.is_record }
    }
}

impl ProfileTimer {
    /// A stopwatch created at `now`, not recording.
    pub fn now(now: Instant) -> (t: ProfileTimer)
        ensures
            t@ == (ProfileModel { begin_tick: now@, samples: samples_empty(), is_record: false }),
    {
        ProfileTimer { begin_tick: now, stats: SampleStats::new(), is_record: false }
    }

    /// Starts a record at `now`; the timer must not be recording already.
    pub fn begin_record(&mut self, now: Instant)
        requires
            !old(self)@.is_record,
        ensures
            final(self)@ == (ProfileModel { begin_tick: now@, is_record: true, ..old(self)@ }),
    {
        self.begin_tick = now;
        self.is_record = true;
    }

    /// Whether a record is running.
    pub fn is_record(&self) -> (b: bool)
        ensures
            b == self@.is_record,
    {
        self.is_record
    }

    /// Whether `finish_record(now)` stays within the range of the arithmetic.
    pub fn finish_fits(&self, now: Instant) -> (b: bool)
        ensures
            b == samples_add_fits(self@.samples, elapsed(self@.begin_tick, now@)),
    {
        let delta = now.duration_since(&self.begin_tick);
        self.stats.add_fits(delta)
    }

    /// Ends the record at `now` and adds its span to the statistics; the
    /// timer must be recording.
    pub fn finish_record(&mut self, now: Instant)
        requires
            old(self)@.is_record,
            samples_add_fits(old(self)@.samples, elapsed(old(self)@.begin_tick, now@)),
        ensures
            final(self)@ == (ProfileModel {
                samples: samples_add(old(self)@.samples, elapsed(old(self)@.begin_tick, now@)),
                is_record: false,
                ..old(self)@
            }),
    {
        let delta = now.duration_since(&self.begin_tick);
        self.stats.add(delta);
        self.is_record = false;
    }

    /// The span of the last record.
    pub fn delta(&self) -> (d: Duration)
        ensures
            d@ == self@.samples.delta,
    {
        self.stats.delta()
    }

    /// The running average of the recorded spans.
    pub fn delta_avg(&self) -> (d: Duration)
        ensures
            d@ == self@.samples.delta_avg,
    {
        self.stats.delta_avg()
    }

    /// The standard deviation of the recorded spans, in whole microseconds.
    pub fn delta_sd(&self) -> (d: Duration)
        ensures
            is_population_sd(d@, self@.samples.micros),
    {
        self.stats.delta_sd()
    }

    /// The number of records.
    pub fn record_count(&self) -> (n: u64)
        ensures
            n == self@.samples.record_count,
            n <= u32::MAX,
    {
        self.stats.record_count()
    }

    /// The variance of the recorded spans, in microseconds².
    pub fn delta_variance_micros(&self) -> (v: u128)
        ensures
            v == population_variance(self@.samples.micros),
    {
        self.stats.delta_variance_micros()
    }
}

// ---------------------------------------------------------------------------
// Time
// ---------------------------------------------------------------------------

/// The state of a `Time`: the intervals between ticks are kept in whole
/// microseconds, and their number is the tick count.
pub struct TimeModel {
    pub start_tick: nat,
    pub last_tick: nat,
    pub delta: nat,
    pub micros: Seq<nat>,
}

/// The divisor used for averaging over `count` ticks: at least one.
pub open spec fn count_divisor(count: nat) -> nat {
    if count == 0 {
        1
    } else {
        count
    }
}

/// Whether a tick at `now` stays within the range of the arithmetic (the
/// standard library panics otherwise).
pub open spec fn time_tick_fits(m: TimeModel, now: nat) -> bool {
    moments_add_fits(m.micros, micros(elapsed(m.last_tick, now)))
}

/// The state after a tick at `now`.
pub open spec fn time_tick(m: TimeModel, now: nat) -> TimeModel {
    let delta = elapsed(m.last_tick, now);
    TimeModel { last_tick: now, delta: delta, micros: m.micros.push(micros(delta)), ..m }
}

/// The state after ticks at each of the readings `nows`, in order.
pub open spec fn time_run(m: TimeModel, nows: Seq<nat>) -> TimeModel
    decreases nows.len(),
{
    if nows.len() == 0 {
        m
    } else {
        time_tick(time_run(m, nows.drop_last()), nows.last())
    }
}

/// After ticks at the readings `nows`, a `Time` has counted each of them,
/// keeps its start, has its last tick at the last reading and its delta as
/// the time since the reading before, and has recorded the interval before
/// each reading in whole microseconds.
pub proof fn lemma_time_ticks(m: TimeModel, nows: Seq<nat>)
    ensures
        time_run(m, nows).micros.len() == m.micros.len() + nows.len(),
        time_run(m, nows).micros == m.micros + Seq::new(
            nows.len(),
            |i: int| micros(elapsed(reading_before(m.last_tick, nows, i), nows[i])),
        ),
        time_run(m, nows).start_tick == m.start_tick,
        nows.len() > 0 ==> time_run(m, nows).last_tick == nows.last(),
        nows.len() > 0 ==> time_run(m, nows).delta == elapsed(
            reading_before(m.last_tick, nows, nows.len() - 1),
            nows.last(),
        ),
    decreases nows.len(),
{
    let f = |i: int| micros(elapsed(reading_before(m.last_tick, nows, i), nows[i]));
    if nows.len() == 0 {
        assert(m.micros + Seq::new(0, f) =~= m.micros);
    } else {
        let rest = nows.drop_last();
        let k = nows.len() - 1;
        lemma_time_ticks(m, rest);
        if rest.len() > 0 {
            assert(rest.last() == nows[k - 1]);
        }
        let g = |i: int| micros(elapsed(reading_before(m.last_tick, rest, i), rest[i]));
        assert(Seq::new(nows.len(), f) =~= Seq::new(rest.len(), g).push(f(k)));
        assert(time_run(m, rest).last_tick == reading_before(m.last_tick, nows, k));
        assert(m.micros + Seq::new(nows.len(), f) =~= (m.micros + Seq::new(rest.len(), g)).push(
            f(k),
        ));
    }
}

/// The main-loop clock: the time since it started, the time between the last
/// two ticks, and statistics over those intervals.
#[derive(Clone, Copy)]
pub struct Time {
    start_tick: Instant,
    last_tick: Instant,
    delta: Duration,
    moments: Moments,
}

impl View for Time {
    type V = TimeModel;

    closed spec fn view(&self) -> TimeModel {
        TimeModel {
            start_tick: self.start_tick@,
            last_tick: self.last_tick@,
            delta: self.delta@,
            micros: self.moments@,
        }
    }
}

impl Time {
    /// A clock started at `now`.
    pub fn now(now: Instant) -> (t: Time)
        ensures
            t@ == (TimeModel { start_tick: now@, last_tick: now@, delta: 0, micros: Seq::empty() }),
    {
        Time { start_tick: now, last_tick: now, delta: Duration::default(), moments: Moments::new() }
    }

    /// Whether `tick(now)` stays within the range of the arithmetic.
    pub fn tick_fits(&self, now: Instant) -> (b: bool)
        ensures
            b == time_tick_fits(self@, now@),
    {
        let delta = now.duration_since(&self.last_tick);
        self.moments.add_fits(delta.as_micros())
    }

    /// Records a tick at `now`: the interval since the previous tick becomes
    /// the delta and joins the recorded intervals.
    pub fn tick(&mut self, now: Instant)
        requires
            time_tick_fits(old(self)@, now@),
        ensures
            final(self)@ == time_tick(old(self)@, now@),
    {
        self.delta = now.duration_since(&self.last_tick);
        self.last_tick = now;
        self.moments.add(self.delta.as_micros());
    }

    /// Restarts the clock at `now`.
    pub fn reset(&mut self, now: Instant)
        ensures
            final(self)@ == (TimeModel {
                start_tick: now@,
                last_tick: now@,
                delta: 0,
                micros: Seq::empty(),
            }),
    {
        *self = Time::now(now);
    }

    /// The time from the start to the last tick.
    pub fn time(&self) -> (d: Duration)
        ensures
            d@ == elapsed(self@.start_tick, self@.last_tick),
    {
        self.last_tick.duration_since(&self.start_tick)
    }

    /// The time between the last two ticks.
    pub fn delta(&self) -> (d: Duration)
        ensures
            d@ == self@.delta,
    {
        self.delta
    }

    /// The average interval between ticks: the time divided by the number
    /// of ticks (at least one), rounded down to the nanosecond.
    pub fn delta_avg(&self) -> (d: Duration)
        ensures
            d@ == elapsed(self@.start_tick, self@.last_tick) / count_divisor(self@.micros.len()),
    {
        let n = self.moments.count();
        let count: u64 = if n == 0 {
            1
        } else {
            n
        };
        self.time().div_u64(count)
    }

    /// The population standard deviation of the intervals, in whole
    /// microseconds.
    pub fn delta_sd(&self) -> (d: Duration)
        ensures
            is_population_sd(d@, self@.micros),
    {
        standard_deviation(&self.moments)
    }

    /// The number of ticks since the start.
    pub fn tick_count(&self) -> (n: u64)
        ensures
            n == self@.micros.len(),
    {
        self.moments.count()
    }

    /// The population variance of the intervals, in microseconds².
    pub fn delta_variance_micros(&self) -> (v: u128)
        ensures
            v == population_variance(self@.micros),
    {
        self.moments.variance()
    }
}

/// A clock ticking `n` times a second has the longest whole-nanosecond
/// interval that fits `n` times into a second; at one tick a second it is
/// exactly a second; at zero ticks a second it never ticks within any span
/// the clock can measure.
pub proof fn lemma_target_interval(n: u32)
    ensures
        n >= 1 ==> target_delta_nanos(n) * n <= 1_000_000_000 < (target_delta_nanos(n) + 1) * n,
        n == 1 ==> target_delta_nanos(n) == 1_000_000_000,
        n == 0 ==> target_delta_nanos(n) >= u64::MAX as nat * 1_000_000_000,
{
    if n >= 2 {
        let t = target_delta_nanos(n);
        vstd::arithmetic::div_mod::lemma_fundamental_div_mod(1_000_000_000, n as int);
        vstd::arithmetic::div_mod::lemma_mod_bound(1_000_000_000, n as int);
        assert(t * n <= 1_000_000_000 < (t + 1) * n) by (nonlinear_arith)
            requires
                1_000_000_000 == n * t + 1_000_000_000int % (n as int),
                0 <= 1_000_000_000int % (n as int) < n,
        ;
    }
}

/// The whole microseconds of a span: the span rounded down to a multiple
/// of a thousand nanoseconds.
pub proof fn lemma_micros(nanos: nat)
    ensures
        micros(nanos) * 1000 <= nanos < micros(nanos) * 1000 + 1000,
{
}

/// A timer that does not fire has less than a whole interval accumulated;
/// one that fires consumes exactly one interval and records its tick at the
/// reading.
pub proof fn lemma_pulse_fires_on_whole_interval(m: PulseModel, now: nat)
    ensures
        pulse_fires(m, now) <==> m.accumulated_time + elapsed(m.last_update, now)
            >= m.target_delta,
        !pulse_fires(m, now) ==> pulse_update(m, now).accumulated_time < m.target_delta,
        pulse_fires(m, now) ==> pulse_update(m, now).accumulated_time + m.target_delta
            == m.accumulated_time + elapsed(m.last_update, now),
        pulse_fires(m, now) ==> pulse_update(m, now).last_tick == now && pulse_update(
            m,
            now,
        ).prev_tick == m.last_tick,
        !pulse_fires(m, now) ==> pulse_update(m, now).last_tick == m.last_tick && pulse_update(
            m,
            now,
        ).prev_tick == m.prev_tick,
        pulse_update(m, now).last_update == now,
{
}

/// The average interval of a clock with `n` ticks over `total` nanoseconds
/// is the total shared out evenly and rounded down: `n` of them fit in the
/// total with less than `n` nanoseconds to spare; with no tick yet it is
/// the whole total.
pub proof fn lemma_average_interval(total: nat, n: nat)
    ensures
        n >= 1 ==> (total / count_divisor(n)) * n <= total < (total / count_divisor(n)) * n + n,
        n == 0 ==> total / count_divisor(n) == total,
{
    if n >= 1 {
        vstd::arithmetic::div_mod::lemma_fundamental_div_mod(total as int, n as int);
        vstd::arithmetic::div_mod::lemma_mod_bound(total as int, n as int);
        let q = total / n;
        assert(q * n <= total < q * n + n) by (nonlinear_arith)
            requires
                total == n * q + total % n,
                0 <= total % n < n,
        ;
    }
}

} // verus!
