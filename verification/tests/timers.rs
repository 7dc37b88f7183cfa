use yamengine::app::Timer;
use yamengine::clock::{Duration, Instant};
use yamengine::components::time::{DiagnosticTimer, Time as FrameStats};
use yamengine::misc::time::{ProfileTimer, Time as StatsTime};
use yamengine::misc::{PulseTimer, TickTimer, Time as FrameClock};

fn ms(n: u64) -> Instant {
    Instant::from_origin(Duration::from_micros(n * 1000))
}

fn ms_nanos(n: u128) -> u128 {
    n * 1_000_000
}

#[test]
fn target_interval_per_rate() {
    assert_eq!(Timer::new(0, ms(0)).target_delta.as_nanos(), u64::MAX as u128 * 1_000_000_000);
    assert_eq!(Timer::new(1, ms(0)).target_delta.as_nanos(), 1_000_000_000);
    assert_eq!(Timer::new(60, ms(0)).target_delta.as_nanos(), 16_666_666);
    assert_eq!(Timer::new(144, ms(0)).target_delta.as_nanos(), 6_944_444);
    for tps in 2u32..=20_000 {
        let ours = Timer::new(tps, ms(0)).target_delta.as_nanos();
        assert_eq!(ours, (1_000_000_000 / tps) as u128);
        // The floating-point formula 1/tps · 10⁹, truncated, lands on the
        // exact quotient or one nanosecond below it.
        let float = ((1.0 / tps as f64) * 1e9) as u32 as u128;
        assert!(ours == float || ours == float + 1, "rate {}", tps);
    }
}

#[test]
fn pulse_timer_fires_once_per_interval() {
    let mut t = PulseTimer::new(10, ms(0));
    assert_eq!(t.ticks_per_second(), 10);
    assert!(t.update_fits(ms(50)));
    assert!(!t.update(ms(50)));
    assert_eq!(t.accumulated_time().as_nanos(), ms_nanos(50));
    assert!(t.update(ms(100)));
    assert_eq!(t.accumulated_time().as_nanos(), 0);
    assert_eq!(t.delta().as_nanos(), ms_nanos(100));
    assert!(t.update(ms(250)));
    assert_eq!(t.accumulated_time().as_nanos(), ms_nanos(50));
    assert_eq!(t.delta().as_nanos(), ms_nanos(150));
    assert!(!t.update(ms(260)));
    assert_eq!(t.total_time().as_nanos(), ms_nanos(260));
}

#[test]
fn pulse_timer_keeps_time_over_a_run() {
    let readings = [3u64, 40, 41, 199, 200, 200, 517, 1000, 1001, 1234];
    let mut t = PulseTimer::new(20, ms(0));
    let mut fired: u128 = 0;
    for &r in readings.iter() {
        if t.update(ms(r)) {
            fired += 1;
        }
        let total = t.total_time().as_nanos();
        assert_eq!(total, ms_nanos(r as u128));
        assert_eq!(fired * ms_nanos(50) + t.accumulated_time().as_nanos(), total);
    }
}

#[test]
fn pulse_timer_at_rate_zero_never_fires() {
    let mut t = PulseTimer::new(0, ms(0));
    assert!(!t.update(ms(10_000_000)));
    assert_eq!(t.ticks_per_second(), 0);
    assert_eq!(t.delta().as_nanos(), 0);
}

#[test]
fn pulse_timer_rate_change_keeps_accumulated_time() {
    let mut t = PulseTimer::new(10, ms(0));
    assert!(!t.update(ms(60)));
    t.set_ticks_per_second(1000);
    assert_eq!(t.ticks_per_second(), 1000);
    assert_eq!(t.accumulated_time().as_nanos(), ms_nanos(60));
    assert!(t.update(ms(60)));
    assert_eq!(t.accumulated_time().as_nanos(), ms_nanos(59));
}

#[test]
fn tick_timer_measures_between_ticks() {
    let mut t = TickTimer::new(ms(0));
    assert_eq!(t.delta().as_nanos(), 0);
    t.tick(ms(16));
    assert_eq!(t.delta().as_nanos(), ms_nanos(16));
    t.tick(ms(20));
    assert_eq!(t.delta().as_nanos(), ms_nanos(4));
}

#[test]
fn frame_clock_counts_frames() {
    let mut t = FrameClock::now(ms(0));
    t.tick(ms(10));
    t.tick(ms(30));
    assert_eq!(t.time().as_nanos(), ms_nanos(30));
    assert_eq!(t.delta().as_nanos(), ms_nanos(20));
    assert_eq!(t.tick_count(), 2);
    t.reset(ms(100));
    assert_eq!(t.time().as_nanos(), 0);
    assert_eq!(t.delta().as_nanos(), 0);
    assert_eq!(t.tick_count(), 0);
}

#[test]
fn stats_time_summarises_intervals() {
    let mut t = StatsTime::now(ms(0));
    assert_eq!(t.delta_avg().as_nanos(), 0);
    assert!(t.tick_fits(ms(10)));
    t.tick(ms(10));
    assert!(t.tick_fits(ms(30)));
    t.tick(ms(30));
    assert_eq!(t.tick_count(), 2);
    assert_eq!(t.time().as_nanos(), ms_nanos(30));
    assert_eq!(t.delta().as_nanos(), ms_nanos(20));
    assert_eq!(t.delta_avg().as_nanos(), ms_nanos(15));
    // Intervals of 10 ms and 20 ms: mean 15 ms, each 5 ms from it.
    assert_eq!(t.delta_variance_micros(), 25_000_000);
    assert_eq!(t.delta_sd().as_nanos(), 5_000_000);
    t.reset(ms(40));
    assert_eq!(t.tick_count(), 0);
    assert_eq!(t.delta_sd().as_nanos(), 0);
}

#[test]
fn profile_timer_records() {
    let mut p = ProfileTimer::now(ms(0));
    assert_eq!(p.record_count(), 0);
    p.begin_record(ms(0));
    assert!(p.finish_fits(ms(10)));
    p.finish_record(ms(10));
    assert_eq!(p.delta().as_nanos(), ms_nanos(10));
    assert_eq!(p.delta_avg().as_nanos(), ms_nanos(10));
    assert_eq!(p.delta_variance_micros(), 0);
    p.begin_record(ms(20));
    p.finish_record(ms(50));
    assert_eq!(p.record_count(), 2);
    assert_eq!(p.delta().as_nanos(), ms_nanos(30));
    assert_eq!(p.delta_avg().as_nanos(), ms_nanos(20));
    assert_eq!(p.delta_variance_micros(), 100_000_000);
    assert_eq!(p.delta_sd().as_nanos(), 10_000_000);
}

#[test]
fn running_average_stays_between_samples() {
    let spans = [10u64, 30, 20, 11, 29, 25, 10, 30];
    let mut p = ProfileTimer::now(ms(0));
    let mut at = 0u64;
    for &s in spans.iter() {
        p.begin_record(ms(at));
        at += s;
        p.finish_record(ms(at));
        let avg = p.delta_avg().as_nanos();
        assert!(ms_nanos(10) <= avg && avg <= ms_nanos(30));
    }
}

#[test]
fn standard_deviation_is_the_integer_square_root() {
    let mut p = ProfileTimer::now(ms(0));
    let mut at = 0u64;
    for k in 1u64..200 {
        p.begin_record(ms(at));
        at += (k * 37) % 101;
        p.finish_record(ms(at));
        let var = p.delta_variance_micros();
        let sd = p.delta_sd().as_nanos() / 1000;
        assert_eq!(p.delta_sd().as_nanos() % 1000, 0);
        assert!(sd * sd <= var && (sd + 1) * (sd + 1) > var);
        assert_eq!(sd, f64::sqrt(var as f64) as u128);
    }
}

#[test]
fn diagnostic_timer_ignores_repeated_calls() {
    let mut d = DiagnosticTimer::new(ms(0));
    assert!(!d.is_recording());
    d.stop_record(ms(5));
    assert_eq!(d.record_count(), 0);
    d.start_record(ms(10));
    d.start_record(ms(12));
    assert!(d.is_recording());
    assert!(d.stop_fits(ms(30)));
    d.stop_record(ms(30));
    assert!(!d.is_recording());
    assert_eq!(d.record_count(), 1);
    assert_eq!(d.delta().as_nanos(), ms_nanos(20));
    assert!(DiagnosticTimer::now(ms(0)).is_recording());
}

#[test]
fn frame_stats_tick_records_each_frame() {
    let mut t = FrameStats::now(ms(0));
    assert!(t.is_recording());
    t.tick(ms(16));
    assert!(t.is_recording());
    t.tick(ms(48));
    assert_eq!(t.record_count(), 2);
    assert_eq!(t.delta().as_nanos(), ms_nanos(32));
    assert_eq!(t.delta_avg().as_nanos(), ms_nanos(24));
    assert_eq!(t.time().as_nanos(), ms_nanos(48));
    t.stop_record(ms(50));
    assert!(!t.is_recording());
    assert_eq!(t.record_count(), 3);
}

#[test]
fn standard_deviation_is_taken_from_the_final_mean() {
    // Records of 2, 4, 4, 4, 5, 5, 7 and 9 ms: mean 5 ms, population
    // standard deviation 2 ms.
    let mut p = ProfileTimer::now(ms(0));
    let mut at = 0u64;
    for &s in [2u64, 4, 4, 4, 5, 5, 7, 9].iter() {
        p.begin_record(ms(at));
        at += s;
        p.finish_record(ms(at));
    }
    assert_eq!(p.delta_variance_micros(), 4_000_000);
    assert_eq!(p.delta_sd().as_nanos(), 2_000_000);
    let mut same = ProfileTimer::now(ms(0));
    for k in 0..5u64 {
        same.begin_record(ms(10 * k));
        same.finish_record(ms(10 * k + 3));
    }
    assert_eq!(same.delta_sd().as_nanos(), 0);
}

#[test]
fn frame_stats_time_runs_to_the_last_finished_frame() {
    let mut t = FrameStats::now(ms(5));
    assert_eq!(t.time().as_nanos(), 0);
    t.tick(ms(6));
    t.tick(ms(8));
    assert_eq!(t.time().as_nanos(), ms_nanos(3));
    t.start_record(ms(9));
    assert_eq!(t.time().as_nanos(), ms_nanos(3));
}

fn ns(n: u32) -> Instant {
    Instant::from_origin(Duration::new(0, n))
}

#[test]
fn pulse_timer_keeps_time_whatever_the_readings() {
    let mut t = PulseTimer::new(10, ms(0));
    let interval = ms_nanos(100);
    let mut fired: u128 = 0;
    for &r in [150u64, 120, 300, 290, 310].iter() {
        let f = t.update(ms(r));
        if f {
            fired += 1;
        } else {
            assert!(t.accumulated_time().as_nanos() < interval);
        }
        assert_eq!(fired * interval + t.accumulated_time().as_nanos(), t.total_time().as_nanos());
    }
    // An earlier reading adds nothing; the next one counts from it.
    assert_eq!(t.total_time().as_nanos(), ms_nanos(150 + 180 + 20));
    assert_eq!(fired, 3);
}

#[test]
fn pulse_timer_delta_spans_the_last_two_firings() {
    let mut t = PulseTimer::new(10, ms(0));
    assert!(t.update(ms(100)));
    assert!(!t.update(ms(150)));
    assert_eq!(t.delta().as_nanos(), ms_nanos(100));
    assert!(t.update(ms(230)));
    assert!(!t.update(ms(260)));
    assert_eq!(t.delta().as_nanos(), ms_nanos(130));
}

#[test]
fn tick_timer_deltas_add_up_to_the_time_ticked() {
    let mut t = TickTimer::new(ms(5));
    let mut sum: u128 = 0;
    for &r in [10u64, 25, 45, 46].iter() {
        t.tick(ms(r));
        sum += t.delta().as_nanos();
    }
    assert_eq!(t.delta().as_nanos(), ms_nanos(1));
    assert_eq!(sum, ms_nanos(41));
}

#[test]
fn stats_time_counts_every_tick() {
    let mut t = StatsTime::now(ms(0));
    for k in 1..=25u64 {
        t.tick(ms(3 * k));
        assert_eq!(t.tick_count(), k);
        assert_eq!(t.delta().as_nanos(), ms_nanos(3));
    }
    assert_eq!(t.time().as_nanos(), ms_nanos(75));
    t.reset(ms(80));
    assert_eq!(t.tick_count(), 0);
    assert_eq!(t.delta().as_nanos(), 0);
}

#[test]
fn frame_stats_counts_a_record_per_tick() {
    let mut t = FrameStats::now(ms(0));
    for k in 1..=12u64 {
        t.tick(ms(7 * k));
        assert_eq!(t.record_count(), k);
        assert!(t.is_recording());
        assert_eq!(t.time().as_nanos(), ms_nanos(7 * k as u128));
    }
}

#[test]
fn diagnostic_timer_counts_stops_after_starts() {
    let mut d = DiagnosticTimer::new(ms(0));
    d.stop_record(ms(1));
    d.start_record(ms(2));
    d.stop_record(ms(3));
    d.stop_record(ms(4));
    d.start_record(ms(5));
    d.start_record(ms(6));
    d.stop_record(ms(9));
    assert_eq!(d.record_count(), 2);
    assert_eq!(d.delta().as_nanos(), ms_nanos(4));
    assert!(!d.is_recording());
    d.start_record(ms(10));
    assert!(d.is_recording());
}

#[test]
fn running_average_rounds_down_by_under_a_nanosecond_per_record() {
    let mut p = ProfileTimer::now(ns(0));
    p.begin_record(ns(0));
    p.finish_record(ns(1));
    p.begin_record(ns(1));
    p.finish_record(ns(3));
    // Spans of 1 ns and 2 ns: mean 1.5 ns, average rounded to 1 ns.
    assert_eq!(p.delta_avg().as_nanos(), 1);
    let mut q = ProfileTimer::now(ns(0));
    let mut at: u32 = 0;
    let mut sum: u128 = 0;
    for k in 1..=40u32 {
        let span = (k * 7919) % 13;
        q.begin_record(ns(at));
        at += span;
        q.finish_record(ns(at));
        sum += span as u128;
        let n = k as u128;
        let a = q.delta_avg().as_nanos();
        assert!(a * n <= sum && 2 * (sum - a * n) <= n * (n - 1));
    }
}

#[test]
fn frame_clock_delta_is_the_last_interval() {
    let mut t = FrameClock::now(ms(2));
    assert_eq!(t.delta().as_nanos(), 0);
    assert_eq!(t.tick_count(), 0);
    for &(r, d) in [(5u64, 3u128), (9, 4), (20, 11)].iter() {
        t.tick(ms(r));
        assert_eq!(t.delta().as_nanos(), ms_nanos(d));
    }
    assert_eq!(t.tick_count(), 3);
    assert_eq!(t.time().as_nanos(), ms_nanos(18));
    t.reset(ms(30));
    assert_eq!(t.tick_count(), 0);
    assert_eq!(t.delta().as_nanos(), 0);
}

#[test]
fn diagnostic_average_is_the_mean_rounded_down() {
    let mut d = DiagnosticTimer::new(ns(0));
    assert_eq!(d.delta_avg().as_nanos(), 0);
    let mut at: u32 = 0;
    let mut sum: u128 = 0;
    for k in 1..=30u32 {
        let span = (k * 104_729) % 17;
        d.start_record(ns(at));
        at += span;
        d.stop_record(ns(at));
        sum += span as u128;
        let n = d.record_count() as u128;
        let a = d.delta_avg().as_nanos();
        assert!(a * n <= sum && 2 * (sum - a * n) <= n * (n - 1));
    }
}
