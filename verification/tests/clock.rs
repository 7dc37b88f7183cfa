use yamengine::clock::{Duration, Instant};

fn ms(n: u64) -> Instant {
    Instant::from_origin(Duration::from_micros(n * 1000))
}

#[test]
fn duration_new_carries_nanoseconds() {
    let d = Duration::new(1, 1_500_000_000);
    assert_eq!(d.as_nanos(), 2_500_000_000);
    assert_eq!(d.as_secs(), 2);
    assert_eq!(d.subsec_nanos(), 500_000_000);
}

#[test]
fn duration_parts() {
    let d = Duration::new(3, 250_999);
    assert_eq!(d.as_secs(), 3);
    assert_eq!(d.subsec_nanos(), 250_999);
    assert_eq!(d.as_micros(), 3_000_250);
    assert_eq!(Duration::from_micros(7).as_nanos(), 7000);
    assert_eq!(Duration::default().as_nanos(), 0);
}

#[test]
fn duration_matches_std_arithmetic() {
    let samples: [(u64, u32); 6] = [
        (0, 0),
        (0, 1),
        (1, 999_999_999),
        (59, 123_456_789),
        (86_400, 5),
        (4_000_000_000, 400_000_000),
    ];
    for &(s1, n1) in samples.iter() {
        let ours = Duration::new(s1, n1);
        let theirs = std::time::Duration::new(s1, n1);
        assert_eq!(ours.as_nanos(), theirs.as_nanos());
        assert_eq!(ours.as_secs(), theirs.as_secs());
        assert_eq!(ours.subsec_nanos(), theirs.subsec_nanos());
        assert_eq!(ours.as_micros(), theirs.as_micros());
        for &(s2, n2) in samples.iter() {
            let o2 = Duration::new(s2, n2);
            let t2 = std::time::Duration::new(s2, n2);
            assert_eq!(ours.checked_add(o2).map(|d| d.as_nanos()), theirs.checked_add(t2).map(|d| d.as_nanos()));
            assert_eq!(ours.ge(&o2), theirs >= t2);
            if theirs >= t2 {
                assert_eq!(ours.sub(o2).as_nanos(), (theirs - t2).as_nanos());
            }
        }
        for &k in [1u32, 2, 3, 7, 1000, u32::MAX].iter() {
            assert_eq!(ours.div(k).as_nanos(), (theirs / k).as_nanos());
            assert_eq!(ours.checked_mul(k).map(|d| d.as_nanos()), theirs.checked_mul(k).map(|d| d.as_nanos()));
        }
    }
}

#[test]
fn duration_overflow_is_detected() {
    let longest = Duration::new(u64::MAX, 999_999_999);
    assert!(longest.checked_add(Duration::new(0, 1)).is_none());
    assert_eq!(longest.checked_add(Duration::default()).map(|d| d.as_nanos()), Some(longest.as_nanos()));
    assert!(Duration::new(u64::MAX / 2 + 1, 0).checked_mul(2).is_none());
    assert_eq!(Duration::new(2, 0).mul(3).as_nanos(), 6_000_000_000);
    assert_eq!(Duration::new(2, 0).add(Duration::new(0, 5)).as_nanos(), 2_000_000_005);
}

#[test]
fn duration_division_rounds_down() {
    assert_eq!(Duration::new(0, 10).div(3).as_nanos(), 3);
    assert_eq!(Duration::new(1, 0).div(3).as_nanos(), 333_333_333);
}

#[test]
fn instant_elapsed_saturates_at_zero() {
    assert_eq!(ms(10).duration_since(&ms(4)).as_nanos(), 6_000_000);
    assert_eq!(ms(5).duration_since(&ms(10)).as_nanos(), 0);
    assert_eq!(ms(7).duration_since(&ms(7)).as_nanos(), 0);
}
