use heartbeatc3::sen0203::{Phase, Reading, Sen0203, MAX_INTERVAL_US, MIN_INTERVAL_US};

const TICK_US: u64 = 10_000;

/// Polls the line every 10 ms from `from` up to, not including, `until`.
fn hold(s: &mut Sen0203, high: bool, from: u64, until: u64) -> Vec<Reading> {
    let mut out = Vec::new();
    let mut t = from;
    while t < until {
        if let Some(r) = s.run(high, t) {
            out.push(r);
        }
        t += TICK_US;
    }
    out
}

/// One 10 ms pulse at `at`, after the line was low since `from`.
fn pulse(s: &mut Sen0203, from: u64, at: u64) -> Vec<Reading> {
    let mut out = hold(s, false, from, at);
    out.extend(hold(s, true, at, at + TICK_US));
    out
}

#[test]
fn second_peak_after_800_ms_reads_75_bpm() {
    let mut s = Sen0203::new();
    assert!(hold(&mut s, false, 0, 500_000).is_empty());
    let first = s.run(true, 500_000);
    assert!(first.is_none());
    assert!(hold(&mut s, false, 510_000, 1_300_000).is_empty());
    let second = s.run(true, 1_300_000).expect("the second peak closes an interval");
    assert_eq!(second.interval_us(), 800_000);
    assert_eq!(second.milli_bpm(), 75_000);
    assert_eq!(second.milli_bpm() as f64 / 1000.0, 75.0);
}

#[test]
fn new_sampler_waits_for_low_and_has_no_estimate() {
    let s = Sen0203::new();
    assert_eq!(s.phase(), Phase::WaitingForLow);
    assert!(s.estimate().is_none());
}

#[test]
fn line_high_at_start_is_no_peak() {
    let mut s = Sen0203::new();
    assert!(s.run(true, 0).is_none());
    assert_eq!(s.phase(), Phase::WaitingForLow);
    assert!(s.run(false, 10_000).is_none());
    assert_eq!(s.phase(), Phase::WaitingForRisingEdge);
    assert!(s.run(true, 20_000).is_none());
    assert_eq!(s.phase(), Phase::WaitingForLow);
    // The peak at 20 ms was the first: one second later the interval is 1 s.
    assert!(s.run(false, 30_000).is_none());
    let r = s.run(true, 1_020_000).unwrap();
    assert_eq!(r.interval_us(), 1_000_000);
    assert_eq!(r.milli_bpm(), 60_000);
}

#[test]
fn sustained_levels_emit_nothing() {
    let mut s = Sen0203::new();
    assert!(hold(&mut s, false, 0, 5_000_000).is_empty());
    assert!(hold(&mut s, true, 5_000_000, 10_000_000).is_empty());
    assert!(s.estimate().is_none());
    let mut s = Sen0203::new();
    assert!(hold(&mut s, true, 0, 5_000_000).is_empty());
    assert!(s.estimate().is_none());
}

#[test]
fn steady_rhythm_is_measured_exactly() {
    for interval in [MIN_INTERVAL_US, 333_333, 800_000, 1_000_000, MAX_INTERVAL_US] {
        let mut s = Sen0203::new();
        assert!(pulse(&mut s, 0, 100_000).is_empty());
        let mut last = 100_000;
        for _ in 0..10 {
            let next = last + interval;
            let out = pulse(&mut s, last + TICK_US, next);
            assert_eq!(out.len(), 1);
            assert_eq!(out[0].interval_us(), interval);
            assert_eq!(out[0].milli_bpm(), 60_000_000_000 / interval);
            last = next;
        }
    }
}

#[test]
fn estimate_is_the_two_point_average() {
    let mut s = Sen0203::new();
    assert!(pulse(&mut s, 0, 100_000).is_empty());
    let a = pulse(&mut s, 110_000, 900_000);
    assert_eq!(a[0].interval_us(), 800_000);
    let b = pulse(&mut s, 910_000, 1_900_000);
    // (800 ms + 1000 ms) / 2
    assert_eq!(b[0].interval_us(), 900_000);
    assert_eq!(b[0].milli_bpm(), 66_666);
    let c = pulse(&mut s, 1_910_000, 2_400_000);
    // (900 ms + 500 ms) / 2
    assert_eq!(c[0].interval_us(), 700_000);
    assert_eq!(c[0].milli_bpm(), 85_714);
    assert_eq!(s.estimate().unwrap().interval_us(), 700_000);
}

#[test]
fn average_rounds_down() {
    let mut s = Sen0203::new();
    assert!(s.calculate_fake_avg(0).is_none());
    assert_eq!(s.calculate_fake_avg(300_000).unwrap().interval_us(), 300_000);
    assert_eq!(s.calculate_fake_avg(600_001).unwrap().interval_us(), 300_000);
    assert_eq!(s.calculate_fake_avg(900_004).unwrap().interval_us(), 300_001);
}

#[test]
fn peaks_50_ms_apart_never_update() {
    let mut s = Sen0203::new();
    assert!(pulse(&mut s, 0, 100_000).is_empty());
    let first = pulse(&mut s, 110_000, 1_000_000);
    assert_eq!(first[0].interval_us(), 900_000);
    // Bounces 50, 100 and 150 ms after the accepted peak.
    for at in [1_050_000u64, 1_100_000, 1_150_000] {
        assert!(pulse(&mut s, at - 2 * TICK_US, at).is_empty());
        assert_eq!(s.estimate().unwrap().interval_us(), 900_000);
    }
    // The rejected peaks left the anchor alone: the next beat is measured
    // from the accepted peak at 1.0 s.
    let next = pulse(&mut s, 1_160_000, 1_900_000);
    assert_eq!(next[0].interval_us(), 900_000);
}

#[test]
fn bounces_after_the_first_peak_emit_nothing() {
    let mut s = Sen0203::new();
    assert!(s.calculate_fake_avg(1_000_000).is_none());
    assert!(s.calculate_fake_avg(1_050_000).is_none());
    assert!(s.calculate_fake_avg(1_100_000).is_none());
    assert!(s.calculate_fake_avg(1_199_999).is_none());
    assert!(s.estimate().is_none());
}

#[test]
fn interval_bounds_are_inclusive() {
    let mut s = Sen0203::new();
    assert!(s.calculate_fake_avg(0).is_none());
    assert!(s.calculate_fake_avg(MIN_INTERVAL_US - 1).is_none());
    let r = s.calculate_fake_avg(MIN_INTERVAL_US).unwrap();
    assert_eq!(r.interval_us(), 200_000);
    assert_eq!(r.milli_bpm(), 300_000);

    let mut s = Sen0203::new();
    assert!(s.calculate_fake_avg(0).is_none());
    let r = s.calculate_fake_avg(MAX_INTERVAL_US).unwrap();
    assert_eq!(r.interval_us(), 2_000_000);
    assert_eq!(r.milli_bpm(), 30_000);
}

#[test]
fn long_pause_is_not_recorded_but_anchors_the_clock() {
    let mut s = Sen0203::new();
    assert!(s.calculate_fake_avg(0).is_none());
    assert_eq!(s.calculate_fake_avg(1_000_000).unwrap().interval_us(), 1_000_000);
    // 2.000001 s since the last accepted peak.
    assert!(s.calculate_fake_avg(3_000_001).is_none());
    assert_eq!(s.estimate().unwrap().interval_us(), 1_000_000);
    // Measured from the peak that ended the pause.
    assert_eq!(s.calculate_fake_avg(3_500_001).unwrap().interval_us(), 750_000);
}

#[test]
fn clock_running_backwards_is_rejected() {
    let mut s = Sen0203::new();
    assert!(s.calculate_fake_avg(5_000_000).is_none());
    assert!(s.calculate_fake_avg(1_000_000).is_none());
    assert!(s.estimate().is_none());
    assert_eq!(s.calculate_fake_avg(5_600_000).unwrap().interval_us(), 600_000);
}

#[test]
fn readings_stay_between_30_and_300_bpm() {
    let mut s = Sen0203::new();
    let mut t: u64 = 0;
    let mut seed: u64 = 12345;
    s.calculate_fake_avg(t);
    for _ in 0..1000 {
        seed = seed.wrapping_mul(6364136223846793005).wrapping_add(1442695040888963407);
        let step = 200_000 + (seed >> 33) % 1_800_001;
        t += step;
        let r = s.calculate_fake_avg(t).unwrap();
        assert!(r.interval_us() >= 200_000 && r.interval_us() <= 2_000_000);
        assert!(r.milli_bpm() >= 30_000 && r.milli_bpm() <= 300_000);
    }
}
