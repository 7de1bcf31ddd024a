use heartbeatc3::bpm::{float_bits, MAX_MILLI_BPM, MIN_MILLI_BPM};
use heartbeatc3::sen0203::Sen0203;

#[test]
fn float_bits_of_known_pulses() {
    assert_eq!(float_bits(75_000), 0x4296_0000);
    assert_eq!(float_bits(75_000), 75.0f32.to_bits());
    assert_eq!(float_bits(30_000), 30.0f32.to_bits());
    assert_eq!(float_bits(32_000), 32.0f32.to_bits());
    assert_eq!(float_bits(60_000), 60.0f32.to_bits());
    assert_eq!(float_bits(64_000), 64.0f32.to_bits());
    assert_eq!(float_bits(128_000), 128.0f32.to_bits());
    assert_eq!(float_bits(256_000), 256.0f32.to_bits());
    assert_eq!(float_bits(300_000), 300.0f32.to_bits());
    assert_eq!(float_bits(66_666), 66.666f32.to_bits());
}

#[test]
fn float_bits_is_the_nearest_float_for_every_pulse_in_range() {
    for milli in MIN_MILLI_BPM..=MAX_MILLI_BPM {
        let bits = float_bits(milli);
        // Division of two floats is rounded to nearest.
        assert_eq!(bits, (milli as f32 / 1000.0).to_bits(), "at {milli}");
        let x = f32::from_bits(bits);
        assert!(x.is_finite() && x > 0.0);
        let exact = milli as f64 / 1000.0;
        let here = (x as f64 - exact).abs();
        let below = (f32::from_bits(bits - 1) as f64 - exact).abs();
        let above = (f32::from_bits(bits + 1) as f64 - exact).abs();
        assert!(here <= below && here <= above, "at {milli}");
    }
}

#[test]
fn reading_gives_its_pulse_as_a_float() {
    let mut s = Sen0203::new();
    assert!(s.calculate_fake_avg(0).is_none());
    let r = s.calculate_fake_avg(800_000).unwrap();
    assert_eq!(f32::from_bits(r.bpm_bits()), 75.0);
    let r = s.calculate_fake_avg(1_800_000).unwrap();
    // (800 ms + 1000 ms) / 2 = 900 ms: 66.666 beats per minute.
    assert_eq!(r.milli_bpm(), 66_666);
    assert_eq!(f32::from_bits(r.bpm_bits()), 66.666);
}
