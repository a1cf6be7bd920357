//! Tests for the rectifier policies and the peak detector.

use envelope_detector::FullWave;
use envelope_detector::Mode;
use envelope_detector::NegativeHalfWave;
use envelope_detector::Peak;
use envelope_detector::PositiveHalfWave;

/// A full-wave peak detector maps each sample to its magnitude, statelessly.
#[test]
fn peak_full_wave_scenario() {
    let mut peak = Peak::full_wave();
    assert_eq!(peak.next_frame(-500), 500);
    assert_eq!(peak.next_frame(300), 300);
    assert_eq!(peak.next_frame(-900), 900);
}

/// Full-wave rectification equals the absolute value for any input.
#[test]
fn full_wave_equals_abs() {
    let samples: [i64; 7] = [0, 1, -1, 12345, -12345, 1073741824, -1073741824];
    for &s in samples.iter() {
        assert_eq!(Peak::<FullWave>::rectify(s), s.abs());
    }
}

/// The positive half-wave policy passes non-negative samples and zeroes the
/// rest.
#[test]
fn positive_half_wave_rectifies() {
    assert_eq!(Peak::<PositiveHalfWave>::rectify(300), 300);
    assert_eq!(Peak::<PositiveHalfWave>::rectify(0), 0);
    assert_eq!(Peak::<PositiveHalfWave>::rectify(-500), 0);
    let mut peak = Peak::positive_half_wave();
    assert_eq!(peak.next_frame(-500), 0);
    assert_eq!(peak.next_frame(300), 300);
}

/// The negative half-wave policy passes non-positive samples and zeroes the
/// rest.
#[test]
fn negative_half_wave_rectifies() {
    assert_eq!(Peak::<NegativeHalfWave>::rectify(300), 0);
    assert_eq!(Peak::<NegativeHalfWave>::rectify(0), 0);
    assert_eq!(Peak::<NegativeHalfWave>::rectify(-500), -500);
    let mut peak = Peak::negative_half_wave();
    assert_eq!(peak.next_frame(-500), -500);
    assert_eq!(peak.next_frame(300), 0);
}

/// Rectification carries no state: interleaving samples changes nothing.
#[test]
fn rectification_is_stateless() {
    let mut a = Peak::full_wave();
    let mut b = Peak::full_wave();
    b.next_frame(-1000000);
    b.next_frame(999);
    assert_eq!(a.next_frame(-42), b.next_frame(-42));
}
