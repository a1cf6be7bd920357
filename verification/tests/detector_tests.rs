//! Tests for attack/release envelope smoothing.

use envelope_detector::EnvelopeDetector;

/// Attack/release asymmetry: with a one-frame attack the envelope rises
/// quickly toward a jumped-up estimate, while a very long release time
/// (coefficient saturated at one) freezes the fall entirely.
#[test]
fn attack_release_asymmetry() {
    // attack gain: 65536 * exp(-1) computed as the truncated series = 24108
    let mut det = EnvelopeDetector::peak(1, 100000);
    let e1 = det.next(65536);
    assert_eq!(e1, 65536 - 24108);  // rises ~63% of the way
    let e2 = det.next(65536);
    assert_eq!(e2, 65536 - 8868);  // keeps rising toward 65536
    assert!(e1 < e2 && e2 < 65536);
    // the estimate drops to 0, but the release side is frozen
    let e3 = det.next(0);
    assert_eq!(e3, e2);
    let e4 = det.next(0);
    assert_eq!(e4, e2);
}

/// With a zero-frame attack the envelope jumps to the estimate at once:
/// a defined boundary behaviour, not an error.
#[test]
fn zero_attack_frames_jumps_immediately() {
    let mut det = EnvelopeDetector::peak(0, 0);
    assert_eq!(det.next(12345), 12345);
    assert_eq!(det.next(-700), 700);
    assert_eq!(det.next(0), 0);
}

/// While the estimate is held constant, the envelope approaches it
/// monotonically and never overshoots, from below and from above.
#[test]
fn envelope_approaches_estimate_monotonically() {
    let mut det = EnvelopeDetector::peak(2, 3);
    let target: i64 = 50000;
    let mut last: i64 = 0;
    for _ in 0..200 {
        let e = det.next(target);
        assert!(last <= e && e <= target);
        last = e;
    }
    assert_eq!(last, target);
    // now fall back toward zero, never undershooting
    for _ in 0..200 {
        let e = det.next(0);
        assert!(0 <= e && e <= last);
        last = e;
    }
    assert_eq!(last, 0);
}

/// Changing the attack and release times only swaps the coefficients; the
/// envelope memory is untouched.
#[test]
fn set_frames_keeps_envelope_memory() {
    let mut slow = EnvelopeDetector::peak(1000, 1000);
    let mut fast = EnvelopeDetector::peak(0, 0);
    let warm = slow.next(40000);
    fast.next(40000);
    assert!(warm < 40000);
    // make `fast` mirror `slow`'s configuration; its memory is 40000
    fast.set_attack_frames(1000);
    fast.set_release_frames(1000);
    let a = fast.next(0);
    assert!(0 < a && a < 40000);
}

/// An RMS-mode detector smooths the windowed RMS estimate.
#[test]
fn rms_detector_tracks_window_estimate() {
    // zero-frame gains: the envelope equals the raw RMS estimate
    let mut det = EnvelopeDetector::rms(4, 0, 0);
    assert_eq!(det.next(1000), 500);
    assert_eq!(det.next(1000), 707);
    assert_eq!(det.next(1000), 866);
    assert_eq!(det.next(1000), 1000);
    assert_eq!(det.next(0), 866);
}

/// Resizing the RMS window to its current size leaves subsequent outputs
/// identical to never resizing.
#[test]
fn detector_window_resize_noop() {
    let mut resized = EnvelopeDetector::rms(3, 2, 5);
    let mut control = EnvelopeDetector::rms(3, 2, 5);
    for &s in [500, -100, 2500].iter() {
        assert_eq!(resized.next(s), control.next(s));
    }
    resized.set_window_frames(3);
    resized.set_window_frames(3);
    for &s in [0, 900, -900, 333, 0].iter() {
        assert_eq!(resized.next(s), control.next(s));
    }
}

/// The RMS detector's output is never negative.
#[test]
fn detector_rms_output_never_negative() {
    let mut det = EnvelopeDetector::rms(2, 1, 1);
    for &s in [-5000, 5000, -1, 1, 0, -999999].iter() {
        assert!(det.next(s) >= 0);
    }
}

/// Envelope of a full-scale square wave through a peak detector with
/// zero-frame gains follows the rectified signal exactly.
#[test]
fn detector_extreme_amplitude() {
    let mut det = EnvelopeDetector::peak(0, 0);
    assert_eq!(det.next(1073741824), 1073741824);
    assert_eq!(det.next(-1073741824), 1073741824);
    assert_eq!(det.next(0), 0);
}
