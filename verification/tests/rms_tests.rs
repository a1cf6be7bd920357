//! Tests for the windowed RMS detector.

use envelope_detector::Rms;

/// Feeding four equal samples into a window of four yields sqrt(k/4) of the
/// amplitude after the k-th sample; a fifth zero sample yields sqrt(3/4).
#[test]
fn rms_window_of_four_scenario() {
    let mut rms = Rms::new(4);
    // isqrt(1_000_000 * k / 4) for k = 1..4
    assert_eq!(rms.next(1000), 500);
    assert_eq!(rms.next(1000), 707);
    assert_eq!(rms.next(1000), 866);
    assert_eq!(rms.next(1000), 1000);
    // window now [1e6, 1e6, 1e6, 0]: sqrt(3/4) * 1000
    assert_eq!(rms.next(0), 866);
}

/// RMS output is never negative, whatever the sample sequence.
#[test]
fn rms_output_never_negative() {
    let mut rms = Rms::new(3);
    let samples: [i64; 10] = [5, -1000, 40, 0, -7, 999999, -999999, 123, -456, 789];
    for &s in samples.iter() {
        assert!(rms.next(s) >= 0);
    }
}

/// A window size of zero is a defined boundary: the output is always zero and
/// no state is touched.
#[test]
fn rms_empty_window_yields_zero() {
    let mut rms = Rms::new(0);
    assert_eq!(rms.window_frames(), 0);
    assert_eq!(rms.next(12345), 0);
    assert_eq!(rms.next(-999), 0);
    assert_eq!(rms.window_frames(), 0);
}

/// Resizing to the current size is a no-op: two no-op resizes leave
/// subsequent outputs identical to a detector never resized.
#[test]
fn rms_resize_to_same_size_is_noop() {
    let mut resized = Rms::new(4);
    let mut control = Rms::new(4);
    let warmup: [i64; 3] = [100, -250, 3000];
    for &s in warmup.iter() {
        let a = resized.next(s);
        let b = control.next(s);
        assert_eq!(a, b);
    }
    resized.set_window_frames(4);
    resized.set_window_frames(4);
    let follow: [i64; 5] = [7, -7, 5000, 0, 42];
    for &s in follow.iter() {
        let a = resized.next(s);
        let b = control.next(s);
        assert_eq!(a, b);
    }
}

/// Shrinking evicts the oldest entries and keeps the running sum consistent.
#[test]
fn rms_shrink_evicts_oldest() {
    let mut rms = Rms::new(4);
    // window: [0, 0, 0, 1_000_000]
    rms.next(1000);
    rms.set_window_frames(2);
    assert_eq!(rms.window_frames(), 2);
    // window was [0, 1_000_000]; feeding 0 gives [1_000_000, 0]
    assert_eq!(rms.next(0), 707);
}

/// Growing pads the front with the current mean square, so the RMS value
/// carries on without an artificial dip.
#[test]
fn rms_grow_pads_with_average() {
    let mut rms = Rms::new(2);
    rms.next(1000);
    rms.next(1000);
    rms.set_window_frames(4);
    assert_eq!(rms.window_frames(), 4);
    // the padded entries equal the old mean square, so the RMS stays put
    assert_eq!(rms.next(1000), 1000);
    let (window, sum) = rms.into_parts();
    assert_eq!(window, vec![1000000u64, 1000000, 1000000, 1000000]);
    assert_eq!(sum, 4000000u128);
}

/// `reset` zeroes every window entry and the running sum.
#[test]
fn rms_reset_zeroes_state() {
    let mut rms = Rms::new(3);
    rms.next(123);
    rms.next(-456);
    rms.reset();
    assert_eq!(rms.window_frames(), 3);
    assert_eq!(rms.next(0), 0);
    let (window, sum) = rms.into_parts();
    assert_eq!(window, vec![0u64, 0, 0]);
    assert_eq!(sum, 0u128);
}

/// `into_parts` yields the window oldest-first together with its exact sum.
#[test]
fn rms_into_parts_matches_window() {
    let mut rms = Rms::new(3);
    rms.next(10);
    rms.next(20);
    let (window, sum) = rms.into_parts();
    assert_eq!(window, vec![0u64, 100, 400]);
    assert_eq!(sum, 500u128);
}

/// The detector accepts the full amplitude range exactly.
#[test]
fn rms_extreme_amplitude() {
    let mut rms = Rms::new(1);
    assert_eq!(rms.next(1073741824), 1073741824);
    assert_eq!(rms.next(-1073741824), 1073741824);
    assert_eq!(rms.next(0), 0);
}
