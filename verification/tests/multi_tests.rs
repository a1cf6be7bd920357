//! Tests for the multi-channel envelope detector.

use envelope_detector::EnvelopeDetector;
use envelope_detector::MultiChannelEnvelopeDetector;

/// Growing and then shrinking back to the original channel count preserves
/// the originally-existing channels: their subsequent outputs match a
/// detector that was never resized.
#[test]
fn channels_grow_then_shrink_preserves_originals() {
    let mut resized = MultiChannelEnvelopeDetector::new_rms(3, 2, 4, 2);
    let mut control = MultiChannelEnvelopeDetector::new_rms(3, 2, 4, 2);
    for &s in [400, -90, 12000, 7].iter() {
        for ch in 0..2 {
            assert_eq!(resized.next(ch, s), control.next(ch, s));
        }
    }
    resized.set_channels(4);
    assert_eq!(resized.channel_count(), 4);
    // disturb only the tail channels
    resized.next(2, 999999);
    resized.next(3, -999999);
    resized.set_channels(2);
    assert_eq!(resized.channel_count(), 2);
    for &s in [0, 800, -800, 31].iter() {
        for ch in 0..2 {
            assert_eq!(resized.next(ch, s), control.next(ch, s));
        }
    }
}

/// New channels are cloned from the last existing channel: they start caught
/// up with its envelope rather than cold at equilibrium.
#[test]
fn grown_channels_start_caught_up() {
    let mut det = MultiChannelEnvelopeDetector::new_peak(3, 3, 1);
    let warm = det.next(0, 50000);
    det.set_channels(2);
    // channel 1 is a clone of channel 0, so identical inputs give identical
    // outputs from here on
    let a = det.next(0, 20000);
    let b = det.next(1, 20000);
    assert_eq!(a, b);
    assert!(warm > 0);
}

/// An out-of-range channel index fails fast: the checked entry point returns
/// `None` and the detector is untouched.
#[test]
fn channel_index_out_of_bounds_fails_fast() {
    let mut det = MultiChannelEnvelopeDetector::new_peak(1, 1, 2);
    assert!(det.try_next(2, 100).is_none());
    assert!(det.try_next(99, 100).is_none());
    assert_eq!(det.channel_count(), 2);
    // in-range indices still work, and the refused calls changed nothing
    let mut control = MultiChannelEnvelopeDetector::new_peak(1, 1, 2);
    let a = det.try_next(1, 100).unwrap();
    let b = control.next(1, 100);
    assert_eq!(a, b);
}

/// Channels evolve independently: feeding one channel never disturbs another.
#[test]
fn channels_are_independent() {
    let mut multi = MultiChannelEnvelopeDetector::new_rms(2, 1, 1, 2);
    let mut single = EnvelopeDetector::rms(2, 1, 1);
    // hammer channel 1 with unrelated data
    multi.next(1, 987654);
    multi.next(1, -13);
    for &s in [100, -200, 300].iter() {
        assert_eq!(multi.next(0, s), single.next(s));
    }
}

/// The shared window size and gain settings apply to every channel.
#[test]
fn shared_settings_apply_to_all_channels() {
    let mut multi = MultiChannelEnvelopeDetector::new_rms(4, 9, 9, 3);
    let mut single = EnvelopeDetector::rms(4, 9, 9);
    multi.set_window_frames(2);
    multi.set_attack_frames(0);
    multi.set_release_frames(0);
    single.set_window_frames(2);
    single.set_attack_frames(0);
    single.set_release_frames(0);
    for &s in [1000, 1000, -500].iter() {
        let expected = single.next(s);
        for ch in 0..3 {
            assert_eq!(multi.next(ch, s), expected);
        }
    }
    // single and multi agree; with zero-frame gains the output is the raw RMS
    assert_eq!(single.next(1000), multi.next(0, 1000));
}

/// Setting the channel count to the current count changes nothing.
#[test]
fn set_channels_to_same_count_is_noop() {
    let mut resized = MultiChannelEnvelopeDetector::new_peak(2, 2, 2);
    let mut control = MultiChannelEnvelopeDetector::new_peak(2, 2, 2);
    resized.next(0, 777);
    control.next(0, 777);
    resized.set_channels(2);
    for &s in [10, -10, 500].iter() {
        for ch in 0..2 {
            assert_eq!(resized.next(ch, s), control.next(ch, s));
        }
    }
}
