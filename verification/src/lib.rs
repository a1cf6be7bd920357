//! Iterative amplitude-envelope extraction from a stream of audio samples.
//!
//! Samples are fixed-point integers: a raw amplitude in `[-AMP_LIMIT, AMP_LIMIT]`
//! at whatever scale the host chooses.  Every step is exact integer arithmetic,
//! so each detector's output is pinned by its contract.
//!
//! The primary types of interest are:
//!
//! - [`EnvelopeDetector`]: attack/release smoothing over a detection mode.
//! - [`MultiChannelEnvelopeDetector`]: one smoothing state per channel.
//! - [`Rms`]: windowed root-mean-square detection.
//! - [`Peak`]: instantaneous peak rectification.

use vstd::prelude::*;

pub mod detector;
pub mod gain;
pub mod math;
pub mod mode;
pub mod multi;
pub mod peak;
pub mod rms;

pub use detector::EnvelopeDetector;
pub use detector::PeakEnvelopeDetector;
pub use detector::RmsEnvelopeDetector;
pub use mode::Mode;
pub use multi::MultiChannelEnvelopeDetector;
pub use peak::FullWave;
pub use peak::NegativeHalfWave;
pub use peak::Peak;
pub use peak::PositiveHalfWave;
pub use peak::Rectifier;
pub use rms::Rms;

verus! {

/// Largest sample magnitude the detectors accept: 2^30.
///
/// Keeping samples within this bound keeps every intermediate product
/// (squares, gain-scaled differences) inside `i64`/`u128` range.
pub const AMP_LIMIT: i64 = 1073741824;

/// A sample (or envelope value) the detectors may be fed or produce.
pub open spec fn valid_sample(s: int) -> bool {
    -(AMP_LIMIT as int) <= s <= AMP_LIMIT as int
}

} // verus!
