//! Peak envelope detection over a signal.
//!
//! The primary type of interest in this module is [`Peak`], generic over any
//! [`Rectifier`] policy.  Rectification is pure and stateless: each sample maps
//! to its rectified magnitude under the chosen policy.

use crate::valid_sample;
use core::marker::PhantomData;
use vstd::math::abs;
use vstd::prelude::*;

verus! {

/// A rectifier that produces only the positive samples from a signal.
#[derive(Clone, Copy, Debug)]
pub struct PositiveHalfWave {}

/// A rectifier that produces only the negative samples from a signal.
#[derive(Clone, Copy, Debug)]
pub struct NegativeHalfWave {}

/// A rectifier that produces the absolute amplitude from samples of a signal.
#[derive(Clone, Copy, Debug)]
pub struct FullWave {}

/// Types that can rectify some incoming signal.
pub trait Rectifier: Sized {
    /// What rectification under this policy yields for a sample.
    spec fn rectify_spec(s: int) -> int;

    /// Rectify a single sample of some incoming signal.
    fn rectify(s: i64) -> (r: i64)
        requires
            valid_sample(s as int),
        ensures
            r as int == Self::rectify_spec(s as int),
            valid_sample(r as int),
    ;
}

impl Rectifier for PositiveHalfWave {
    open spec fn rectify_spec(s: int) -> int {
        if s >= 0 {
            s
        } else {
            0
        }
    }

    fn rectify(s: i64) -> (r: i64) {
        if s >= 0 {
            s
        } else {
            0
        }
    }
}

impl Rectifier for NegativeHalfWave {
    open spec fn rectify_spec(s: int) -> int {
        if s <= 0 {
            s
        } else {
            0
        }
    }

    fn rectify(s: i64) -> (r: i64) {
        if s <= 0 {
            s
        } else {
            0
        }
    }
}

impl Rectifier for FullWave {
    open spec fn rectify_spec(s: int) -> int {
        if s < 0 {
            -s
        } else {
            s
        }
    }

    fn rectify(s: i64) -> (r: i64) {
        if s < 0 {
            -s
        } else {
            s
        }
    }
}

/// A peak rectifier, generic over [`FullWave`], [`PositiveHalfWave`] and
/// [`NegativeHalfWave`] rectification.
///
/// It produces a peak-following envelope estimate when `rectify` is called
/// over a signal of samples.  It holds no runtime state.
#[derive(Debug)]
pub struct Peak<R = FullWave> {
    pub(crate) rectifier: PhantomData<R>,
}

impl Peak<FullWave> {
    /// A full-wave peak rectifier.
    pub fn full_wave() -> Peak<FullWave> {
        Peak { rectifier: PhantomData }
    }
}

impl Peak<PositiveHalfWave> {
    /// A positive half-wave peak rectifier.
    pub fn positive_half_wave() -> Peak<PositiveHalfWave> {
        Peak { rectifier: PhantomData }
    }
}

impl Peak<NegativeHalfWave> {
    /// A negative half-wave peak rectifier.
    pub fn negative_half_wave() -> Peak<NegativeHalfWave> {
        Peak { rectifier: PhantomData }
    }
}

/// LAW (full-wave rectification is absolute value): for every sample, the
/// full-wave policy yields exactly `abs(s)`, independent of any state.
pub proof fn lemma_full_wave_is_abs(s: int)
    ensures
        <FullWave as Rectifier>::rectify_spec(s) == abs(s),
{
}

impl<R: Rectifier> Peak<R> {
    /// Return the rectified sample.
    pub fn rectify(s: i64) -> (r: i64)
        requires
            valid_sample(s as int),
        ensures
            r as int == R::rectify_spec(s as int),
            valid_sample(r as int),
    {
        R::rectify(s)
    }
}

} // verus!
