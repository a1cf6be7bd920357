//! A generic interface over the two kinds of detection modes available to the
//! [`EnvelopeDetector`](crate::EnvelopeDetector).
//!
//! See the [`Mode`] trait.

use crate::peak::Peak;
use crate::peak::Rectifier;
use crate::rms::rms_of;
use crate::rms::slide;
use crate::rms::square_of;
use crate::rms::Rms;
use crate::valid_sample;
use core::marker::PhantomData;
use vstd::prelude::*;

verus! {

/// The mode used to detect the envelope of a signal.
///
/// A mode consumes one raw sample at a time and yields the next envelope
/// estimate, updating whatever state is unique to the mode.
pub trait Mode: Sized {
    /// Well-formedness of the state unique to the mode.
    spec fn inv(&self) -> bool;

    /// The estimate that sample `s` will produce from the current state.
    spec fn est_spec(&self, s: int) -> int;

    /// How one step for sample `s` evolves the state.
    spec fn steps_to(&self, next: &Self, s: int) -> bool;

    /// Whether two values carry the same observable detection state.
    spec fn eqv(&self, other: &Self) -> bool;

    /// Update state unique to the mode and yield the estimate for `frame`.
    fn next_frame(&mut self, frame: i64) -> (est: i64)
        requires
            old(self).inv(),
            valid_sample(frame as int),
        ensures
            final(self).inv(),
            est as int == old(self).est_spec(frame as int),
            old(self).steps_to(final(self), frame as int),
            valid_sample(est as int),
    ;

    /// An independent copy of the mode state (used when channels are added).
    fn duplicate(&self) -> (d: Self)
        requires
            self.inv(),
        ensures
            d.inv(),
            self.eqv(&d),
    ;

    /// Equivalent well-formed states produce equal estimates.
    proof fn lemma_eqv_est(&self, other: &Self, s: int)
        requires
            self.inv(),
            other.inv(),
            self.eqv(other),
        ensures
            self.est_spec(s) == other.est_spec(s),
    ;
}

impl<R: Rectifier> Mode for Peak<R> {
    open spec fn inv(&self) -> bool {
        true
    }

    open spec fn est_spec(&self, s: int) -> int {
        R::rectify_spec(s)
    }

    open spec fn steps_to(&self, next: &Self, s: int) -> bool {
        *next == *self
    }

    open spec fn eqv(&self, other: &Self) -> bool {
        true
    }

    fn next_frame(&mut self, frame: i64) -> (est: i64) {
        Peak::<R>::rectify(frame)
    }

    fn duplicate(&self) -> (d: Self) {
        Peak { rectifier: PhantomData }
    }

    proof fn lemma_eqv_est(&self, other: &Self, s: int) {
    }
}

impl Mode for Rms {
    open spec fn inv(&self) -> bool {
        self.wf()
    }

    open spec fn est_spec(&self, s: int) -> int {
        rms_of(slide(self.window(), square_of(s)))
    }

    open spec fn steps_to(&self, next: &Self, s: int) -> bool {
        next.window() == slide(self.window(), square_of(s))
    }

    open spec fn eqv(&self, other: &Self) -> bool {
        self.window() == other.window()
    }

    fn next_frame(&mut self, frame: i64) -> (est: i64) {
        self.next(frame)
    }

    fn duplicate(&self) -> (d: Self) {
        self.replicate()
    }

    proof fn lemma_eqv_est(&self, other: &Self, s: int) {
    }
}

} // verus!
