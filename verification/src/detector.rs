//! Attack/release envelope smoothing over a detection mode.
//!
//! [`EnvelopeDetector`] iteratively extracts the amplitude envelope from a
//! signal based on three parameters: attack time, release time, and a
//! detection mode (either Peak or RMS).  Each step feeds the sample to the
//! mode, then moves the previous envelope toward the mode's estimate by an
//! exponential one-pole smoother, choosing the attack gain when the signal is
//! rising and the release gain otherwise.

use crate::gain::calc_gain;
use crate::gain::gain_spec;
use crate::gain::GAIN_ONE;
use crate::math::lemma_mul_div_le;
use crate::math::lemma_mul_div_lt;
use crate::mode::Mode;
use crate::peak::FullWave;
use crate::peak::Peak;
use crate::rms::resized_window;
use crate::rms::Rms;
use crate::valid_sample;
use vstd::prelude::*;

verus! {

/// One smoothing step: keep fraction `g` (Q16) of the gap between the last
/// envelope `l` and the mode estimate `m`, i.e. move `l` a fraction
/// `1 - g/GAIN_ONE` of the way toward `m`.
pub open spec fn smooth_spec(g: int, l: int, m: int) -> int {
    if l >= m {
        m + (g * (l - m)) / (GAIN_ONE as int)
    } else {
        m - (g * (m - l)) / (GAIN_ONE as int)
    }
}

/// One attack/release step: the attack gain applies while the estimate is
/// above the last envelope (signal rising), the release gain otherwise.
pub open spec fn env_step(ag: int, rg: int, l: int, m: int) -> int {
    if l < m {
        smooth_spec(ag, l, m)
    } else {
        smooth_spec(rg, l, m)
    }
}

/// A smoothing step lands between the last envelope and the estimate, and
/// for a gain below one it moves strictly off the last envelope.
pub proof fn lemma_smooth_bounds(g: int, l: int, m: int)
    requires
        0 <= g <= GAIN_ONE as int,
    ensures
        l >= m ==> m <= smooth_spec(g, l, m) <= l,
        l <= m ==> l <= smooth_spec(g, l, m) <= m,
        g < GAIN_ONE as int && l > m ==> smooth_spec(g, l, m) < l,
        g < GAIN_ONE as int && l < m ==> smooth_spec(g, l, m) > l,
{
    let gi = GAIN_ONE as int;
    if l >= m {
        let d = l - m;
        if d == 0 {
            assert(g * 0 == 0) by (nonlinear_arith);
            assert(0int / gi == 0);
        } else {
            assert(g * d == d * g) by (nonlinear_arith);
            lemma_mul_div_le(d, g, gi);
            if g < gi {
                lemma_mul_div_lt(d, g, gi);
            }
        }
    } else {
        let d = m - l;
        assert(g * d == d * g) by (nonlinear_arith);
        lemma_mul_div_le(d, g, gi);
        if g < gi {
            lemma_mul_div_lt(d, g, gi);
        }
    }
}

/// Compute one smoothing step in exact integer arithmetic.
pub(crate) fn smooth(g: i64, l: i64, m: i64) -> (r: i64)
    requires
        0 <= g <= GAIN_ONE,
        valid_sample(l as int),
        valid_sample(m as int),
    ensures
        r as int == smooth_spec(g as int, l as int, m as int),
        valid_sample(r as int),
{
    proof {
        lemma_smooth_bounds(g as int, l as int, m as int);
    }
    if l >= m {
        let d: i64 = l - m;
        proof {
            assert((g as int) * (d as int) <= 65536 * 2147483648int) by (nonlinear_arith)
                requires 0 <= g as int <= 65536 && 0 <= d as int <= 2147483648int;
        }
        let q: u64 = ((g as u64) * (d as u64)) / (GAIN_ONE as u64);
        m + (q as i64)
    } else {
        let d: i64 = m - l;
        proof {
            assert((g as int) * (d as int) <= 65536 * 2147483648int) by (nonlinear_arith)
                requires 0 <= g as int <= 65536 && 0 <= d as int <= 2147483648int;
        }
        let q: u64 = ((g as u64) * (d as u64)) / (GAIN_ONE as u64);
        m - (q as i64)
    }
}

/// The envelope after `k` steps in which the mode estimate stays at `v`,
/// starting from envelope `e0`.
pub open spec fn env_iter(ag: int, rg: int, e0: int, v: int, k: nat) -> int
    decreases k,
{
    if k == 0 {
        e0
    } else {
        env_step(ag, rg, env_iter(ag, rg, e0, v, (k - 1) as nat), v)
    }
}

/// LAW (monotone approach): while the mode estimate is held at `v`, the
/// envelope moves monotonically from `e0` toward `v` and never overshoots;
/// with a gain below one it keeps moving strictly until it reaches `v`.
pub proof fn lemma_envelope_approaches_estimate(ag: int, rg: int, e0: int, v: int, k: nat)
    requires
        0 <= ag <= GAIN_ONE as int,
        0 <= rg <= GAIN_ONE as int,
    ensures
        e0 <= v ==> e0 <= env_iter(ag, rg, e0, v, k) <= env_iter(ag, rg, e0, v, (k + 1) as nat)
            <= v,
        e0 >= v ==> v <= env_iter(ag, rg, e0, v, (k + 1) as nat) <= env_iter(ag, rg, e0, v, k)
            <= e0,
        e0 < v && ag < GAIN_ONE as int && env_iter(ag, rg, e0, v, k) < v
            ==> env_iter(ag, rg, e0, v, k) < env_iter(ag, rg, e0, v, (k + 1) as nat),
        e0 > v && rg < GAIN_ONE as int && env_iter(ag, rg, e0, v, k) > v
            ==> env_iter(ag, rg, e0, v, (k + 1) as nat) < env_iter(ag, rg, e0, v, k),
    decreases k,
{
    if k == 0 {
        lemma_smooth_bounds(ag, e0, v);
        lemma_smooth_bounds(rg, e0, v);
    } else {
        lemma_envelope_approaches_estimate(ag, rg, e0, v, (k - 1) as nat);
        let cur = env_iter(ag, rg, e0, v, k);
        lemma_smooth_bounds(ag, cur, v);
        lemma_smooth_bounds(rg, cur, v);
    }
}

/// Iteratively extracts the amplitude envelope from a signal based on attack
/// time, release time, and a detection mode (either Peak or RMS).
pub struct EnvelopeDetector<M: Mode> {
    attack_gain: i64,
    release_gain: i64,
    last_env_frame: i64,
    mode: M,
}

/// An `EnvelopeDetector` that tracks the signal envelope using RMS.
pub type RmsEnvelopeDetector = EnvelopeDetector<Rms>;

/// An `EnvelopeDetector` that tracks the full-wave peak envelope of a signal.
pub type PeakEnvelopeDetector = EnvelopeDetector<Peak<FullWave>>;

impl<M: Mode> EnvelopeDetector<M> {
    /// The attack gain, a Q16 fraction.
    pub closed spec fn spec_attack_gain(&self) -> int {
        self.attack_gain as int
    }

    /// The release gain, a Q16 fraction.
    pub closed spec fn spec_release_gain(&self) -> int {
        self.release_gain as int
    }

    /// The most recently emitted envelope value.
    pub closed spec fn spec_last_env(&self) -> int {
        self.last_env_frame as int
    }

    /// The detection mode state.
    pub closed spec fn spec_mode(&self) -> M {
        self.mode
    }

    /// Well-formedness: gains are Q16 fractions, the last envelope is a valid
    /// sample, and the mode's own invariant holds.
    pub closed spec fn wf(&self) -> bool {
        &&& 0 <= self.attack_gain <= GAIN_ONE
        &&& 0 <= self.release_gain <= GAIN_ONE
        &&& valid_sample(self.last_env_frame as int)
        &&& self.mode.inv()
    }

    fn new(mode: M, attack_frames: u32, release_frames: u32) -> (det: Self)
        requires
            mode.inv(),
        ensures
            det.wf(),
            det.spec_attack_gain() == gain_spec(attack_frames),
            det.spec_release_gain() == gain_spec(release_frames),
            det.spec_last_env() == 0,
            det.spec_mode() == mode,
    {
        EnvelopeDetector {
            mode,
            last_env_frame: 0,
            attack_gain: calc_gain(attack_frames),
            release_gain: calc_gain(release_frames),
        }
    }

    /// Set the detector's attack time as a number of frames.
    pub fn set_attack_frames(&mut self, frames: u32)
        requires
            old(self).wf(),
        ensures
            final(self).wf(),
            final(self).spec_attack_gain() == gain_spec(frames),
            final(self).spec_release_gain() == old(self).spec_release_gain(),
            final(self).spec_last_env() == old(self).spec_last_env(),
            final(self).spec_mode() == old(self).spec_mode(),
    {
        self.attack_gain = calc_gain(frames);
    }

    /// Set the detector's release time as a number of frames.
    pub fn set_release_frames(&mut self, frames: u32)
        requires
            old(self).wf(),
        ensures
            final(self).wf(),
            final(self).spec_release_gain() == gain_spec(frames),
            final(self).spec_attack_gain() == old(self).spec_attack_gain(),
            final(self).spec_last_env() == old(self).spec_last_env(),
            final(self).spec_mode() == old(self).spec_mode(),
    {
        self.release_gain = calc_gain(frames);
    }

    /// Given the next input signal frame, detect and return the next envelope
    /// frame.
    pub fn next(&mut self, frame: i64) -> (env: i64)
        requires
            old(self).wf(),
            valid_sample(frame as int),
        ensures
            final(self).wf(),
            env as int == env_step(
                old(self).spec_attack_gain(),
                old(self).spec_release_gain(),
                old(self).spec_last_env(),
                old(self).spec_mode().est_spec(frame as int),
            ),
            final(self).spec_last_env() == env as int,
            old(self).spec_mode().steps_to(&final(self).spec_mode(), frame as int),
            final(self).spec_attack_gain() == old(self).spec_attack_gain(),
            final(self).spec_release_gain() == old(self).spec_release_gain(),
    {
        let est: i64 = self.mode.next_frame(frame);
        let g: i64 = if self.last_env_frame < est {
            self.attack_gain
        } else {
            self.release_gain
        };
        let env: i64 = smooth(g, self.last_env_frame, est);
        self.last_env_frame = env;
        env
    }
}

impl EnvelopeDetector<Rms> {
    /// Construct a new RMS `EnvelopeDetector`.
    pub fn rms(rms_window_frames: usize, attack_frames: u32, release_frames: u32) -> (det:
        RmsEnvelopeDetector)
        ensures
            det.wf(),
            det.spec_attack_gain() == gain_spec(attack_frames),
            det.spec_release_gain() == gain_spec(release_frames),
            det.spec_last_env() == 0,
            det.spec_mode().window() == Seq::new(rms_window_frames as nat, |i: int| 0u64),
    {
        let rms = Rms::new(rms_window_frames);
        Self::new(rms, attack_frames, release_frames)
    }

    /// Set the duration of the RMS window in frames.
    ///
    /// Resizing to the current size leaves the detector untouched.
    pub fn set_window_frames(&mut self, n_window_frames: usize)
        requires
            old(self).wf(),
        ensures
            final(self).wf(),
            final(self).spec_mode().window() == resized_window(
                old(self).spec_mode().window(),
                n_window_frames as nat,
            ),
            final(self).spec_attack_gain() == old(self).spec_attack_gain(),
            final(self).spec_release_gain() == old(self).spec_release_gain(),
            final(self).spec_last_env() == old(self).spec_last_env(),
            n_window_frames == old(self).spec_mode().window().len() ==> *final(self) == *old(
                self,
            ),
    {
        self.mode.set_window_frames(n_window_frames);
    }
}

impl EnvelopeDetector<Peak<FullWave>> {
    /// Construct a new full-wave Peak `EnvelopeDetector`.
    pub fn peak(attack_frames: u32, release_frames: u32) -> (det: PeakEnvelopeDetector)
        ensures
            det.wf(),
            det.spec_attack_gain() == gain_spec(attack_frames),
            det.spec_release_gain() == gain_spec(release_frames),
            det.spec_last_env() == 0,
    {
        let peak = Peak::full_wave();
        Self::new(peak, attack_frames, release_frames)
    }
}

} // verus!
