//! Derivation of exponential smoothing coefficients from time constants.
//!
//! A smoothing time of `T` frames calls for a per-step retention factor of
//! `exp(-1/T)`.  Gains are Q16 fixed-point fractions: `GAIN_ONE` stands for
//! one.  The coefficient is computed as a truncated alternating power series
//! in exact integer arithmetic.

use crate::math::lemma_mul_div_le;
use vstd::arithmetic::div_mod::lemma_div_nonincreasing;
use vstd::arithmetic::div_mod::lemma_div_pos_is_pos;
use vstd::prelude::*;

verus! {

/// Fixed-point one: gains are Q16 fractions in `[0, GAIN_ONE]`.
pub const GAIN_ONE: i64 = 65536;

/// The Q16 smoothing coefficient for a time constant of `frames` frames:
/// a truncated alternating series for `GAIN_ONE * exp(-1/frames)`.
///
/// A time constant of zero yields coefficient zero, so the envelope jumps to
/// the estimate at once: a defined boundary behaviour, not an error.  Beyond
/// `GAIN_ONE` frames the reciprocal underflows to zero and the coefficient
/// saturates at `GAIN_ONE`.
pub open spec fn gain_spec(frames: u32) -> int {
    if frames == 0 {
        0
    } else {
        let x = (GAIN_ONE as int) / (frames as int);
        let t2 = (x * x) / (2 * GAIN_ONE as int);
        let t3 = (t2 * x) / (3 * GAIN_ONE as int);
        let t4 = (t3 * x) / (4 * GAIN_ONE as int);
        let t5 = (t4 * x) / (5 * GAIN_ONE as int);
        let t6 = (t5 * x) / (6 * GAIN_ONE as int);
        let t7 = (t6 * x) / (7 * GAIN_ONE as int);
        (GAIN_ONE as int) - x + t2 - t3 + t4 - t5 + t6 - t7
    }
}

/// A derived coefficient is always a valid Q16 fraction.
pub proof fn lemma_gain_spec_bounds(frames: u32)
    ensures
        0 <= gain_spec(frames) <= GAIN_ONE as int,
{
    if frames != 0 {
        let gi = GAIN_ONE as int;
        let x = gi / (frames as int);
        lemma_div_pos_is_pos(gi, frames as int);
        lemma_div_nonincreasing(gi, frames as int);
        let t2 = (x * x) / (2 * gi);
        let t3 = (t2 * x) / (3 * gi);
        let t4 = (t3 * x) / (4 * gi);
        let t5 = (t4 * x) / (5 * gi);
        let t6 = (t5 * x) / (6 * gi);
        let t7 = (t6 * x) / (7 * gi);
        lemma_mul_div_le(x, x, 2 * gi);
        lemma_mul_div_le(t2, x, 3 * gi);
        lemma_mul_div_le(t3, x, 4 * gi);
        lemma_mul_div_le(t4, x, 5 * gi);
        lemma_mul_div_le(t5, x, 6 * gi);
        lemma_mul_div_le(t6, x, 7 * gi);
    }
}

/// Compute the Q16 smoothing coefficient for a time constant in frames.
pub fn calc_gain(frames: u32) -> (g: i64)
    ensures
        g as int == gain_spec(frames),
        0 <= g <= GAIN_ONE,
{
    proof {
        lemma_gain_spec_bounds(frames);
    }
    if frames == 0 {
        return 0;
    }
    let fi: i64 = frames as i64;
    let x: i64 = GAIN_ONE / fi;
    proof {
        lemma_div_pos_is_pos(GAIN_ONE as int, fi as int);
        lemma_div_nonincreasing(GAIN_ONE as int, fi as int);
        lemma_mul_div_le(x as int, x as int, 2 * GAIN_ONE as int);
        assert((x as int) * (x as int) <= 65536 * 65536) by (nonlinear_arith)
            requires 0 <= x as int <= 65536;
    }
    let t2: i64 = (x * x) / (2 * GAIN_ONE);
    proof {
        lemma_mul_div_le(t2 as int, x as int, 3 * GAIN_ONE as int);
        assert((t2 as int) * (x as int) <= 65536 * 65536) by (nonlinear_arith)
            requires 0 <= t2 as int <= 65536 && 0 <= x as int <= 65536;
    }
    let t3: i64 = (t2 * x) / (3 * GAIN_ONE);
    proof {
        lemma_mul_div_le(t3 as int, x as int, 4 * GAIN_ONE as int);
        assert((t3 as int) * (x as int) <= 65536 * 65536) by (nonlinear_arith)
            requires 0 <= t3 as int <= 65536 && 0 <= x as int <= 65536;
    }
    let t4: i64 = (t3 * x) / (4 * GAIN_ONE);
    proof {
        lemma_mul_div_le(t4 as int, x as int, 5 * GAIN_ONE as int);
        assert((t4 as int) * (x as int) <= 65536 * 65536) by (nonlinear_arith)
            requires 0 <= t4 as int <= 65536 && 0 <= x as int <= 65536;
    }
    let t5: i64 = (t4 * x) / (5 * GAIN_ONE);
    proof {
        lemma_mul_div_le(t5 as int, x as int, 6 * GAIN_ONE as int);
        assert((t5 as int) * (x as int) <= 65536 * 65536) by (nonlinear_arith)
            requires 0 <= t5 as int <= 65536 && 0 <= x as int <= 65536;
    }
    let t6: i64 = (t5 * x) / (6 * GAIN_ONE);
    proof {
        lemma_mul_div_le(t6 as int, x as int, 7 * GAIN_ONE as int);
        assert((t6 as int) * (x as int) <= 65536 * 65536) by (nonlinear_arith)
            requires 0 <= t6 as int <= 65536 && 0 <= x as int <= 65536;
    }
    let t7: i64 = (t6 * x) / (7 * GAIN_ONE);
    GAIN_ONE - x + t2 - t3 + t4 - t5 + t6 - t7
}

} // verus!
