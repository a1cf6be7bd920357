//! Root mean square calculation over a signal.
//!
//! [`Rms`] keeps a circular window of squared samples together with their
//! running sum.  Each step evicts the oldest square, takes in the newest, and
//! yields the integer square root of the mean square.  Because the arithmetic
//! is exact, the running sum always equals the true sum of the window.

use crate::math::isqrt64;
use crate::math::lemma_sum_elem_le;
use crate::math::lemma_sum_le;
use crate::math::lemma_sum_nonneg;
use crate::math::lemma_sum_push;
use crate::math::lemma_sum_split;
use crate::math::lemma_sum_update;
use crate::math::lemma_sum_concat;
use crate::math::lemma_sqrt_floor_le;
use crate::math::sqrt_floor;
use crate::math::sum_seq;
use crate::valid_sample;
use crate::AMP_LIMIT;
use vstd::arithmetic::div_mod::lemma_div_by_multiple;
use vstd::arithmetic::mul::lemma_mul_inequality;
use vstd::arithmetic::div_mod::lemma_div_is_ordered;
use vstd::arithmetic::div_mod::lemma_div_pos_is_pos;
use vstd::prelude::*;

verus! {

/// Largest squared sample: `AMP_LIMIT * AMP_LIMIT` (2^60).
pub const SQUARE_LIMIT: u64 = 1152921504606846976;

/// The square of a sample, as a window entry.
pub open spec fn square_of(s: int) -> u64 {
    (s * s) as u64
}

/// The RMS value of a window of squared samples: the floor square root of the
/// mean square, and zero for an empty window.
pub open spec fn rms_of(w: Seq<u64>) -> int {
    if w.len() == 0 {
        0
    } else {
        sqrt_floor(sum_seq(w) / w.len() as int)
    }
}

/// A window after one step: the oldest entry leaves, `sq` enters.  An empty
/// window is left untouched.
pub open spec fn slide(w: Seq<u64>, sq: u64) -> Seq<u64> {
    if w.len() == 0 {
        w
    } else {
        w.drop_first().push(sq)
    }
}

/// The mean square of a window (zero when empty).
pub open spec fn avg_of(w: Seq<u64>) -> u64 {
    if w.len() == 0 {
        0u64
    } else {
        (sum_seq(w) / w.len() as int) as u64
    }
}

/// A window resized to `n` entries.  Shrinking evicts from the front (oldest
/// first); growing pads the front with the current mean square, so the RMS
/// value is disturbed as little as possible and the synthetic entries are the
/// first to be evicted again.
pub open spec fn resized_window(w: Seq<u64>, n: nat) -> Seq<u64> {
    if n <= w.len() {
        w.skip(w.len() - n as int)
    } else {
        Seq::new((n - w.len()) as nat, |i: int| avg_of(w)) + w
    }
}

/// The window contents of a circular buffer `b` whose oldest entry sits at `st`.
spec fn window_of(b: Seq<u64>, st: int) -> Seq<u64> {
    b.subrange(st, b.len() as int) + b.subrange(0, st)
}

/// Rotating a sequence does not change its sum.
proof fn lemma_window_sum(b: Seq<u64>, st: int)
    requires
        0 <= st <= b.len(),
    ensures
        sum_seq(window_of(b, st)) == sum_seq(b),
{
    lemma_sum_concat(b.subrange(st, b.len() as int), b.subrange(0, st));
    lemma_sum_split(b, st);
}

/// Overwriting the oldest entry and advancing the cursor slides the window.
proof fn lemma_rotate_step(b: Seq<u64>, st: int, sq: u64)
    requires
        0 <= st < b.len(),
    ensures
        window_of(b.update(st, sq), if st + 1 == b.len() { 0int } else { st + 1 })
            == slide(window_of(b, st), sq),
{
    let n = b.len() as int;
    let b2 = b.update(st, sq);
    let st2: int = if st + 1 == n { 0int } else { st + 1 };
    let w = window_of(b, st);
    let w2 = window_of(b2, st2);
    let t = slide(w, sq);
    assert(w.len() == n);
    assert(w2.len() == n);
    assert(t.len() == n);
    assert forall|i: int| 0 <= i < n implies w2[i] == t[i] by {
        if i < n - 1 {
            assert(t[i] == w[i + 1]);
            if i + 1 < n - st {
                assert(w[i + 1] == b[st + i + 1]);
            } else {
                assert(w[i + 1] == b[i + 1 - (n - st)]);
            }
            if i < n - st2 {
                assert(w2[i] == b2[st2 + i]);
            } else {
                assert(w2[i] == b2[i - (n - st2)]);
            }
        } else {
            assert(t[i] == sq);
            if i < n - st2 {
                assert(w2[i] == b2[st2 + i]);
            } else {
                assert(w2[i] == b2[i - (n - st2)]);
            }
        }
    };
    assert(w2 =~= t);
}

/// Iteratively extracts the RMS (root mean square) envelope from a window
/// over a signal of samples.
#[derive(Debug)]
pub struct Rms {
    /// Circular buffer of squared samples (`sample * sample`).  When a new
    /// sample arrives, the oldest square is popped and the new one pushed.
    buf: Vec<u64>,
    /// Index in `buf` of the oldest square.
    start: usize,
    /// The sum of all squares currently within the window.
    sum: u128,
}

impl Rms {
    /// The window contents, oldest first.
    pub closed spec fn window(&self) -> Seq<u64> {
        window_of(self.buf@, self.start as int)
    }

    /// Well-formedness: cursor in range, entries are bounded squares, and the
    /// running sum is exactly the sum of the window.
    pub closed spec fn wf(&self) -> bool {
        &&& (self.buf@.len() == 0 ==> self.start == 0)
        &&& (self.buf@.len() > 0 ==> (self.start as int) < self.buf@.len())
        &&& (forall|i: int| 0 <= i < self.buf@.len() ==> self.buf@[i] <= SQUARE_LIMIT)
        &&& self.sum as int == sum_seq(self.buf@)
    }

    /// Construct a new `Rms` with the given window size in frames.
    ///
    /// The window starts filled with zero squares, the signal's equilibrium.
    pub fn new(window_frames: usize) -> (rms: Rms)
        ensures
            rms.wf(),
            rms.window() == Seq::new(window_frames as nat, |i: int| 0u64),
    {
        let mut buf: Vec<u64> = Vec::new();
        let mut i: usize = 0;
        while i < window_frames
            invariant
                i <= window_frames,
                buf@ == Seq::new(i as nat, |j: int| 0u64),
            decreases window_frames - i,
        {
            buf.push(0);
            i = i + 1;
            proof {
                assert(buf@ =~= Seq::new(i as nat, |j: int| 0u64));
            }
        }
        proof {
            lemma_sum_le(buf@, 0);
            lemma_sum_nonneg(buf@);
            assert(window_of(buf@, 0) =~= buf@);
        }
        Rms { buf, start: 0, sum: 0 }
    }

    /// Zero every window entry and the running sum.
    pub fn reset(&mut self)
        requires
            old(self).wf(),
        ensures
            final(self).wf(),
            final(self).window() == Seq::new(old(self).window().len(), |i: int| 0u64),
    {
        let len = self.buf.len();
        let mut i: usize = 0;
        while i < len
            invariant
                i <= len,
                self.buf@.len() == len,
                forall|j: int| 0 <= j < i ==> self.buf@[j] == 0,
            decreases len - i,
        {
            self.buf.set(i, 0);
            i = i + 1;
        }
        self.start = 0;
        self.sum = 0;
        proof {
            lemma_sum_le(self.buf@, 0);
            lemma_sum_nonneg(self.buf@);
            assert(window_of(self.buf@, 0) =~= self.buf@);
            assert(self.buf@ =~= Seq::new(old(self).window().len(), |j: int| 0u64));
        }
    }

    /// The length of the window as a number of frames.
    pub fn window_frames(&self) -> (n: usize)
        requires
            self.wf(),
        ensures
            n == self.window().len(),
    {
        self.buf.len()
    }

    /// The window entry at window index `i` (`0` is the oldest).
    fn window_get(&self, i: usize) -> (v: u64)
        requires
            self.wf(),
            i < self.window().len(),
        ensures
            v == self.window()[i as int],
    {
        let len = self.buf.len();
        let k = len - self.start;
        let idx = if i < k {
            self.start + i
        } else {
            i - k
        };
        self.buf[idx]
    }

    /// The window contents from window index `from` on, oldest first.
    fn copy_window_tail(&self, from: usize) -> (v: Vec<u64>)
        requires
            self.wf(),
            from <= self.window().len(),
        ensures
            v@ == self.window().skip(from as int),
    {
        let len = self.buf.len();
        let mut v: Vec<u64> = Vec::new();
        let mut i: usize = from;
        while i < len
            invariant
                from <= i <= len,
                self.wf(),
                len == self.buf@.len(),
                v@ == self.window().subrange(from as int, i as int),
            decreases len - i,
        {
            let x = self.window_get(i);
            v.push(x);
            i = i + 1;
            proof {
                assert(v@ =~= self.window().subrange(from as int, i as int));
            }
        }
        proof {
            assert(v@ =~= self.window().skip(from as int));
        }
        v
    }

    /// Sum a vector of bounded squares exactly.
    fn sum_vec(v: &Vec<u64>) -> (s: u128)
        requires
            forall|i: int| 0 <= i < v@.len() ==> v@[i] <= SQUARE_LIMIT,
        ensures
            s as int == sum_seq(v@),
    {
        let mut s: u128 = 0;
        let mut i: usize = 0;
        while i < v.len()
            invariant
                i <= v@.len(),
                forall|j: int| 0 <= j < v@.len() ==> v@[j] <= SQUARE_LIMIT,
                s as int == sum_seq(v@.subrange(0, i as int)),
            decreases v@.len() - i,
        {
            proof {
                lemma_sum_le(v@.subrange(0, i as int), SQUARE_LIMIT);
                assert(i as int <= 18446744073709551615int);
                lemma_mul_inequality(i as int, 18446744073709551615int, SQUARE_LIMIT as int);
                lemma_sum_push(v@.subrange(0, i as int), v@[i as int]);
                assert(v@.subrange(0, i as int + 1)
                    =~= v@.subrange(0, i as int).push(v@[i as int]));
            }
            s = s + (v[i] as u128);
            i = i + 1;
        }
        proof {
            assert(v@.subrange(0, v@.len() as int) =~= v@);
        }
        s
    }

    /// The mean square of a non-empty window.
    fn mean_square(&self) -> (m: u64)
        requires
            self.wf(),
            self.window().len() > 0,
        ensures
            m as int == sum_seq(self.window()) / self.window().len() as int,
            m <= SQUARE_LIMIT,
    {
        proof {
            lemma_window_sum(self.buf@, self.start as int);
            lemma_sum_le(self.buf@, SQUARE_LIMIT);
            lemma_sum_nonneg(self.buf@);
            let n = self.buf@.len() as int;
            lemma_div_is_ordered(self.sum as int, n * (SQUARE_LIMIT as int), n);
            lemma_div_by_multiple(SQUARE_LIMIT as int, n);
            assert(n * (SQUARE_LIMIT as int) == (SQUARE_LIMIT as int) * n) by (nonlinear_arith);
            lemma_div_pos_is_pos(self.sum as int, n);
        }
        (self.sum / (self.buf.len() as u128)) as u64
    }

    /// The next RMS value given the new sample in the sequence.
    ///
    /// The oldest squared sample is popped from the window and the square of
    /// `new_frame` pushed; the yielded RMS covers the window after the push.
    /// Returns `0` if the window is empty, without touching any state.
    pub fn next(&mut self, new_frame: i64) -> (rms: i64)
        requires
            old(self).wf(),
            valid_sample(new_frame as int),
        ensures
            final(self).wf(),
            final(self).window() == slide(old(self).window(), square_of(new_frame as int)),
            rms as int == rms_of(final(self).window()),
            0 <= rms <= AMP_LIMIT,
    {
        let n = self.buf.len();
        if n == 0 {
            return 0;
        }
        proof {
            assert(0 <= (new_frame as int) * (new_frame as int) <= SQUARE_LIMIT as int)
                by (nonlinear_arith)
                requires -1073741824 <= new_frame as int && new_frame as int <= 1073741824;
        }
        let sqi: i64 = new_frame * new_frame;
        let sq: u64 = sqi as u64;
        let st = self.start;
        let old_sq: u64 = self.buf[st];
        proof {
            lemma_sum_elem_le(self.buf@, st as int);
            lemma_sum_le(self.buf@, SQUARE_LIMIT);
            assert(self.buf@.len() as int <= 18446744073709551615int);
            lemma_mul_inequality(
                self.buf@.len() as int,
                18446744073709551615int,
                SQUARE_LIMIT as int,
            );
        }
        let s1: u128 = self.sum - (old_sq as u128);
        let s2: u128 = s1 + (sq as u128);
        self.sum = s2;
        self.buf.set(st, sq);
        self.start = if st + 1 == n {
            0
        } else {
            st + 1
        };
        proof {
            lemma_sum_update(old(self).buf@, st as int, sq);
            lemma_rotate_step(old(self).buf@, st as int, sq);
        }
        let mean: u64 = self.mean_square();
        let r: u64 = isqrt64(mean);
        proof {
            assert((AMP_LIMIT as int) * (AMP_LIMIT as int) == SQUARE_LIMIT as int);
            lemma_sqrt_floor_le(mean as int, AMP_LIMIT as int);
        }
        r as i64
    }

    /// Resize the window to `n` frames.
    ///
    /// Resizing to the current size leaves the detector untouched.  Shrinking
    /// evicts the oldest entries.  Growing pads the front with the current
    /// mean square, preserving the RMS value as closely as possible instead of
    /// introducing an artificial dip.
    pub fn set_window_frames(&mut self, n: usize)
        requires
            old(self).wf(),
        ensures
            final(self).wf(),
            final(self).window() == resized_window(old(self).window(), n as nat),
            n == old(self).window().len() ==> *final(self) == *old(self),
    {
        let len = self.buf.len();
        if n == len {
            proof {
                assert(resized_window(self.window(), n as nat) =~= self.window());
            }
            return;
        }
        if n < len {
            let v = self.copy_window_tail(len - n);
            proof {
                assert forall|i: int| 0 <= i < v@.len() implies v@[i] <= SQUARE_LIMIT by {
                    assert(v@[i] == self.window()[len - n + i]);
                }
            }
            let ns = Rms::sum_vec(&v);
            proof {
                assert(window_of(v@, 0) =~= v@);
            }
            self.buf = v;
            self.start = 0;
            self.sum = ns;
        } else {
            let avg: u64 = if len == 0 {
                0
            } else {
                self.mean_square()
            };
            let extra = n - len;
            let mut v: Vec<u64> = Vec::new();
            let mut i: usize = 0;
            while i < extra
                invariant
                    i <= extra,
                    v@ == Seq::new(i as nat, |j: int| avg),
                decreases extra - i,
            {
                v.push(avg);
                i = i + 1;
                proof {
                    assert(v@ =~= Seq::new(i as nat, |j: int| avg));
                }
            }
            let tail = self.copy_window_tail(0);
            let ghost pad = v@;
            let mut j: usize = 0;
            while j < tail.len()
                invariant
                    j <= tail@.len(),
                    v@ == pad + tail@.subrange(0, j as int),
                decreases tail@.len() - j,
            {
                let x = tail[j];
                v.push(x);
                j = j + 1;
                proof {
                    assert(v@ =~= pad + tail@.subrange(0, j as int));
                }
            }
            proof {
                assert(tail@.subrange(0, tail@.len() as int) =~= tail@);
                assert(tail@ =~= self.window());
                assert forall|i2: int| 0 <= i2 < v@.len() implies v@[i2] <= SQUARE_LIMIT by {
                    if i2 >= pad.len() {
                        assert(v@[i2] == self.window()[i2 - pad.len()]);
                    }
                }
            }
            let ns = Rms::sum_vec(&v);
            proof {
                assert(window_of(v@, 0) =~= v@);
                assert(v@ =~= resized_window(old(self).window(), n as nat));
            }
            self.buf = v;
            self.start = 0;
            self.sum = ns;
        }
    }

    /// An independent detector with identical window contents and sum.
    pub fn replicate(&self) -> (d: Rms)
        requires
            self.wf(),
        ensures
            d.wf(),
            d.window() == self.window(),
    {
        let v = self.copy_window_tail(0);
        proof {
            assert(v@ =~= self.window());
            lemma_window_sum(self.buf@, self.start as int);
            assert(window_of(v@, 0) =~= v@);
            assert forall|i: int| 0 <= i < v@.len() implies v@[i] <= SQUARE_LIMIT by {
                assert(v@[i] == self.window()[i]);
            }
        }
        Rms { buf: v, start: 0, sum: self.sum }
    }

    /// Consume the detector, yielding the window contents (oldest first)
    /// together with the sum of all squares contained in it.
    pub fn into_parts(self) -> (parts: (Vec<u64>, u128))
        requires
            self.wf(),
        ensures
            parts.0@ == self.window(),
            parts.1 as int == sum_seq(self.window()),
    {
        let v = self.copy_window_tail(0);
        proof {
            assert(v@ =~= self.window());
            lemma_window_sum(self.buf@, self.start as int);
        }
        (v, self.sum)
    }
}

} // verus!
