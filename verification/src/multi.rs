//! Multi-channel envelope detection.
//!
//! [`MultiChannelEnvelopeDetector`] owns one attack/release state per channel:
//! all channels share the same attack and release gains, but each carries its
//! own independently evolving mode state and last envelope value.  Per-channel
//! calls dispatch by index.

use crate::detector::env_step;
use crate::detector::smooth;
use crate::gain::calc_gain;
use crate::gain::gain_spec;
use crate::gain::GAIN_ONE;
use crate::mode::Mode;
use crate::peak::FullWave;
use crate::peak::Peak;
use crate::rms::resized_window;
use crate::rms::Rms;
use crate::valid_sample;
use vstd::prelude::*;

verus! {

/// The attack/release state of one channel: the channel's own mode state and
/// the last envelope value it emitted.  The shared gains live at the
/// multi-channel level.
pub struct ChannelState<M: Mode> {
    mode: M,
    last_env: i64,
}

impl<M: Mode> ChannelState<M> {
    /// The channel's detection mode state.
    pub closed spec fn spec_mode(&self) -> M {
        self.mode
    }

    /// The last envelope value this channel emitted.
    pub closed spec fn spec_last_env(&self) -> int {
        self.last_env as int
    }

    /// Well-formedness of the channel state.
    pub open spec fn wf(&self) -> bool {
        valid_sample(self.spec_last_env()) && self.spec_mode().inv()
    }

    /// Whether two channels carry the same observable state.
    pub open spec fn eqv(&self, other: &ChannelState<M>) -> bool {
        self.spec_last_env() == other.spec_last_env() && self.spec_mode().eqv(
            &other.spec_mode(),
        )
    }
}

/// Mutably borrow the channel at index `i`.
fn channel_at<M: Mode>(channels: &mut Vec<ChannelState<M>>, i: usize) -> (ch: &mut ChannelState<
    M,
>)
    requires
        i < old(channels)@.len(),
    ensures
        *ch == old(channels)@[i as int],
        final(channels)@ == old(channels)@.update(i as int, *final(ch)),
{
    &mut channels[i]
}

/// An ordered collection of per-channel attack/release smoothing states, all
/// sharing the same gain configuration, dispatching per-channel calls by
/// index.
pub struct MultiChannelEnvelopeDetector<M: Mode> {
    attack_gain: i64,
    release_gain: i64,
    channels: Vec<ChannelState<M>>,
}

impl<M: Mode> MultiChannelEnvelopeDetector<M> {
    /// The per-channel states, in channel order.
    pub closed spec fn spec_channels(&self) -> Seq<ChannelState<M>> {
        self.channels@
    }

    /// The shared attack gain, a Q16 fraction.
    pub closed spec fn spec_attack_gain(&self) -> int {
        self.attack_gain as int
    }

    /// The shared release gain, a Q16 fraction.
    pub closed spec fn spec_release_gain(&self) -> int {
        self.release_gain as int
    }

    /// Well-formedness: valid gains, at least one channel, all channels
    /// well-formed.
    pub closed spec fn wf(&self) -> bool {
        &&& 0 <= self.attack_gain <= GAIN_ONE
        &&& 0 <= self.release_gain <= GAIN_ONE
        &&& self.channels@.len() >= 1
        &&& forall|i: int| 0 <= i < self.channels@.len() ==> (#[trigger] self.channels@[i]).wf()
    }

    /// The number of channels.
    pub fn channel_count(&self) -> (n: usize)
        ensures
            n == self.spec_channels().len(),
    {
        self.channels.len()
    }

    fn make(mode: M, attack_frames: u32, release_frames: u32, n_channels: usize) -> (det: Self)
        requires
            mode.inv(),
            n_channels >= 1,
        ensures
            det.wf(),
            det.spec_attack_gain() == gain_spec(attack_frames),
            det.spec_release_gain() == gain_spec(release_frames),
            det.spec_channels().len() == n_channels,
            forall|i: int|
                0 <= i < n_channels ==> (#[trigger] det.spec_channels()[i]).spec_last_env() == 0
                    && mode.eqv(&det.spec_channels()[i].spec_mode()),
    {
        let mut channels: Vec<ChannelState<M>> = Vec::new();
        let mut i: usize = 0;
        while i < n_channels
            invariant
                i <= n_channels,
                mode.inv(),
                channels@.len() == i,
                forall|j: int|
                    0 <= j < i ==> (#[trigger] channels@[j]).wf() && channels@[j].spec_last_env()
                        == 0 && mode.eqv(&channels@[j].spec_mode()),
            decreases n_channels - i,
        {
            let m = mode.duplicate();
            channels.push(ChannelState { mode: m, last_env: 0 });
            i = i + 1;
        }
        MultiChannelEnvelopeDetector {
            attack_gain: calc_gain(attack_frames),
            release_gain: calc_gain(release_frames),
            channels,
        }
    }

    /// Set the shared attack time as a number of frames.
    pub fn set_attack_frames(&mut self, frames: u32)
        requires
            old(self).wf(),
        ensures
            final(self).wf(),
            final(self).spec_attack_gain() == gain_spec(frames),
            final(self).spec_release_gain() == old(self).spec_release_gain(),
            final(self).spec_channels() == old(self).spec_channels(),
    {
        self.attack_gain = calc_gain(frames);
    }

    /// Set the shared release time as a number of frames.
    pub fn set_release_frames(&mut self, frames: u32)
        requires
            old(self).wf(),
        ensures
            final(self).wf(),
            final(self).spec_release_gain() == gain_spec(frames),
            final(self).spec_attack_gain() == old(self).spec_attack_gain(),
            final(self).spec_channels() == old(self).spec_channels(),
    {
        self.release_gain = calc_gain(frames);
    }

    /// Given the next input sample for `channel`, detect and return that
    /// channel's next envelope value.
    ///
    /// The channel index must be in range: indexing beyond the channel count
    /// is a programming error, not a recoverable runtime case.
    pub fn next(&mut self, channel: usize, frame: i64) -> (env: i64)
        requires
            old(self).wf(),
            channel < old(self).spec_channels().len(),
            valid_sample(frame as int),
        ensures
            final(self).wf(),
            final(self).spec_channels().len() == old(self).spec_channels().len(),
            env as int == env_step(
                old(self).spec_attack_gain(),
                old(self).spec_release_gain(),
                old(self).spec_channels()[channel as int].spec_last_env(),
                old(self).spec_channels()[channel as int].spec_mode().est_spec(frame as int),
            ),
            final(self).spec_channels()[channel as int].spec_last_env() == env as int,
            old(self).spec_channels()[channel as int].spec_mode().steps_to(
                &final(self).spec_channels()[channel as int].spec_mode(),
                frame as int,
            ),
            forall|j: int|
                0 <= j < old(self).spec_channels().len() && j != channel
                    ==> final(self).spec_channels()[j] == old(self).spec_channels()[j],
            final(self).spec_attack_gain() == old(self).spec_attack_gain(),
            final(self).spec_release_gain() == old(self).spec_release_gain(),
    {
        let ag: i64 = self.attack_gain;
        let rg: i64 = self.release_gain;
        let ch = channel_at(&mut self.channels, channel);
        let est: i64 = ch.mode.next_frame(frame);
        let g: i64 = if ch.last_env < est {
            ag
        } else {
            rg
        };
        let env: i64 = smooth(g, ch.last_env, est);
        ch.last_env = env;
        env
    }

    /// Like [`Self::next`], but checks the channel index at run time: an
    /// out-of-range index yields `None` and leaves the detector untouched.
    pub fn try_next(&mut self, channel: usize, frame: i64) -> (env: Option<i64>)
        requires
            old(self).wf(),
            valid_sample(frame as int),
        ensures
            final(self).wf(),
            final(self).spec_channels().len() == old(self).spec_channels().len(),
            channel >= old(self).spec_channels().len() ==> env.is_none() && *final(self) == *old(
                self,
            ),
            channel < old(self).spec_channels().len() ==> env == Some(
                (env_step(
                    old(self).spec_attack_gain(),
                    old(self).spec_release_gain(),
                    old(self).spec_channels()[channel as int].spec_last_env(),
                    old(self).spec_channels()[channel as int].spec_mode().est_spec(frame as int),
                )) as i64,
            ) && final(self).spec_channels()[channel as int].spec_last_env() == env.unwrap(),
    {
        if channel < self.channels.len() {
            Some(self.next(channel, frame))
        } else {
            None
        }
    }

    /// Set the number of channels.
    ///
    /// Shrinking truncates trailing channels.  Growing clones the last
    /// existing channel's full state into each new slot, so new channels
    /// start caught up with the detector's current envelope instead of cold
    /// at equilibrium.
    pub fn set_channels(&mut self, n: usize)
        requires
            old(self).wf(),
            n >= 1,
        ensures
            final(self).wf(),
            final(self).spec_channels().len() == n,
            n <= old(self).spec_channels().len() ==> final(self).spec_channels() == old(
                self,
            ).spec_channels().take(n as int),
            n > old(self).spec_channels().len() ==> final(self).spec_channels().take(
                old(self).spec_channels().len() as int,
            ) == old(self).spec_channels() && (forall|i: int|
                old(self).spec_channels().len() <= i < n
                    ==> old(self).spec_channels().last().eqv(
                    &(#[trigger] final(self).spec_channels()[i]),
                )),
            final(self).spec_attack_gain() == old(self).spec_attack_gain(),
            final(self).spec_release_gain() == old(self).spec_release_gain(),
    {
        let len = self.channels.len();
        if n < len {
            while self.channels.len() > n
                invariant
                    n <= self.channels@.len() <= len,
                    len == old(self).spec_channels().len(),
                    self.channels@ == old(self).spec_channels().take(self.channels@.len() as int),
                    self.attack_gain == old(self).attack_gain,
                    self.release_gain == old(self).release_gain,
                decreases self.channels@.len(),
            {
                proof {
                    assert(old(self).spec_channels().take((self.channels@.len() - 1) as int)
                        =~= self.channels@.take(self.channels@.len() - 1));
                }
                self.channels.pop();
            }
            proof {
                assert(forall|i: int|
                    0 <= i < n ==> self.channels@[i] == old(self).spec_channels()[i]);
            }
        } else if n > len {
            let mut i: usize = len;
            while i < n
                invariant
                    len <= i <= n,
                    len >= 1,
                    i == self.channels@.len(),
                    len == old(self).spec_channels().len(),
                    old(self).wf(),
                    self.channels@.take(len as int) == old(self).spec_channels(),
                    forall|j: int|
                        len <= j < i ==> (#[trigger] self.channels@[j]).wf()
                            && old(self).spec_channels().last().eqv(&self.channels@[j]),
                    forall|j: int| 0 <= j < i ==> (#[trigger] self.channels@[j]).wf(),
                    self.attack_gain == old(self).attack_gain,
                    self.release_gain == old(self).release_gain,
                decreases n - i,
            {
                proof {
                    assert(self.channels@[len - 1] == old(self).spec_channels()[len - 1]);
                }
                let last_ref = &self.channels[len - 1];
                let m = last_ref.mode.duplicate();
                let le: i64 = last_ref.last_env;
                self.channels.push(ChannelState { mode: m, last_env: le });
                i = i + 1;
                proof {
                    assert(self.channels@.take(len as int) =~= old(self).spec_channels());
                }
            }
        } else {
            proof {
                assert(old(self).spec_channels().take(n as int) =~= old(self).spec_channels());
            }
        }
    }
}

impl MultiChannelEnvelopeDetector<Rms> {
    /// Construct a new multi-channel RMS envelope detector.
    pub fn new_rms(
        window_frames: usize,
        attack_frames: u32,
        release_frames: u32,
        n_channels: usize,
    ) -> (det: Self)
        requires
            n_channels >= 1,
        ensures
            det.wf(),
            det.spec_attack_gain() == gain_spec(attack_frames),
            det.spec_release_gain() == gain_spec(release_frames),
            det.spec_channels().len() == n_channels,
            forall|i: int|
                0 <= i < n_channels ==> (#[trigger] det.spec_channels()[i]).spec_last_env() == 0
                    && det.spec_channels()[i].spec_mode().window() == Seq::new(
                    window_frames as nat,
                    |j: int| 0u64,
                ),
    {
        let rms = Rms::new(window_frames);
        Self::make(rms, attack_frames, release_frames, n_channels)
    }

    /// Set the duration of the RMS window, in frames, for every channel.
    pub fn set_window_frames(&mut self, n: usize)
        requires
            old(self).wf(),
        ensures
            final(self).wf(),
            final(self).spec_channels().len() == old(self).spec_channels().len(),
            forall|i: int|
                0 <= i < old(self).spec_channels().len()
                    ==> (#[trigger] final(self).spec_channels()[i]).spec_mode().window()
                        == resized_window(old(self).spec_channels()[i].spec_mode().window(), n as nat)
                    && final(self).spec_channels()[i].spec_last_env()
                        == old(self).spec_channels()[i].spec_last_env(),
            final(self).spec_attack_gain() == old(self).spec_attack_gain(),
            final(self).spec_release_gain() == old(self).spec_release_gain(),
    {
        let len = self.channels.len();
        let mut i: usize = 0;
        while i < len
            invariant
                i <= len,
                len == self.channels@.len(),
                len == old(self).spec_channels().len(),
                forall|j: int| 0 <= j < len ==> (#[trigger] self.channels@[j]).wf(),
                forall|j: int|
                    i <= j < len ==> #[trigger] self.channels@[j] == old(self).spec_channels()[j],
                forall|j: int|
                    0 <= j < i ==> (#[trigger] self.channels@[j]).spec_mode().window()
                        == resized_window(
                        old(self).spec_channels()[j].spec_mode().window(),
                        n as nat,
                    ) && self.channels@[j].spec_last_env() == old(self).spec_channels()[
                        j
                    ].spec_last_env(),
                self.attack_gain == old(self).attack_gain,
                self.release_gain == old(self).release_gain,
            decreases len - i,
        {
            let ch = channel_at(&mut self.channels, i);
            ch.mode.set_window_frames(n);
            i = i + 1;
        }
    }
}

impl MultiChannelEnvelopeDetector<Peak<FullWave>> {
    /// Construct a new multi-channel full-wave Peak envelope detector.
    pub fn new_peak(attack_frames: u32, release_frames: u32, n_channels: usize) -> (det: Self)
        requires
            n_channels >= 1,
        ensures
            det.wf(),
            det.spec_attack_gain() == gain_spec(attack_frames),
            det.spec_release_gain() == gain_spec(release_frames),
            det.spec_channels().len() == n_channels,
            forall|i: int|
                0 <= i < n_channels ==> (#[trigger] det.spec_channels()[i]).spec_last_env() == 0,
    {
        let peak = Peak::full_wave();
        Self::make(peak, attack_frames, release_frames, n_channels)
    }
}

/// LAW (regrow preserves originals): growing the channel count and then
/// shrinking back to the original count restores exactly the original
/// channel states; only tail channels are affected.  The two hypotheses are
/// the postconditions `set_channels` gives for the grow and the shrink.
pub proof fn lemma_regrow_preserves_channels<M: Mode>(
    before: Seq<ChannelState<M>>,
    grown: Seq<ChannelState<M>>,
    shrunk: Seq<ChannelState<M>>,
    n: int,
)
    requires
        before.len() <= n,
        grown.len() == n,
        grown.take(before.len() as int) == before,
        shrunk == grown.take(before.len() as int),
    ensures
        shrunk == before,
{
}

} // verus!
