//! Filling an output buffer from a wave source.

use crate::variable::{always_callable, run_of, Update, Variable};
use crate::wave::Wave;
use vstd::prelude::*;

verus! {

/// `states` is a run that emits `outs`: one state more than there are
/// samples, each tick leading from a state to the next.
pub open spec fn run_through<S, W: Wave<S>>(states: Seq<W>, outs: Seq<S>) -> bool {
    &&& states.len() == outs.len() + 1
    &&& forall|i: int|
        0 <= i < outs.len() ==> (#[trigger] states[i]).yields(outs[i], states[i + 1])
}

/// From `start`, one tick after the other can emit `outs` and leave `end`.
pub open spec fn emits<S, W: Wave<S>>(start: W, outs: Seq<S>, end: W) -> bool {
    exists|states: Seq<W>|
        {
            &&& #[trigger] run_through(states, outs)
            &&& states[0] == start
            &&& states.last() == end
        }
}

/// One more tick extends a run.
pub proof fn lemma_run_one_more<S, W: Wave<S>>(states: Seq<W>, outs: Seq<S>, out: S, end: W)
    requires
        run_through(states, outs),
        states.last().yields(out, end),
    ensures
        run_through(states.push(end), outs.push(out)),
{
    let longer = states.push(end);
    let more = outs.push(out);
    assert forall|i: int| 0 <= i < more.len() implies (#[trigger] longer[i]).yields(
        more[i],
        longer[i + 1],
    ) by {
        if i < outs.len() {
            assert(longer[i] == states[i]);
            assert(longer[i + 1] == states[i + 1]);
        }
    }
}

/// `buffer` holds `outs` as stereo frames: each sample on both channels of
/// its frame.
pub open spec fn holds_frames<S>(buffer: Seq<S>, outs: Seq<S>) -> bool {
    &&& outs.len() == buffer.len() / 2
    &&& forall|i: int|
        0 <= i < outs.len() ==> buffer[2 * i] == #[trigger] outs[i] && buffer[2 * i + 1] == outs[i]
}

/// Renders a wave source into the buffers of an audio backend.
#[verifier::reject_recursive_types(F)]
pub struct WaveStreamer<W, F> {
    pub wave_generator: W,
    pub sample_rate: Variable<u32, F>,
}

impl<W, F: Fn(&u32) -> u32> WaveStreamer<W, F> {
    /// A streamer for `wave_generator` at a fixed sample rate.
    pub fn new(wave_generator: W, sample_rate: u32) -> (s: Self)
        ensures
            s.wave_generator == wave_generator,
            s.sample_rate.current() == sample_rate,
    {
        let (rate, _) = Variable::new(sample_rate);
        Self { wave_generator, sample_rate: rate }
    }

    /// A streamer for `wave_generator` at a sample rate that the given
    /// variable holds.
    pub fn new_var(wave_generator: W, sample_rate: Variable<u32, F>) -> (s: Self)
        ensures
            s.wave_generator == wave_generator,
            s.sample_rate == sample_rate,
    {
        Self { wave_generator, sample_rate }
    }

    /// Fills `buffer` with stereo frames: one tick of the source per frame,
    /// its sample written to both channels, frame after frame. A last slot
    /// without a partner stays as it is. Queued changes of the sample rate
    /// are taken first.
    pub fn generate<S: Copy>(&mut self, buffer: &mut [S]) where W: Wave<S>
        requires
            old(self).wave_generator.wf(),
            always_callable::<u32, F>(),
        ensures
            final(self).wave_generator.wf(),
            final(buffer)@.len() == old(buffer)@.len(),
            exists|outs: Seq<S>|
                {
                    &&& #[trigger] holds_frames(final(buffer)@, outs)
                    &&& emits(old(self).wave_generator, outs, final(self).wave_generator)
                },
            old(buffer)@.len() % 2 == 1 ==> final(buffer)@.last() == old(buffer)@.last(),
            exists|updates: Seq<Update<u32, F>>, rates: Seq<u32>|
                {
                    &&& #[trigger] run_of(updates, rates)
                    &&& rates[0] == old(self).sample_rate.current()
                    &&& rates.last() == final(self).sample_rate.current()
                },
    {
        let _ = self.sample_rate.update();
        let ghost rate = self.sample_rate;
        let frames: usize = buffer.len() / 2;
        let ghost mut outs: Seq<S> = Seq::empty();
        let ghost mut states: Seq<W> = seq![self.wave_generator];
        let mut i: usize = 0;
        while i < frames
            invariant
                frames == old(buffer)@.len() / 2,
                2 * frames <= usize::MAX,
                buffer@.len() == old(buffer)@.len(),
                i <= frames,
                outs.len() == i,
                self.wave_generator.wf(),
                run_through(states, outs),
                states[0] == old(self).wave_generator,
                states.last() == self.wave_generator,
                self.sample_rate == rate,
                forall|k: int|
                    0 <= k < i ==> buffer@[2 * k] == #[trigger] outs[k] && buffer@[2 * k + 1]
                        == outs[k],
                forall|k: int| 2 * i <= k < buffer@.len() ==> buffer@[k] == old(buffer)@[k],
            decreases frames - i,
        {
            assert(2 * i + 1 < buffer@.len());
            let sample = self.wave_generator.next_sample();
            buffer[2 * i + 1] = sample;
            buffer[2 * i] = sample;
            proof {
                lemma_run_one_more(states, outs, sample, self.wave_generator);
                states = states.push(self.wave_generator);
                outs = outs.push(sample);
            }
            i = i + 1;
        }
        assert(holds_frames(buffer@, outs));
    }
}

} // verus!
