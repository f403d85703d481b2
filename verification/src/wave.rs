//! The wave source: anything that emits one sample per tick.

use crate::mix::{PartialWaveMixer1, WaveMixer};
use crate::partial_wave::{PartialWave, PartialWaveBuilder};
use crate::variable::{always_callable, run_of, Update, Variable, VariableSender};
use vstd::prelude::*;

verus! {

/// The sample rate that every source assumes unless it says otherwise.
pub const SAMPLE_RATE: u32 = 44100;

/// A source of samples of type `S`. What a tick emits may depend on more
/// than the source's own state (a message from another thread), so a source
/// is described by a relation: which sample and which next state one tick
/// can lead to.
pub trait Wave<S>: Sized {
    /// The source is in a state from which it can tick.
    spec fn wf(&self) -> bool;

    /// One tick from this state can emit `out` and leave the state `next`.
    spec fn yields(&self, out: S, next: Self) -> bool;

    /// Emits the next sample.
    fn next_sample(&mut self) -> (out: S)
        requires
            old(self).wf(),
        ensures
            final(self).wf(),
            old(self).yields(out, *final(self)),
    ;

    /// The number of samples per second that this source is asked for:
    /// `SAMPLE_RATE`, unless a source reports a rate of its own.
    fn sample_rate(&self) -> (rate: u32)
        default_ensures
            rate == SAMPLE_RATE,
    {
        SAMPLE_RATE
    }
}

/// The handle by which a source is combined with others.
#[derive(Clone)]
pub struct WaveGenerator<T> {
    pub source: T,
}

impl<T> WaveGenerator<T> {
    pub fn new(source: T) -> (g: Self)
        ensures
            g.source == source,
    {
        Self { source }
    }

    /// Gives the source back.
    pub fn into_inner(self) -> (source: T)
        ensures
            source == self.source,
    {
        self.source
    }

    /// This source on the left and `other` on the right of `mixer`.
    pub fn mix<M, V>(self, mixer: M, other: WaveGenerator<V>) -> (g: WaveGenerator<
        WaveMixer<M, T, V>,
    >)
        ensures
            g.source.mixer == mixer,
            g.source.left == self.source,
            g.source.right == other.source,
    {
        WaveGenerator::new(WaveMixer::new(mixer, self.source, other.source))
    }

    /// This source, finished, on the left of `mixer`, and a waiting source
    /// on the right.
    pub fn mix_partial<M, U>(self, mixer: M, other: PartialWaveBuilder<U>) -> (b:
        PartialWaveBuilder<PartialWaveMixer1<M, WaveGenerator<T>, U>>)
        ensures
            b.partial.mixer == mixer,
            b.partial.left == self,
            b.partial.right == other.partial,
    {
        PartialWaveBuilder::new(PartialWaveMixer1::new(mixer, self, other.partial))
    }
}

/// `a >> b` feeds the source `a` to the waiting source `b`.
impl<W, T: PartialWave<W>> core::ops::Shr<T> for WaveGenerator<W> {
    type Output = WaveGenerator<T::Target>;

    fn shr(self, dest: T) -> (g: WaveGenerator<T::Target>)
        ensures
            dest.builds(self.source, g.source),
    {
        dest.build(self.source)
    }
}

/// What a build gives is a relation, so `>>` is described by the clause on
/// `shr` itself and by no function.
impl<W, T: PartialWave<W>> vstd::std_specs::ops::ShrSpecImpl<T> for WaveGenerator<W> {
    open spec fn obeys_shr_spec() -> bool {
        false
    }

    open spec fn shr_req(self, dest: T) -> bool {
        true
    }

    open spec fn shr_spec(self, dest: T) -> WaveGenerator<T::Target> {
        arbitrary()
    }
}

impl<T> From<T> for WaveGenerator<T> {
    fn from(source: T) -> (g: Self) {
        Self::new(source)
    }
}

impl<T> vstd::std_specs::convert::FromSpecImpl<T> for WaveGenerator<T> {
    open spec fn obeys_from_spec() -> bool {
        true
    }

    open spec fn from_spec(source: T) -> Self {
        WaveGenerator { source }
    }
}

impl<S, W: Wave<S>> Wave<S> for WaveGenerator<W> {
    open spec fn wf(&self) -> bool {
        self.source.wf()
    }

    open spec fn yields(&self, out: S, next: Self) -> bool {
        self.source.yields(out, next.source)
    }

    fn next_sample(&mut self) -> (out: S) {
        self.source.next_sample()
    }
}

/// A source that emits one value forever.
#[derive(Clone, Copy)]
pub struct Constant<S> {
    pub value: S,
}

impl<S: Copy> Constant<S> {
    pub fn make(value: S) -> (g: WaveGenerator<Self>)
        ensures
            g.source.value == value,
    {
        WaveGenerator::new(Self { value })
    }
}

impl<S: Copy> Wave<S> for Constant<S> {
    open spec fn wf(&self) -> bool {
        true
    }

    open spec fn yields(&self, out: S, next: Self) -> bool {
        out == self.value && next == *self
    }

    fn next_sample(&mut self) -> (out: S) {
        self.value
    }
}

/// A source that hands its input on unchanged.
#[derive(Clone)]
pub struct Pass<W> {
    pub input: W,
}

impl<W> Pass<W> {
    pub fn new(input: W) -> (g: WaveGenerator<Self>)
        ensures
            g.source.input == input,
    {
        WaveGenerator::new(Self { input })
    }
}

impl<S, W: Wave<S>> Wave<S> for Pass<W> {
    open spec fn wf(&self) -> bool {
        self.input.wf()
    }

    open spec fn yields(&self, out: S, next: Self) -> bool {
        self.input.yields(out, next.input)
    }

    fn next_sample(&mut self) -> (out: S) {
        self.input.next_sample()
    }
}

/// The input itself, waiting.
#[derive(Debug, Clone, Copy, PartialEq, Eq, Structural)]
pub struct PartialPass;

impl<W> PartialWave<W> for PartialPass {
    type Target = Pass<W>;

    open spec fn builds(self, src: W, out: Pass<W>) -> bool {
        out.input == src
    }

    fn build(self, src: W) -> (g: WaveGenerator<Pass<W>>) {
        Pass::new(src)
    }
}

/// A source that emits the current value of a variable, after taking the
/// updates that are queued for it.
#[verifier::reject_recursive_types(S)]
#[verifier::reject_recursive_types(F)]
pub struct VariableConstant<S, F> {
    pub value: Variable<S, F>,
}

impl<S: Copy, F: Fn(&S) -> S> VariableConstant<S, F> {
    /// A source that starts at `value`, and the sender that changes it.
    pub fn make(value: S) -> (r: (WaveGenerator<Self>, VariableSender<S, F>))
        ensures
            r.0.source.value.current() == value,
    {
        let (var, sender) = Variable::new(value);
        (WaveGenerator::new(Self { value: var }), sender)
    }
}

impl<S: Copy, F: Fn(&S) -> S> Wave<S> for VariableConstant<S, F> {
    open spec fn wf(&self) -> bool {
        always_callable::<S, F>()
    }

    /// The sample is what some sequence of updates makes of the value so
    /// far, and it is the value from then on.
    open spec fn yields(&self, out: S, next: Self) -> bool {
        &&& next.value.current() == out
        &&& exists|updates: Seq<Update<S, F>>, values: Seq<S>|
            {
                &&& #[trigger] run_of(updates, values)
                &&& values[0] == self.value.current()
                &&& values.last() == out
            }
    }

    fn next_sample(&mut self) -> (out: S) {
        *self.value.update()
    }
}

} // verus!
