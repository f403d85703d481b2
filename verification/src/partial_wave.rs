//! Sources that still wait for their input, and how they are chained.

use crate::mix::{PartialWaveMixer1, PartialWaveMixer2};
use crate::wave::WaveGenerator;
use vstd::prelude::*;

verus! {

/// A source that waits for its input: given one, it becomes a running
/// source.
pub trait PartialWave<W>: Sized {
    /// What this becomes.
    type Target;

    /// On the input `src` this can become `out`.
    spec fn builds(self, src: W, out: Self::Target) -> bool;

    /// Takes the input and becomes a running source.
    fn build(self, src: W) -> (g: WaveGenerator<Self::Target>)
        ensures
            self.builds(src, g.source),
    ;
}

/// The handle by which a source that waits for its input is combined with
/// others.
#[derive(Clone)]
pub struct PartialWaveBuilder<T> {
    pub partial: T,
}

/// Two waiting sources in a row: the input feeds `src`, and what `src`
/// emits feeds `dst`.
#[derive(Clone)]
pub struct PartialWaveChain<T, S> {
    pub src: T,
    pub dst: S,
}

impl<T> PartialWaveBuilder<T> {
    pub fn new(partial: T) -> (b: Self)
        ensures
            b.partial == partial,
    {
        Self { partial }
    }

    /// Gives the waiting source back.
    pub fn into_inner(self) -> (partial: T)
        ensures
            partial == self.partial,
    {
        self.partial
    }

    /// A finished source on the left of `mixer`, and this waiting source on
    /// the right.
    pub fn mix_wave<M, W>(self, mixer: M, other: WaveGenerator<W>) -> (b: PartialWaveBuilder<
        PartialWaveMixer1<M, WaveGenerator<W>, T>,
    >)
        ensures
            b.partial.mixer == mixer,
            b.partial.left == other,
            b.partial.right == self.partial,
    {
        PartialWaveBuilder::new(PartialWaveMixer1::new(mixer, other, self.partial))
    }

    /// This waiting source on the left of `mixer`, and another on the
    /// right; both will be built from one input.
    pub fn mix<M, U>(self, mixer: M, other: PartialWaveBuilder<U>) -> (b: PartialWaveBuilder<
        PartialWaveMixer2<M, T, U>,
    >)
        ensures
            b.partial.mixer == mixer,
            b.partial.left == self.partial,
            b.partial.right == other.partial,
    {
        PartialWaveBuilder::new(PartialWaveMixer2::new(mixer, self.partial, other.partial))
    }

}

/// `a >> b` chains `b` behind `a`.
impl<T, S> core::ops::Shr<S> for PartialWaveBuilder<T> {
    type Output = PartialWaveChain<T, S>;

    fn shr(self, dest: S) -> (chain: PartialWaveChain<T, S>) {
        PartialWaveChain { src: self.partial, dst: dest }
    }
}

impl<T, S> vstd::std_specs::ops::ShrSpecImpl<S> for PartialWaveBuilder<T> {
    open spec fn obeys_shr_spec() -> bool {
        true
    }

    open spec fn shr_req(self, dest: S) -> bool {
        true
    }

    open spec fn shr_spec(self, dest: S) -> PartialWaveChain<T, S> {
        PartialWaveChain { src: self.partial, dst: dest }
    }
}

impl<T> From<T> for PartialWaveBuilder<T> {
    fn from(partial: T) -> (b: Self) {
        Self::new(partial)
    }
}

impl<T> vstd::std_specs::convert::FromSpecImpl<T> for PartialWaveBuilder<T> {
    open spec fn obeys_from_spec() -> bool {
        true
    }

    open spec fn from_spec(partial: T) -> Self {
        PartialWaveBuilder { partial }
    }
}

impl<W, T: PartialWave<W>> PartialWave<W> for PartialWaveBuilder<T> {
    type Target = T::Target;

    open spec fn builds(self, src: W, out: T::Target) -> bool {
        self.partial.builds(src, out)
    }

    fn build(self, src: W) -> (g: WaveGenerator<T::Target>) {
        self.partial.build(src)
    }
}

impl<W, T: PartialWave<W>, S: PartialWave<T::Target>> PartialWave<W> for PartialWaveChain<T, S> {
    type Target = S::Target;

    /// The input builds `src`, and what `src` has become is the input that
    /// builds `dst`.
    open spec fn builds(self, src: W, out: S::Target) -> bool {
        exists|mid: T::Target| #[trigger] self.src.builds(src, mid) && self.dst.builds(mid, out)
    }

    fn build(self, src: W) -> (g: WaveGenerator<S::Target>) {
        let mid = self.src.build(src);
        let ghost middle = mid.source;
        let g = self.dst.build(mid.source);
        proof {
            assert(self.src.builds(src, middle) && self.dst.builds(middle, g.source));
        }
        g
    }
}

} // verus!
