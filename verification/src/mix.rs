//! Mixing two sources sample by sample.

use crate::partial_wave::PartialWave;
use crate::wave::{Wave, WaveGenerator};
use vstd::prelude::*;

verus! {

/// A way to combine two samples into one.
pub trait MixFn<S> {
    /// `out` is what this mixer can make of `left` and `right`.
    spec fn mixed(&self, left: S, right: S, out: S) -> bool;

    fn mix(&self, left: S, right: S) -> (out: S)
        ensures
            self.mixed(left, right, out),
    ;
}

/// Two sources and the mixer that combines what they emit.
#[derive(Clone)]
pub struct WaveMixer<M, W, V> {
    pub mixer: M,
    pub left: W,
    pub right: V,
}

impl<M, W, V> WaveMixer<M, W, V> {
    pub fn new(mixer: M, left: W, right: V) -> (m: Self)
        ensures
            m.mixer == mixer,
            m.left == left,
            m.right == right,
    {
        Self { mixer, left, right }
    }
}

impl<S, M: MixFn<S>, W: Wave<S>, V: Wave<S>> Wave<S> for WaveMixer<M, W, V> {
    open spec fn wf(&self) -> bool {
        self.left.wf() && self.right.wf()
    }

    /// Each side ticks exactly once, and the mixer combines the two
    /// samples; the mixer itself stays as it is.
    open spec fn yields(&self, out: S, next: Self) -> bool {
        &&& next.mixer == self.mixer
        &&& exists|l: S, r: S|
            {
                &&& #[trigger] self.left.yields(l, next.left)
                &&& #[trigger] self.right.yields(r, next.right)
                &&& self.mixer.mixed(l, r, out)
            }
    }

    fn next_sample(&mut self) -> (out: S) {
        let l = self.left.next_sample();
        let r = self.right.next_sample();
        let out = self.mixer.mix(l, r);
        proof {
            assert(old(self).left.yields(l, self.left));
            assert(old(self).right.yields(r, self.right));
        }
        out
    }
}

/// A mix of a finished source, on the left, with a source that is still to
/// be built, on the right.
#[derive(Clone)]
pub struct PartialWaveMixer1<M, W, T> {
    pub mixer: M,
    pub left: W,
    pub right: T,
}

impl<M, W, T> PartialWaveMixer1<M, W, T> {
    pub fn new(mixer: M, left: W, right: T) -> (m: Self)
        ensures
            m.mixer == mixer,
            m.left == left,
            m.right == right,
    {
        Self { mixer, left, right }
    }
}

/// A mix of two sources that are both still to be built, from one input.
#[derive(Clone)]
pub struct PartialWaveMixer2<M, T, U> {
    pub mixer: M,
    pub left: T,
    pub right: U,
}

impl<M, T, U> PartialWaveMixer2<M, T, U> {
    pub fn new(mixer: M, left: T, right: U) -> (m: Self)
        ensures
            m.mixer == mixer,
            m.left == left,
            m.right == right,
    {
        Self { mixer, left, right }
    }
}

impl<W, M, V, T: PartialWave<W>> PartialWave<W> for PartialWaveMixer1<M, V, T> {
    type Target = WaveMixer<M, V, WaveGenerator<T::Target>>;

    /// The left side and the mixer are kept, and the input builds the right
    /// side.
    open spec fn builds(self, src: W, out: Self::Target) -> bool {
        &&& out.mixer == self.mixer
        &&& out.left == self.left
        &&& self.right.builds(src, out.right.source)
    }

    fn build(self, src: W) -> (g: WaveGenerator<Self::Target>) {
        let right = self.right.build(src);
        WaveGenerator::new(WaveMixer::new(self.mixer, self.left, right))
    }
}

impl<W: Clone, M, T: PartialWave<W>, U: PartialWave<W>> PartialWave<W> for PartialWaveMixer2<
    M,
    T,
    U,
> {
    type Target = WaveMixer<M, WaveGenerator<T::Target>, WaveGenerator<U::Target>>;

    /// The mixer is kept; a clone of the input builds the left side and the
    /// input itself the right side.
    open spec fn builds(self, src: W, out: Self::Target) -> bool {
        &&& out.mixer == self.mixer
        &&& exists|copy: W|
            {
                &&& cloned(src, copy)
                &&& #[trigger] self.left.builds(copy, out.left.source)
                &&& self.right.builds(src, out.right.source)
            }
    }

    fn build(self, src: W) -> (g: WaveGenerator<Self::Target>) {
        let copy = src.clone();
        let ghost twin = copy;
        let left = self.left.build(copy);
        let right = self.right.build(src);
        proof {
            assert(cloned(src, twin) && self.left.builds(twin, left.source));
        }
        WaveGenerator::new(WaveMixer::new(self.mixer, left, right))
    }
}

} // verus!
