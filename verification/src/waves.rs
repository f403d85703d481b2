//! The sources and oscillators by name.

use crate::oscillator::{PartialOscillator, Sawtooth, Sine, Square, Triangle};
use crate::partial_wave::PartialWaveBuilder;
use crate::variable::VariableSender;
use crate::wave::{Constant, PartialPass, VariableConstant, WaveGenerator};
use vstd::prelude::*;

verus! {

/// A source that emits `value` forever.
pub fn constant<S: Copy>(value: S) -> (g: WaveGenerator<Constant<S>>)
    ensures
        g.source.value == value,
{
    Constant::make(value)
}

/// A source that emits zero forever.
pub fn silence() -> (g: WaveGenerator<Constant<i64>>)
    ensures
        g.source.value == 0,
{
    constant(0)
}

/// A source that emits a value which the sender can change.
pub fn var<S: Copy, F: Fn(&S) -> S>(value: S) -> (r: (
    WaveGenerator<VariableConstant<S, F>>,
    VariableSender<S, F>,
))
    ensures
        r.0.source.value.current() == value,
{
    VariableConstant::make(value)
}

/// The input itself, waiting to be combined.
pub fn pass() -> (b: PartialWaveBuilder<PartialPass>)
    ensures
        b.partial == PartialPass,
{
    PartialWaveBuilder::new(PartialPass)
}

pub fn sine() -> (b: PartialWaveBuilder<PartialOscillator<Sine>>)
    ensures
        b.partial.wave_fn == Sine,
{
    PartialOscillator::new(Sine)
}

pub fn square() -> (b: PartialWaveBuilder<PartialOscillator<Square>>)
    ensures
        b.partial.wave_fn == Square,
{
    PartialOscillator::new(Square)
}

pub fn sawtooth() -> (b: PartialWaveBuilder<PartialOscillator<Sawtooth>>)
    ensures
        b.partial.wave_fn == Sawtooth,
{
    PartialOscillator::new(Sawtooth)
}

pub fn triangle() -> (b: PartialWaveBuilder<PartialOscillator<Triangle>>)
    ensures
        b.partial.wave_fn == Triangle,
{
    PartialOscillator::new(Triangle)
}

} // verus!
