//! The oscillator: a phase that moves on by one step per tick and wraps
//! after a full period, read through a periodic shape. The phase and the
//! step are counted in units of `1 / PHASE_ONE` of a period.

use crate::partial_wave::{PartialWave, PartialWaveBuilder};
use crate::wave::{Wave, WaveGenerator};
use vstd::arithmetic::div_mod::{lemma_add_mod_noop_right, lemma_small_mod};
use vstd::prelude::*;

verus! {

/// A full period, in phase units.
pub const PHASE_ONE: u64 = 0x1_0000_0000;

/// Half a period, in phase units.
pub const PHASE_HALF: u32 = 0x8000_0000;

/// An exact fraction `num / den` with `den > 0`: what a shape has at a
/// phase.
#[derive(Debug, Clone, Copy, PartialEq, Eq, Structural)]
pub struct Amplitude {
    pub num: i64,
    pub den: u64,
}

impl View for Amplitude {
    type V = (int, int);

    open spec fn view(&self) -> (int, int) {
        (self.num as int, self.den as int)
    }
}

/// A periodic shape, which may carry state of its own from tick to tick.
pub trait WaveFn<S>: Sized {
    /// At `phase` this shape can have the value `out` and go on as `next`.
    spec fn shaped(&self, phase: u32, out: S, next: Self) -> bool;

    fn process(&mut self, phase: u32) -> (out: S)
        ensures
            old(self).shaped(phase, out, *final(self)),
    ;
}

/// The phase after one step: the sum, less one period where it reaches one.
pub open spec fn wrapped(phase: int, step: int) -> int {
    if phase + step >= PHASE_ONE {
        phase + step - PHASE_ONE
    } else {
        phase + step
    }
}

/// The phase after `n` equal steps.
pub open spec fn phase_after(phase: int, step: int, n: nat) -> int
    decreases n,
{
    if n == 0 {
        phase
    } else {
        wrapped(phase_after(phase, step, (n - 1) as nat), step)
    }
}

/// The square shape: low for the first half of the period, high from the
/// middle on.
pub open spec fn square_at(phase: u32) -> (int, int) {
    if phase < PHASE_HALF {
        (-1, 1)
    } else {
        (1, 1)
    }
}

/// The sawtooth shape: the phase itself, as a part of the period.
pub open spec fn sawtooth_at(phase: u32) -> (int, int) {
    (phase as int, PHASE_ONE as int)
}

/// The triangle shape: from minus one up to one over the first half of the
/// period, and down again over the second.
pub open spec fn triangle_at(phase: u32) -> (int, int) {
    if phase < PHASE_HALF {
        (4 * phase - PHASE_ONE, PHASE_ONE as int)
    } else {
        (3 * PHASE_ONE - 4 * phase, PHASE_ONE as int)
    }
}

/// The sine shape, by a polynomial.
#[derive(Debug, Clone, Copy, PartialEq, Eq, Structural)]
pub struct Sine;

/// The sine shape, by the library function.
#[derive(Debug, Clone, Copy, PartialEq, Eq, Structural)]
pub struct TrueSine;

/// Low for the first half of the period, high for the second.
#[derive(Debug, Clone, Copy, PartialEq, Eq, Structural)]
pub struct Square;

/// The phase itself.
#[derive(Debug, Clone, Copy, PartialEq, Eq, Structural)]
pub struct Sawtooth;

/// Up for the first half of the period, down for the second.
#[derive(Debug, Clone, Copy, PartialEq, Eq, Structural)]
pub struct Triangle;

/// An oscillator of a given shape whose frequency input is not yet known.
#[derive(Clone)]
pub struct PartialOscillator<F> {
    pub wave_fn: F,
}

impl<F> PartialOscillator<F> {
    pub fn new(wave_fn: F) -> (b: PartialWaveBuilder<Self>)
        ensures
            b.partial.wave_fn == wave_fn,
    {
        PartialWaveBuilder::new(Self { wave_fn })
    }
}

impl WaveFn<Amplitude> for Square {
    open spec fn shaped(&self, phase: u32, out: Amplitude, next: Self) -> bool {
        out@ == square_at(phase)
    }

    fn process(&mut self, phase: u32) -> (out: Amplitude) {
        if phase < PHASE_HALF {
            Amplitude { num: -1, den: 1 }
        } else {
            Amplitude { num: 1, den: 1 }
        }
    }
}

impl WaveFn<Amplitude> for Sawtooth {
    open spec fn shaped(&self, phase: u32, out: Amplitude, next: Self) -> bool {
        out@ == sawtooth_at(phase)
    }

    fn process(&mut self, phase: u32) -> (out: Amplitude) {
        Amplitude { num: phase as i64, den: PHASE_ONE }
    }
}

impl WaveFn<Amplitude> for Triangle {
    open spec fn shaped(&self, phase: u32, out: Amplitude, next: Self) -> bool {
        out@ == triangle_at(phase)
    }

    fn process(&mut self, phase: u32) -> (out: Amplitude) {
        let p: i64 = phase as i64;
        let one: i64 = PHASE_ONE as i64;
        if phase < PHASE_HALF {
            Amplitude { num: 4 * p - one, den: PHASE_ONE }
        } else {
            Amplitude { num: 3 * one - 4 * p, den: PHASE_ONE }
        }
    }
}

/// A phase driven by a source of steps, read through a shape.
#[derive(Clone)]
pub struct Oscillator<T, F> {
    pub wave_fn: F,
    pub phase: u32,
    pub input: T,
}

impl<T, F> Oscillator<T, F> {
    /// An oscillator at the start of its period.
    pub fn new(wave_fn: F, input: T) -> (g: WaveGenerator<Self>)
        ensures
            g.source.wave_fn == wave_fn,
            g.source.phase == 0,
            g.source.input == input,
    {
        WaveGenerator::new(Self { wave_fn, phase: 0, input })
    }
}

impl<W, F> PartialWave<W> for PartialOscillator<F> {
    type Target = Oscillator<W, F>;

    /// The oscillator of this shape over the input, at the start of its
    /// period.
    open spec fn builds(self, src: W, out: Oscillator<W, F>) -> bool {
        out == (Oscillator { wave_fn: self.wave_fn, phase: 0, input: src })
    }

    fn build(self, src: W) -> (g: WaveGenerator<Oscillator<W, F>>) {
        Oscillator::new(self.wave_fn, src)
    }
}

/// Moves a phase on by one step, wrapping by one subtraction.
pub fn advance_phase(phase: u32, step: u32) -> (next: u32)
    ensures
        next == wrapped(phase as int, step as int),
        next == (phase + step) % (PHASE_ONE as int),
{
    let sum: u64 = phase as u64 + step as u64;
    proof {
        lemma_wrapped_is_modular(phase as int, step as int);
    }
    if sum >= PHASE_ONE {
        (sum - PHASE_ONE) as u32
    } else {
        sum as u32
    }
}

impl<S, T: Wave<u32>, F: WaveFn<S>> Wave<S> for Oscillator<T, F> {
    open spec fn wf(&self) -> bool {
        self.input.wf()
    }

    /// The input ticks once and gives the step; the phase moves on by it
    /// and wraps; the sample is the shape at the new phase.
    open spec fn yields(&self, out: S, next: Self) -> bool {
        exists|step: u32|
            {
                &&& #[trigger] self.input.yields(step, next.input)
                &&& next.phase == wrapped(self.phase as int, step as int)
                &&& self.wave_fn.shaped(next.phase, out, next.wave_fn)
            }
    }

    fn next_sample(&mut self) -> (out: S) {
        let step: u32 = self.input.next_sample();
        self.phase = advance_phase(self.phase, step);
        let out = self.wave_fn.process(self.phase);
        proof {
            assert(old(self).input.yields(step, self.input));
        }
        out
    }
}

/// For a phase and a step within one period, wrapping by one subtraction is
/// addition modulo the period, and stays within the period.
pub proof fn lemma_wrapped_is_modular(phase: int, step: int)
    requires
        0 <= phase < PHASE_ONE,
        0 <= step < PHASE_ONE,
    ensures
        wrapped(phase, step) == (phase + step) % (PHASE_ONE as int),
        0 <= wrapped(phase, step) < PHASE_ONE,
{
    let m = PHASE_ONE as int;
    if phase + step >= m {
        lemma_small_mod((phase + step - m) as nat, m as nat);
        assert((phase + step - m) % m == (phase + step) % m) by {
            vstd::arithmetic::div_mod::lemma_mod_sub_multiples_vanish(phase + step, m);
        }
    } else {
        lemma_small_mod((phase + step) as nat, m as nat);
    }
}

/// After `n` equal steps the phase is the start plus `n` steps, modulo the
/// period.
pub proof fn lemma_phase_after(phase: int, step: int, n: nat)
    requires
        0 <= phase < PHASE_ONE,
        0 <= step < PHASE_ONE,
    ensures
        phase_after(phase, step, n) == (phase + n * step) % (PHASE_ONE as int),
        0 <= phase_after(phase, step, n) < PHASE_ONE,
    decreases n,
{
    let m = PHASE_ONE as int;
    if n == 0 {
        lemma_small_mod(phase as nat, m as nat);
    } else {
        let before = phase_after(phase, step, (n - 1) as nat);
        lemma_phase_after(phase, step, (n - 1) as nat);
        lemma_wrapped_is_modular(before, step);
        lemma_add_mod_noop_right(step, phase + (n - 1) * step, m);
        assert(phase + (n - 1) * step + step == phase + n * step) by (nonlinear_arith);
        assert((before + step) % m == (step + (phase + (n - 1) * step)) % m);
    }
}

/// Periodicity: after a number of steps that add up to whole periods, the
/// phase is where it started, and so is every shape that depends on the
/// phase alone.
pub proof fn lemma_periodic(phase: int, step: int, n: nat)
    requires
        0 <= phase < PHASE_ONE,
        0 <= step < PHASE_ONE,
        (n * step) % (PHASE_ONE as int) == 0,
    ensures
        phase_after(phase, step, n) == phase,
        square_at(phase_after(phase, step, n) as u32) == square_at(phase as u32),
        sawtooth_at(phase_after(phase, step, n) as u32) == sawtooth_at(phase as u32),
        triangle_at(phase_after(phase, step, n) as u32) == triangle_at(phase as u32),
{
    let m = PHASE_ONE as int;
    lemma_phase_after(phase, step, n);
    lemma_add_mod_noop_right(phase, n * step, m);
    lemma_small_mod(phase as nat, m as nat);
}

/// Near periodicity: where `n` steps fall short of whole periods by `d`
/// phase units, the phase after them is `d` units behind where it started,
/// counted around the period.
pub proof fn lemma_nearly_periodic(phase: int, step: int, n: nat, periods: nat, d: int)
    requires
        0 <= phase < PHASE_ONE,
        0 <= step < PHASE_ONE,
        0 <= d < PHASE_ONE,
        n * step + d == periods * PHASE_ONE,
    ensures
        (phase_after(phase, step, n) + d) % (PHASE_ONE as int) == phase,
{
    let m = PHASE_ONE as int;
    lemma_phase_after(phase, step, n);
    lemma_add_mod_noop_right(d, phase + n * step, m);
    assert(d + (phase + n * step) == phase + periods * m);
    vstd::arithmetic::div_mod::lemma_mod_multiples_vanish(periods as int, phase, m);
    lemma_small_mod(phase as nat, m as nat);
}

/// The square shape is exactly minus one or plus one at every phase, and
/// plus one at the middle of the period.
pub proof fn lemma_square_is_unit(phase: u32)
    ensures
        square_at(phase) == (-1int, 1int) || square_at(phase) == (1int, 1int),
        square_at(phase) == (1int, 1int) <==> phase >= PHASE_HALF,
        square_at(PHASE_HALF) == (1int, 1int),
{
}

/// The triangle shape stays between minus one and one, starts at minus
/// one, and is one at the middle of the period.
pub proof fn lemma_triangle_range(phase: u32)
    ensures
        -triangle_at(phase).1 <= triangle_at(phase).0 <= triangle_at(phase).1,
        triangle_at(0) == (-(PHASE_ONE as int), PHASE_ONE as int),
        triangle_at(PHASE_HALF) == (PHASE_ONE as int, PHASE_ONE as int),
{
}

} // verus!
