use rust_audio_shenanigans::adsr::{ADSREvent, Level, ADSR};
use rust_audio_shenanigans::mix::{MixFn, PartialWaveMixer1, PartialWaveMixer2, WaveMixer};
use rust_audio_shenanigans::oscillator::{PartialOscillator, Sawtooth, Sine, Square, Triangle};
use rust_audio_shenanigans::partial_wave::PartialWaveBuilder;
use rust_audio_shenanigans::variable::VariableSetter;
use rust_audio_shenanigans::wave::{Constant, Pass, Wave, WaveGenerator, SAMPLE_RATE};
use rust_audio_shenanigans::waves::{
    constant, pass, sawtooth, silence, sine, square, triangle, var,
};

struct Minus;

impl MixFn<f64> for Minus {
    fn mixed(&self, left: f64, right: f64, out: f64) -> bool {
        out == left - right
    }

    fn mix(&self, left: f64, right: f64) -> f64 {
        left - right
    }
}

struct Counter {
    next: f64,
}

impl Wave<f64> for Counter {
    fn wf(&self) -> bool {
        true
    }

    fn yields(&self, out: f64, next: Self) -> bool {
        out == self.next + 1.0 && next.next == out
    }

    fn next_sample(&mut self) -> f64 {
        self.next += 1.0;
        self.next
    }
}

#[test]
fn constant_emits_its_value() {
    let mut c = Constant::make(440.0);
    for _ in 0..5 {
        assert_eq!(c.next_sample(), 440.0);
    }
    assert_eq!(c.sample_rate(), SAMPLE_RATE);
    assert_eq!(SAMPLE_RATE, 44100);
}

#[test]
fn pass_hands_the_input_on() {
    let mut p = Pass::new(Counter { next: 0.0 });
    assert_eq!(p.next_sample(), 1.0);
    assert_eq!(p.next_sample(), 2.0);
}

#[test]
fn mixer_ticks_each_side_once_left_first() {
    let mut m = WaveMixer::new(Minus, Counter { next: 10.0 }, Counter { next: 0.0 });
    assert_eq!(m.next_sample(), 10.0);
    assert_eq!(m.next_sample(), 10.0);
    assert_eq!(m.left.next, 12.0);
    assert_eq!(m.right.next, 2.0);
    let mut n = WaveMixer::new(Minus, Constant { value: 1.0 }, Constant { value: 3.0 });
    assert_eq!(n.next_sample(), -2.0);
}

#[test]
fn generator_wraps_a_source() {
    let g = WaveGenerator::new(Constant { value: 2.5 });
    assert_eq!(g.source.value, 2.5);
    assert_eq!(g.into_inner().value, 2.5);
}

#[test]
fn envelope_is_a_wave() {
    let (adsr, trigger) = ADSR::new(4, 4, 32768, 4).unwrap();
    let mut g = WaveGenerator::new(adsr);
    trigger.trigger(ADSREvent::Press(127));
    assert_eq!(Wave::next_sample(&mut g), Level { num: 127, den: 127 * 4 });
}

#[test]
fn named_oscillators_have_their_shape() {
    assert_eq!(sine().partial.wave_fn, Sine);
    assert_eq!(square().partial.wave_fn, Square);
    assert_eq!(sawtooth().partial.wave_fn, Sawtooth);
    assert_eq!(triangle().partial.wave_fn, Triangle);
    assert_eq!(PartialOscillator::new(Square).into_inner().wave_fn, Square);
}

#[test]
fn chain_keeps_both_ends() {
    let chain = PartialWaveBuilder::new(1u8) >> 2u16;
    assert_eq!(chain.src, 1u8);
    assert_eq!(chain.dst, 2u16);
}

#[test]
fn partial_mixers_keep_their_parts() {
    let one = PartialWaveMixer1::new(Minus, Constant { value: 1.0 }, Square);
    assert_eq!(one.left.value, 1.0);
    assert_eq!(one.right, Square);
    let two = PartialWaveMixer2::new(Minus, Sine, Triangle);
    assert_eq!(two.left, Sine);
    assert_eq!(two.right, Triangle);
}

#[test]
fn generators_mix_left_and_right() {
    let mut m = constant(5.0).mix(Minus, constant(3.0));
    assert_eq!(m.next_sample(), 2.0);
    assert_eq!(m.source.left.value, 5.0);
    assert_eq!(m.source.right.value, 3.0);
}

#[test]
fn partial_builders_mix_with_waves_and_each_other() {
    let a = square().mix_wave(Minus, constant(2.0));
    assert_eq!(a.partial.left.source.value, 2.0);
    assert_eq!(a.partial.right.wave_fn, Square);
    let b = constant(4.0).mix_partial(Minus, sine());
    assert_eq!(b.partial.left.source.value, 4.0);
    assert_eq!(b.partial.right.wave_fn, Sine);
    let c = sawtooth().mix(Minus, triangle());
    assert_eq!(c.partial.left.wave_fn, Sawtooth);
    assert_eq!(c.partial.right.wave_fn, Triangle);
}

fn halve(x: &f64) -> f64 {
    *x / 2.0
}

#[test]
fn variable_source_takes_posts_at_the_next_tick() {
    let (mut wave, sender) = var::<f64, fn(&f64) -> f64>(440.0);
    assert_eq!(wave.next_sample(), 440.0);
    sender.set(880.0);
    sender.apply(halve);
    sender.apply(halve);
    assert_eq!(wave.next_sample(), 220.0);
    assert_eq!(wave.next_sample(), 220.0);
}

#[test]
fn silence_is_zero() {
    let mut s = silence();
    assert_eq!(s.next_sample(), 0);
    assert_eq!(s.next_sample(), 0);
}

#[test]
fn generators_and_builders_come_from_their_parts() {
    let g: WaveGenerator<Constant<u8>> = Constant { value: 3u8 }.into();
    assert_eq!(g.source.value, 3);
    let b: PartialWaveBuilder<Square> = Square.into();
    assert_eq!(b.into_inner(), Square);
}

#[test]
fn every_source_reports_the_common_rate_by_default() {
    assert_eq!(Constant { value: 1u8 }.sample_rate(), 44100);
    assert_eq!(Pass::new(Counter { next: 0.0 }).sample_rate(), 44100);
    assert_eq!(pass().into_inner(), rust_audio_shenanigans::wave::PartialPass);
}
