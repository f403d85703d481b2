use rust_audio_shenanigans::oscillator::{
    advance_phase, Amplitude, Oscillator, Sawtooth, Square, Triangle, WaveFn, PHASE_HALF,
    PHASE_ONE,
};
use rust_audio_shenanigans::wave::{Constant, Wave};

struct Rising {
    next: u32,
}

impl Wave<u32> for Rising {
    fn wf(&self) -> bool {
        true
    }

    fn yields(&self, out: u32, next: Self) -> bool {
        out == self.next && next.next == out + 1
    }

    fn next_sample(&mut self) -> u32 {
        self.next += 1;
        self.next - 1
    }
}

#[test]
fn phase_wraps_by_one_period() {
    assert_eq!(advance_phase(5, 7), 12);
    assert_eq!(advance_phase(u32::MAX, 1), 0);
    assert_eq!(advance_phase(u32::MAX, u32::MAX), u32::MAX - 1);
    assert_eq!(advance_phase(PHASE_HALF, PHASE_HALF), 0);
    assert_eq!(advance_phase(0, 0), 0);
    assert_eq!(PHASE_ONE, 1u64 << 32);
}

#[test]
fn square_is_minus_one_then_plus_one() {
    let mut shape = Square;
    assert_eq!(shape.process(0), Amplitude { num: -1, den: 1 });
    assert_eq!(shape.process(PHASE_HALF - 1), Amplitude { num: -1, den: 1 });
    assert_eq!(shape.process(PHASE_HALF), Amplitude { num: 1, den: 1 });
    assert_eq!(shape.process(u32::MAX), Amplitude { num: 1, den: 1 });
}

#[test]
fn square_wave_is_always_a_unit() {
    let mut osc = Oscillator::new(Square, Constant { value: 0x0123_4567u32 });
    for _ in 0..10_000 {
        let out = osc.next_sample();
        assert_eq!(out.den, 1);
        assert!(out.num == 1 || out.num == -1);
    }
}

#[test]
fn sawtooth_is_the_phase() {
    let mut shape = Sawtooth;
    assert_eq!(shape.process(0), Amplitude { num: 0, den: PHASE_ONE });
    assert_eq!(shape.process(12345), Amplitude { num: 12345, den: PHASE_ONE });
    assert_eq!(shape.process(u32::MAX), Amplitude { num: u32::MAX as i64, den: PHASE_ONE });
}

#[test]
fn triangle_goes_up_and_down() {
    let mut shape = Triangle;
    let one = PHASE_ONE as i64;
    assert_eq!(shape.process(0), Amplitude { num: -one, den: PHASE_ONE });
    assert_eq!(shape.process(PHASE_HALF / 2), Amplitude { num: 0, den: PHASE_ONE });
    assert_eq!(shape.process(PHASE_HALF), Amplitude { num: one, den: PHASE_ONE });
    assert_eq!(shape.process(PHASE_HALF / 2 * 3), Amplitude { num: 0, den: PHASE_ONE });
    assert_eq!(shape.process(u32::MAX), Amplitude { num: 4 - one, den: PHASE_ONE });
}

#[test]
fn output_repeats_after_a_full_period() {
    let step = (PHASE_ONE / 128) as u32;
    let mut osc = Oscillator::new(Triangle, Constant { value: step });
    let first: Vec<Amplitude> = (0..128).map(|_| osc.next_sample()).collect();
    assert_eq!(osc.source.phase, 0);
    let second: Vec<Amplitude> = (0..128).map(|_| osc.next_sample()).collect();
    assert_eq!(first, second);
    assert_eq!(first[0], Amplitude { num: 4 * step as i64 - PHASE_ONE as i64, den: PHASE_ONE });
}

#[test]
fn oscillator_starts_at_phase_zero_and_adds_each_step() {
    let mut osc = Oscillator::new(Sawtooth, Rising { next: 10 });
    assert_eq!(osc.source.phase, 0);
    assert_eq!(osc.next_sample().num, 10);
    assert_eq!(osc.next_sample().num, 21);
    assert_eq!(osc.next_sample().num, 33);
    assert_eq!(osc.source.input.next, 13);
}
