use rust_audio_shenanigans::effects::{
    clip, lowpass, Coefficients, FilterError, Lowpass, OUTPUT_GAIN, RESONANCE_ONE, SAMPLE_LIMIT,
};
use rust_audio_shenanigans::wave::{Constant, Wave};

const P: i128 = 44100 * 113;

fn expected(f: i128, r: i128) -> ([i128; 5], i128) {
    let q = 355 * f;
    let one = 1024;
    (
        [
            one * q * q,
            2 * one * q * q,
            one * q * q,
            2 * one * (q * q - P * P),
            one * (q * q + P * P) - r * P * q,
        ],
        one * (q * q + P * P) + r * P * q,
    )
}

#[test]
fn coefficients_follow_the_prototype() {
    for (f, r) in [(5000u32, 1024u32), (1, 0), (440, 512), (20000, 4096), (90000, 0)] {
        let k = Coefficients::new(f, r).unwrap();
        let (nums, den) = expected(f as i128, r as i128);
        assert_eq!(k.denominator() as i128, den);
        for (got, want) in k.numerators().iter().zip(nums.iter()) {
            assert_eq!(*got as i128, *want);
        }
    }
}

#[test]
fn coefficients_match_the_formulas_in_floating_point() {
    let k = Coefficients::new(5000, RESONANCE_ONE).unwrap();
    let d = k.denominator() as f64;
    let c = 1.0 / (std::f64::consts::PI * 5000.0 / 44100.0);
    let a1 = 1.0 / (1.0 + c + c * c);
    let want = [a1, 2.0 * a1, a1, 2.0 * (1.0 - c * c) * a1, (1.0 - c + c * c) * a1];
    for (got, want) in k.numerators().iter().zip(want.iter()) {
        assert!((*got as f64 / d - want).abs() < 1e-6);
    }
}

#[test]
fn zero_cutoff_is_refused() {
    assert_eq!(Coefficients::new(0, 1024), Err(FilterError::ZeroCutoff));
    assert!(matches!(lowpass(0, 0), Err(FilterError::ZeroCutoff)));
    assert!(matches!(Lowpass::new(0, 1024, Constant { value: 0i64 }), Err(FilterError::ZeroCutoff)));
}

#[test]
fn denominator_beyond_its_limit_is_refused() {
    assert_eq!(Coefficients::new(u32::MAX, 0), Err(FilterError::OutOfRange));
    assert_eq!(Coefficients::new(5000, u32::MAX), Err(FilterError::OutOfRange));
    assert!(Coefficients::new(90000, 0).is_ok());
}

#[test]
fn first_ticks_follow_the_recursion() {
    let k = Coefficients::new(5000, 1024).unwrap();
    let n = k.numerators();
    let d = k.denominator() as i128;
    let v: i64 = 1 << 32;
    let mut filter = Lowpass::new(5000, 1024, Constant { value: v }).unwrap();
    let raw0 = (n[0] as i128 * v as i128) / d;
    assert_eq!(filter.next_sample() as i128, 4 * raw0);
    let raw1 = (n[0] as i128 * v as i128 + n[1] as i128 * v as i128 - n[3] as i128 * raw0) / d;
    assert_eq!(filter.next_sample() as i128, 4 * raw1);
    let raw2 = (n[0] as i128 * v as i128 + n[1] as i128 * v as i128 + n[2] as i128 * v as i128
        - n[3] as i128 * raw1
        - n[4] as i128 * raw0)
        / d;
    assert_eq!(filter.next_sample() as i128, 4 * raw2);
}

#[test]
fn constant_input_settles_at_the_gain() {
    let v: i64 = 1 << 30;
    let mut filter = Lowpass::new(5000, 1024, Constant { value: -v }).unwrap();
    let mut out = 0;
    for _ in 0..2000 {
        out = filter.next_sample();
    }
    assert_eq!(OUTPUT_GAIN, 4);
    assert!((out + 4 * v).abs() < 16);
}

#[test]
fn silence_stays_silent() {
    let mut filter = Lowpass::new(440, 1024, Constant { value: 0i64 }).unwrap();
    for _ in 0..100 {
        assert_eq!(filter.next_sample(), 0);
    }
}

#[test]
fn feed_clips_what_lies_beyond_the_limit() {
    let mut a = Lowpass::new(5000, 1024, Constant { value: 0i64 }).unwrap();
    let mut b = Lowpass::new(5000, 1024, Constant { value: 0i64 }).unwrap();
    assert_eq!(a.source.feed(i64::MAX), b.source.feed(SAMPLE_LIMIT));
    assert_eq!(a.source.feed(i64::MIN), b.source.feed(-SAMPLE_LIMIT));
    assert_eq!(clip(i128::MAX), SAMPLE_LIMIT);
    assert_eq!(clip(-5), -5);
    assert_eq!(clip(i128::MIN), -SAMPLE_LIMIT);
}
