use rust_audio_shenanigans::adsr::{
    decode_event, encode_event, ADSREvent, EnvelopeError, Level, ADSR, SUSTAIN_ONE,
};

fn value(level: Level) -> f64 {
    level.num as f64 / level.den as f64
}

#[test]
fn encode_press_sets_message_bit() {
    assert_eq!(encode_event(ADSREvent::Press(100)), 0x80 | 100);
    assert_eq!(encode_event(ADSREvent::Release), 0x80);
}

#[test]
fn decode_round_trip() {
    assert_eq!(decode_event(0), None);
    assert_eq!(decode_event(encode_event(ADSREvent::Release)), Some(ADSREvent::Release));
    for vel in 1..=127u8 {
        assert_eq!(
            decode_event(encode_event(ADSREvent::Press(vel))),
            Some(ADSREvent::Press(vel))
        );
    }
}

#[test]
fn press_without_velocity_reads_as_release() {
    assert_eq!(decode_event(encode_event(ADSREvent::Press(0))), Some(ADSREvent::Release));
}

#[test]
fn zero_durations_are_refused() {
    assert!(matches!(ADSR::new(0, 10, 100, 10), Err(EnvelopeError::ZeroAttack)));
    assert!(matches!(ADSR::new(10, 0, 100, 10), Err(EnvelopeError::ZeroDecay)));
    assert!(matches!(ADSR::new(10, 10, 100, 0), Err(EnvelopeError::ZeroRelease)));
    assert!(matches!(
        ADSR::new(10, 10, SUSTAIN_ONE + 1, 10),
        Err(EnvelopeError::SustainAboveOne)
    ));
    assert!(ADSR::new(10, 10, SUSTAIN_ONE, 10).is_ok());
}

#[test]
fn silent_before_any_press() {
    let (mut adsr, _trigger) = ADSR::new(882, 13230, 32768, 2205).unwrap();
    for _ in 0..50_000 {
        let out = adsr.next_sample();
        assert_eq!(out.num, 0);
        assert!(out.den > 0);
    }
}

#[test]
fn release_while_idle_stays_silent() {
    let (mut adsr, trigger) = ADSR::new(4, 4, 32768, 4).unwrap();
    trigger.trigger(ADSREvent::Release);
    for _ in 0..20 {
        assert_eq!(adsr.next_sample().num, 0);
    }
}

#[test]
fn attack_rises_after_full_press() {
    let attack = 882u32;
    let (mut adsr, trigger) = ADSR::new(attack, 13230, 32768, 2205).unwrap();
    trigger.trigger(ADSREvent::Press(127));
    let mut last = Level { num: 0, den: 1 };
    for k in 0..(attack as u64 - 1) {
        let out = adsr.next_sample();
        assert_eq!(out.num, 127 * (k + 1));
        assert_eq!(out.den, 127 * attack as u64);
        assert!(value(out) > value(last));
        last = out;
    }
    // the attack ends at full level
    let top = adsr.next_sample();
    assert_eq!(top.num, top.den);
}

#[test]
fn velocity_scales_the_level() {
    let (mut adsr, trigger) = ADSR::new(4, 4, 32768, 4).unwrap();
    trigger.trigger(ADSREvent::Press(64));
    let out = adsr.next_sample();
    assert_eq!(out, Level { num: 64, den: 127 * 4 });
}

#[test]
fn decay_falls_to_sustain_and_holds() {
    let (mut adsr, trigger) = ADSR::new(2, 4, 32768, 4).unwrap();
    trigger.trigger(ADSREvent::Press(127));
    let outs: Vec<Level> = (0..10).map(|_| adsr.next_sample()).collect();
    let one = SUSTAIN_ONE as u64;
    // attack: phase 1
    assert_eq!(outs[0], Level { num: 127, den: 127 * 2 });
    // decay: phases 2..=5
    assert_eq!(outs[1], Level { num: 127 * (4 * one), den: 127 * (4 * one) });
    assert_eq!(outs[2], Level { num: 127 * (4 * one - one / 2), den: 127 * (4 * one) });
    assert_eq!(outs[3], Level { num: 127 * (4 * one - one), den: 127 * (4 * one) });
    assert_eq!(outs[4], Level { num: 127 * (4 * one - 3 * one / 2), den: 127 * (4 * one) });
    // sustain from phase 6 on, frozen
    for out in &outs[5..] {
        assert_eq!(*out, Level { num: 127 * 32768, den: 127 * one });
        assert_eq!(value(*out), 0.5);
    }
}

#[test]
fn release_falls_to_zero_over_exactly_release_ticks() {
    let release = 2205u32;
    let (mut adsr, trigger) = ADSR::new(10, 10, 32768, release).unwrap();
    trigger.trigger(ADSREvent::Press(127));
    for _ in 0..100 {
        adsr.next_sample();
    }
    let mut last = adsr.next_sample();
    assert_eq!(value(last), 0.5);
    trigger.trigger(ADSREvent::Release);
    for k in 0..release as u64 {
        let out = adsr.next_sample();
        assert_eq!(out.num, 127 * (32768 * (release as u64 - (k + 1))));
        assert_eq!(out.den, 127 * (SUSTAIN_ONE as u64 * release as u64));
        assert!(value(out) < value(last));
        last = out;
    }
    assert_eq!(last.num, 0);
    for _ in 0..10 {
        assert_eq!(adsr.next_sample(), Level { num: 0, den: 1 });
    }
}

#[test]
fn press_during_release_rejoins_the_level() {
    let (mut adsr, trigger) = ADSR::new(100, 10, SUSTAIN_ONE, 100).unwrap();
    trigger.trigger(ADSREvent::Press(127));
    for _ in 0..200 {
        adsr.next_sample();
    }
    trigger.trigger(ADSREvent::Release);
    let mut last = adsr.next_sample();
    for _ in 0..39 {
        last = adsr.next_sample();
    }
    // 40 of 100 release ticks are gone: the level is 60/100
    assert_eq!(value(last), 0.6);
    trigger.trigger(ADSREvent::Press(127));
    let out = adsr.next_sample();
    // the attack goes on from phase 60, so this tick is at phase 61
    assert_eq!(out, Level { num: 127 * 61, den: 127 * 100 });
}

#[test]
fn press_during_attack_starts_again() {
    let (mut adsr, trigger) = ADSR::new(100, 10, SUSTAIN_ONE, 100).unwrap();
    trigger.trigger(ADSREvent::Press(127));
    for _ in 0..50 {
        adsr.next_sample();
    }
    trigger.trigger(ADSREvent::Press(127));
    assert_eq!(adsr.next_sample(), Level { num: 127, den: 127 * 100 });
}

#[test]
fn only_the_last_posted_event_counts() {
    let (mut adsr, trigger) = ADSR::new(4, 4, 32768, 4).unwrap();
    trigger.trigger(ADSREvent::Press(127));
    trigger.trigger(ADSREvent::Release);
    assert_eq!(adsr.next_sample().num, 0);
}

#[test]
fn apply_msg_and_tick_agree_with_next_sample() {
    let (mut a, trigger) = ADSR::new(8, 8, 1000, 8).unwrap();
    let (mut b, _unused) = ADSR::new(8, 8, 1000, 8).unwrap();
    trigger.trigger(ADSREvent::Press(90));
    b.apply_msg(encode_event(ADSREvent::Press(90)));
    for _ in 0..30 {
        assert_eq!(a.next_sample(), b.tick());
    }
}
