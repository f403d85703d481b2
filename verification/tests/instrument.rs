use rust_audio_shenanigans::adsr::{ADSREvent, Level, Trigger, ADSR};
use rust_audio_shenanigans::instrument::PolyInstrument;

fn make_voice(_key: usize) -> (ADSR, Trigger) {
    ADSR::new(4, 4, 32768, 4).unwrap()
}

#[test]
fn pressing_a_key_twice_makes_one_voice() {
    let mut inst = PolyInstrument::new(make_voice);
    assert_eq!(inst.voice_count(), 0);
    inst.play(60, ADSREvent::Press(100));
    assert_eq!(inst.voice_count(), 1);
    inst.play(60, ADSREvent::Press(100));
    assert_eq!(inst.voice_count(), 1);
    inst.play(60, ADSREvent::Release);
    assert_eq!(inst.voice_count(), 1);
    assert!(inst.has_voice(60));
    assert!(!inst.has_voice(61));
}

#[test]
fn each_key_gets_its_own_voice() {
    let mut inst = PolyInstrument::new(make_voice);
    for key in [60usize, 64, 67, 60, 64, 72] {
        inst.play(key, ADSREvent::Press(80));
    }
    assert_eq!(inst.voice_count(), 4);
    for key in [60usize, 64, 67, 72] {
        assert!(inst.has_voice(key));
    }
}

#[test]
fn the_first_event_reaches_the_new_voice() {
    let mut inst = PolyInstrument::new(make_voice);
    inst.play(3, ADSREvent::Press(127));
    let voice = inst.keymap.get_mut(&3).unwrap();
    assert_eq!(voice.0.next_sample(), Level { num: 127, den: 127 * 4 });
}

#[test]
fn a_later_event_reaches_the_same_voice() {
    let mut inst = PolyInstrument::new(make_voice);
    inst.play(3, ADSREvent::Press(127));
    for _ in 0..20 {
        inst.keymap.get_mut(&3).unwrap().0.next_sample();
    }
    inst.play(3, ADSREvent::Release);
    let out = inst.keymap.get_mut(&3).unwrap().0.next_sample();
    assert_eq!(out, Level { num: 127 * (32768 * 3), den: 127 * (65536 * 4) });
}
