use rust_audio_shenanigans::adsr::ADSREvent;
use rust_audio_shenanigans::midi::{decode, Song, SongError};
use rust_audio_shenanigans::scheduler::{schedule, NoteAction, SchedulerError, Step};
use rust_audio_shenanigans::song::{MidiMessage, Timing, TrackEvent};

fn chunk(name: &[u8; 4], body: &[u8]) -> Vec<u8> {
    let mut out = name.to_vec();
    out.extend_from_slice(&(body.len() as u32).to_be_bytes());
    out.extend_from_slice(body);
    out
}

fn file(division: [u8; 2], tracks: &[&[u8]]) -> Vec<u8> {
    let mut header = vec![0, 1];
    header.extend_from_slice(&(tracks.len() as u16).to_be_bytes());
    header.extend_from_slice(&division);
    let mut out = chunk(b"MThd", &header);
    for track in tracks {
        out.extend(chunk(b"MTrk", track));
    }
    out
}

const TEMPO_TRACK: [u8; 11] = [0x00, 0xFF, 0x51, 0x03, 0x07, 0xA1, 0x20, 0x00, 0xFF, 0x2F, 0x00];

const NOTE_TRACK: [u8; 14] = [
    0x83, 0x60, 0x90, 0x3C, 0x64, 0x83, 0x60, 0x80, 0x3C, 0x00, 0x00, 0xFF, 0x2F, 0x00,
];

#[test]
fn decode_copies_timing_and_events() {
    let bytes = file([0x01, 0xE0], &[&TEMPO_TRACK, &NOTE_TRACK]);
    let song = decode(&bytes).unwrap();
    assert_eq!(
        song,
        Song {
            timing: Timing::Metrical(480),
            tracks: vec![
                vec![
                    TrackEvent { delta: 0, message: MidiMessage::Tempo(500_000) },
                    TrackEvent { delta: 0, message: MidiMessage::Other },
                ],
                vec![
                    TrackEvent { delta: 480, message: MidiMessage::NoteOn { key: 60, vel: 100 } },
                    TrackEvent { delta: 480, message: MidiMessage::NoteOff { key: 60 } },
                    TrackEvent { delta: 0, message: MidiMessage::Other },
                ],
            ],
        }
    );
}

#[test]
fn decoded_song_plays_one_beat_in_half_a_second() {
    let bytes = file([0x01, 0xE0], &[&TEMPO_TRACK, &NOTE_TRACK]);
    let song = decode(&bytes).unwrap();
    let steps = schedule(&song.tracks, song.timing).unwrap();
    assert_eq!(
        steps,
        vec![
            Step { sleep_micros: 0, action: None },
            Step { sleep_micros: 0, action: None },
            Step {
                sleep_micros: 500_000,
                action: Some(NoteAction { key: 60, event: ADSREvent::Press(100) }),
            },
            Step {
                sleep_micros: 500_000,
                action: Some(NoteAction { key: 60, event: ADSREvent::Release }),
            },
            Step { sleep_micros: 0, action: None },
        ]
    );
}

#[test]
fn decode_tells_other_kinds_apart_from_notes() {
    // aftertouch, controller, program change, then a key signature
    let track: [u8; 22] = [
        0x00, 0xA0, 0x3C, 0x10, 0x05, 0xB0, 0x07, 0x7F, 0x00, 0xC0, 0x05, 0x0A, 0xFF, 0x59, 0x02,
        0x00, 0x00, 0x00, 0x90, 0x40, 0x00, 0x00,
    ];
    let mut track = track.to_vec();
    track.truncate(21);
    track.extend_from_slice(&[0x00, 0xFF, 0x2F, 0x00]);
    let song = decode(&file([0x00, 0x60], &[&track])).unwrap();
    assert_eq!(song.timing, Timing::Metrical(96));
    assert_eq!(
        song.tracks,
        vec![vec![
            TrackEvent { delta: 0, message: MidiMessage::Other },
            TrackEvent { delta: 5, message: MidiMessage::Other },
            TrackEvent { delta: 0, message: MidiMessage::Other },
            TrackEvent { delta: 10, message: MidiMessage::Other },
            TrackEvent { delta: 0, message: MidiMessage::NoteOn { key: 64, vel: 0 } },
            TrackEvent { delta: 0, message: MidiMessage::Other },
        ]]
    );
}

#[test]
fn decode_of_a_file_without_tracks() {
    let song = decode(&file([0x00, 0x60], &[])).unwrap();
    assert_eq!(song, Song { timing: Timing::Metrical(96), tracks: vec![] });
}

#[test]
fn timecode_is_decoded_and_then_refused() {
    let bytes = file([0xE7, 0x28], &[&TEMPO_TRACK]);
    let song = decode(&bytes).unwrap();
    assert_eq!(song.timing, Timing::Timecode);
    assert_eq!(schedule(&song.tracks, song.timing), Err(SchedulerError::UnsupportedTiming));
}

#[test]
fn bytes_that_are_no_midi_file_are_malformed() {
    assert_eq!(decode(b"not a midi file"), Err(SongError::Malformed));
    assert_eq!(decode(&[]), Err(SongError::Malformed));
}
