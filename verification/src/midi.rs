//! Reading a song out of the bytes of a MIDI file. The bytes are parsed by
//! `midly`; this module copies what the player needs into the library's own
//! types.

use crate::song::{MidiMessage, Timing, TrackEvent};
use vstd::prelude::*;

verus! {

/// `midly::Smf`, a parsed file. Nothing is seen inside it but through the
/// functions below.
#[verifier::external_type_specification]
#[verifier::external_body]
pub struct ExSmf<'a>(midly::Smf<'a>);

/// `midly::Error`, why a file was refused. It is only told apart from
/// success.
#[verifier::external_type_specification]
#[verifier::external_body]
pub struct ExMidiError(midly::Error);

/// What `midly` makes of the bytes of a file: nothing where it refuses
/// them, else the header's timing and the events of each track.
pub uninterp spec fn parsed_song(bytes: Seq<u8>) -> Option<(Timing, Seq<Seq<TrackEvent>>)>;

/// The timing in a parsed file's header.
pub uninterp spec fn smf_timing(smf: &midly::Smf) -> Timing;

/// The events of a parsed file, track by track: of each event the delta
/// and, of what it says, the note, the tempo, or that it is something else.
pub uninterp spec fn smf_tracks(smf: &midly::Smf) -> Seq<Seq<TrackEvent>>;

/// Parses with `midly::Smf::parse`. The outcome depends on the bytes alone;
/// what an accepted file holds is named by `smf_timing` and `smf_tracks`.
#[verifier::external_body]
fn parse_smf<'a>(bytes: &'a [u8]) -> (r: Result<midly::Smf<'a>, midly::Error>)
    ensures
        match r {
            Ok(smf) => parsed_song(bytes@) == Some((smf_timing(&smf), smf_tracks(&smf))),
            Err(_) => parsed_song(bytes@) is None,
        },
{
    midly::Smf::parse(bytes)
}

/// Reads the field `header.timing`: ticks per beat as `midly` holds them,
/// widened by `u15::as_int`, or timecode.
#[verifier::external_body]
fn timing_of(smf: &midly::Smf) -> (t: Timing)
    ensures
        t == smf_timing(smf),
{
    match smf.header.timing {
        midly::Timing::Metrical(ticks) => Timing::Metrical(ticks.as_int()),
        midly::Timing::Timecode(_, _) => Timing::Timecode,
    }
}

/// The length of the field `tracks`.
#[verifier::external_body]
fn track_count(smf: &midly::Smf) -> (n: usize)
    ensures
        n == smf_tracks(smf).len(),
{
    smf.tracks.len()
}

/// The length of track `t`.
#[verifier::external_body]
fn track_len(smf: &midly::Smf, t: usize) -> (n: usize)
    requires
        t < smf_tracks(smf).len(),
    ensures
        n == smf_tracks(smf)[t as int].len(),
{
    smf.tracks[t].len()
}

/// Event `i` of track `t`: its delta and its kind, the integers widened by
/// `as_int`. A note-on, a note-off and a tempo keep their fields; every
/// other kind is `Other`.
#[verifier::external_body]
fn event_at(smf: &midly::Smf, t: usize, i: usize) -> (e: TrackEvent)
    requires
        t < smf_tracks(smf).len(),
        i < smf_tracks(smf)[t as int].len(),
    ensures
        e == smf_tracks(smf)[t as int][i as int],
{
    let event = &smf.tracks[t][i];
    let message = match event.kind {
        midly::TrackEventKind::Midi { message: midly::MidiMessage::NoteOn { key, vel }, .. } => {
            MidiMessage::NoteOn { key: key.as_int(), vel: vel.as_int() }
        },
        midly::TrackEventKind::Midi { message: midly::MidiMessage::NoteOff { key, .. }, .. } => {
            MidiMessage::NoteOff { key: key.as_int() }
        },
        midly::TrackEventKind::Meta(midly::MetaMessage::Tempo(t)) => MidiMessage::Tempo(t.as_int()),
        _ => MidiMessage::Other,
    };
    TrackEvent { delta: event.delta.as_int(), message }
}

/// A song as the player takes it: the timing and the events of each track.
#[derive(Debug, Clone, PartialEq, Eq)]
pub struct Song {
    pub timing: Timing,
    pub tracks: Vec<Vec<TrackEvent>>,
}

/// Why no song came out of the bytes.
#[derive(Debug, Clone, Copy, PartialEq, Eq, Structural)]
pub enum SongError {
    /// The bytes are no MIDI file that `midly` accepts.
    Malformed,
}

/// The events of each track as sequences.
pub open spec fn tracks_view(tracks: Seq<Vec<TrackEvent>>) -> Seq<Seq<TrackEvent>> {
    Seq::new(tracks.len(), |t: int| tracks[t]@)
}

impl View for Song {
    type V = (Timing, Seq<Seq<TrackEvent>>);

    open spec fn view(&self) -> (Timing, Seq<Seq<TrackEvent>>) {
        (self.timing, tracks_view(self.tracks@))
    }
}

/// Copies track `t` of a parsed file.
fn copy_track(smf: &midly::Smf, t: usize) -> (track: Vec<TrackEvent>)
    requires
        t < smf_tracks(smf).len(),
    ensures
        track@ == smf_tracks(smf)[t as int],
{
    let n: usize = track_len(smf, t);
    let mut track: Vec<TrackEvent> = Vec::new();
    let mut i: usize = 0;
    while i < n
        invariant
            t < smf_tracks(smf).len(),
            n == smf_tracks(smf)[t as int].len(),
            i <= n,
            track@ == smf_tracks(smf)[t as int].take(i as int),
        decreases n - i,
    {
        let event = event_at(smf, t, i);
        track.push(event);
        i = i + 1;
        assert(track@ =~= smf_tracks(smf)[t as int].take(i as int));
    }
    assert(track@ =~= smf_tracks(smf)[t as int]);
    track
}

/// Copies a parsed file into a song.
fn copy_song(smf: &midly::Smf) -> (song: Song)
    ensures
        song@ == (smf_timing(smf), smf_tracks(smf)),
{
    let timing = timing_of(smf);
    let n: usize = track_count(smf);
    let mut tracks: Vec<Vec<TrackEvent>> = Vec::new();
    let mut t: usize = 0;
    while t < n
        invariant
            n == smf_tracks(smf).len(),
            t <= n,
            tracks@.len() == t,
            forall|u: int| 0 <= u < t ==> (#[trigger] tracks@[u])@ == smf_tracks(smf)[u],
        decreases n - t,
    {
        let track = copy_track(smf, t);
        tracks.push(track);
        t = t + 1;
    }
    assert(tracks_view(tracks@) =~= smf_tracks(smf));
    Song { timing, tracks }
}

/// Reads a song out of the bytes of a MIDI file: the song that the parser
/// finds in them, or `Malformed` where it finds none.
pub fn decode(bytes: &[u8]) -> (r: Result<Song, SongError>)
    ensures
        match r {
            Ok(song) => parsed_song(bytes@) == Some(song@),
            Err(SongError::Malformed) => parsed_song(bytes@) is None,
        },
{
    match parse_smf(bytes) {
        Ok(smf) => Ok(copy_song(&smf)),
        Err(_) => Err(SongError::Malformed),
    }
}

} // verus!
