//! Decoded note events, their absolute timestamps, and the stable merge of
//! several tracks into one song.

use vstd::multiset::Multiset;
use vstd::prelude::*;

verus! {

/// A decoded MIDI message, as far as the player cares.
#[derive(Debug, Clone, Copy, PartialEq, Eq, Structural)]
pub enum MidiMessage {
    NoteOn { key: u8, vel: u8 },
    NoteOff { key: u8 },
    /// Microseconds per beat.
    Tempo(u32),
    Other,
}

/// An event of a track: the ticks since the track's previous event, and the
/// message.
#[derive(Debug, Clone, Copy, PartialEq, Eq, Structural)]
pub struct TrackEvent {
    pub delta: u32,
    pub message: MidiMessage,
}

/// How a song's header counts time.
#[derive(Debug, Clone, Copy, PartialEq, Eq, Structural)]
pub enum Timing {
    /// Ticks per beat.
    Metrical(u16),
    /// Frames per second and subframes: not played.
    Timecode,
}

/// An event of a song: the ticks since the song's start, and the message.
#[derive(Debug, Clone, Copy, PartialEq, Eq, Structural)]
pub struct TimedEvent {
    pub timestamp: u64,
    pub message: MidiMessage,
}

/// The sum of the first `n` deltas of a track.
pub open spec fn ticks_before(track: Seq<TrackEvent>, n: int) -> int
    decreases n,
{
    if n <= 0 {
        0
    } else {
        ticks_before(track, n - 1) + track[n - 1].delta
    }
}

/// A track with each event at its absolute tick: the sum of the deltas up to
/// and including its own.
pub open spec fn timeline_of(track: Seq<TrackEvent>) -> Seq<TimedEvent> {
    Seq::new(
        track.len(),
        |i: int|
            TimedEvent {
                timestamp: ticks_before(track, i + 1) as u64,
                message: track[i].message,
            },
    )
}

/// Ordered by timestamp.
pub open spec fn sorted(s: Seq<TimedEvent>) -> bool {
    forall|i: int, j: int| 0 <= i <= j < s.len() ==> s[i].timestamp <= s[j].timestamp
}

/// The stable merge of two timelines: the earlier head goes first, and on a
/// tie the head of `a`.
pub open spec fn merged(a: Seq<TimedEvent>, b: Seq<TimedEvent>) -> Seq<TimedEvent>
    decreases a.len() + b.len(),
{
    if a.len() == 0 {
        b
    } else if b.len() == 0 {
        a
    } else if a[0].timestamp <= b[0].timestamp {
        seq![a[0]] + merged(a.drop_first(), b)
    } else {
        seq![b[0]] + merged(a, b.drop_first())
    }
}

/// The song of the first `n` tracks: each track's timeline merged into the
/// song of the tracks before it, so that on a tie the earlier track goes
/// first.
pub open spec fn song_of(tracks: Seq<Vec<TrackEvent>>, n: int) -> Seq<TimedEvent>
    decreases n,
{
    if n <= 0 {
        Seq::empty()
    } else {
        merged(song_of(tracks, n - 1), timeline_of(tracks[n - 1]@))
    }
}

/// The deltas seen so far never sum to more than `n` times the largest delta.
pub proof fn lemma_ticks_bounded(track: Seq<TrackEvent>, n: int)
    requires
        0 <= n <= track.len(),
    ensures
        0 <= ticks_before(track, n) <= n * u32::MAX,
        n > 0 ==> ticks_before(track, n - 1) <= ticks_before(track, n),
    decreases n,
{
    if n > 0 {
        lemma_ticks_bounded(track, n - 1);
        assert((n - 1) * u32::MAX + u32::MAX == n * u32::MAX) by (nonlinear_arith);
    }
}

/// The sum of the deltas grows with the number of events counted.
pub proof fn lemma_ticks_monotone(track: Seq<TrackEvent>, m: int, n: int)
    requires
        0 <= m <= n <= track.len(),
    ensures
        ticks_before(track, m) <= ticks_before(track, n),
    decreases n - m,
{
    if m < n {
        lemma_ticks_bounded(track, n);
        lemma_ticks_monotone(track, m, n - 1);
    }
}

/// A track's timeline is ordered by timestamp.
pub proof fn lemma_timeline_sorted(track: Seq<TrackEvent>)
    requires
        track.len() <= u32::MAX,
    ensures
        sorted(timeline_of(track)),
        timeline_of(track).len() == track.len(),
{
    let t = timeline_of(track);
    assert forall|i: int, j: int| 0 <= i <= j < t.len() implies t[i].timestamp
        <= t[j].timestamp by {
        lemma_ticks_monotone(track, i + 1, j + 1);
        lemma_ticks_bounded(track, i + 1);
        lemma_ticks_bounded(track, j + 1);
        assert((j + 1) * u32::MAX <= u32::MAX * u32::MAX) by (nonlinear_arith)
            requires
                j + 1 <= u32::MAX,
        ;
    }
}

/// One step of a merge: which head goes first, and what is left to merge.
pub proof fn lemma_merged_step(a: Seq<TimedEvent>, b: Seq<TimedEvent>)
    requires
        a.len() + b.len() > 0,
    ensures
        a.len() > 0 && (b.len() == 0 || a[0].timestamp <= b[0].timestamp) ==> merged(a, b)
            == seq![a[0]] + merged(a.drop_first(), b),
        b.len() > 0 && (a.len() == 0 || a[0].timestamp > b[0].timestamp) ==> merged(a, b)
            == seq![b[0]] + merged(a, b.drop_first()),
{
    if a.len() == 0 {
        assert(merged(a, b.drop_first()) == b.drop_first());
        assert(b =~= seq![b[0]] + b.drop_first());
    } else if b.len() == 0 {
        let rest = a.drop_first();
        assert(merged(rest, b) =~= rest);
        assert(a =~= seq![a[0]] + rest);
    }
}

/// A merge keeps every event of both timelines, as often as it occurs, and
/// nothing else; its length is the sum of theirs.
pub proof fn lemma_merged_keeps_events(a: Seq<TimedEvent>, b: Seq<TimedEvent>)
    ensures
        merged(a, b).to_multiset() =~= a.to_multiset().add(b.to_multiset()),
        merged(a, b).len() == a.len() + b.len(),
    decreases a.len() + b.len(),
{
    broadcast use vstd::seq_lib::lemma_multiset_commutative;

    if a.len() == 0 {
        assert(a =~= Seq::empty());
        a.to_multiset_ensures();
        assert(a.to_multiset() =~= Multiset::empty()) by {
            assert(a.to_multiset().len() == 0);
        }
    } else if b.len() == 0 {
        b.to_multiset_ensures();
        assert(b.to_multiset() =~= Multiset::empty()) by {
            assert(b.to_multiset().len() == 0);
        }
    } else if a[0].timestamp <= b[0].timestamp {
        lemma_merged_keeps_events(a.drop_first(), b);
        assert(a =~= seq![a[0]] + a.drop_first());
        assert((seq![a[0]] + a.drop_first()).to_multiset() =~= seq![a[0]].to_multiset().add(
            a.drop_first().to_multiset(),
        ));
    } else {
        lemma_merged_keeps_events(a, b.drop_first());
        assert(b =~= seq![b[0]] + b.drop_first());
        assert((seq![b[0]] + b.drop_first()).to_multiset() =~= seq![b[0]].to_multiset().add(
            b.drop_first().to_multiset(),
        ));
    }
}

/// Where no event of `b` is earlier than any of `a`, the merge is `a`
/// followed by `b`: events at the same tick keep the order of their
/// timelines, those of `a` first.
pub proof fn lemma_merged_ties_keep_order(a: Seq<TimedEvent>, b: Seq<TimedEvent>)
    requires
        forall|i: int, j: int|
            0 <= i < a.len() && 0 <= j < b.len() ==> a[i].timestamp <= b[j].timestamp,
    ensures
        merged(a, b) == a + b,
    decreases a.len(),
{
    if a.len() == 0 {
        assert(a + b =~= b);
    } else if b.len() == 0 {
        assert(a + b =~= a);
    } else {
        let rest = a.drop_first();
        assert forall|i: int, j: int| 0 <= i < rest.len() && 0 <= j < b.len() implies rest[i].timestamp
            <= b[j].timestamp by {
            assert(rest[i] == a[i + 1]);
        }
        lemma_merged_ties_keep_order(rest, b);
        assert(seq![a[0]] + (rest + b) =~= a + b);
    }
}

/// No event of a merge is earlier than a bound that holds for both
/// timelines.
pub proof fn lemma_merged_not_before(a: Seq<TimedEvent>, b: Seq<TimedEvent>, t: u64)
    requires
        forall|i: int| 0 <= i < a.len() ==> t <= a[i].timestamp,
        forall|j: int| 0 <= j < b.len() ==> t <= b[j].timestamp,
    ensures
        forall|k: int| 0 <= k < merged(a, b).len() ==> t <= merged(a, b)[k].timestamp,
    decreases a.len() + b.len(),
{
    if a.len() == 0 || b.len() == 0 {
    } else if a[0].timestamp <= b[0].timestamp {
        lemma_merged_not_before(a.drop_first(), b, t);
    } else {
        lemma_merged_not_before(a, b.drop_first(), t);
    }
}

/// The merge of two ordered timelines is ordered.
pub proof fn lemma_merged_sorted(a: Seq<TimedEvent>, b: Seq<TimedEvent>)
    requires
        sorted(a),
        sorted(b),
    ensures
        sorted(merged(a, b)),
    decreases a.len() + b.len(),
{
    if a.len() == 0 || b.len() == 0 {
    } else if a[0].timestamp <= b[0].timestamp {
        let rest = a.drop_first();
        assert(sorted(rest)) by {
            assert forall|i: int, j: int| 0 <= i <= j < rest.len() implies rest[i].timestamp
                <= rest[j].timestamp by {
                assert(rest[i] == a[i + 1] && rest[j] == a[j + 1]);
            }
        }
        lemma_merged_sorted(rest, b);
        assert forall|i: int| 0 <= i < rest.len() implies a[0].timestamp
            <= rest[i].timestamp by {
            assert(rest[i] == a[i + 1]);
        }
        lemma_merged_not_before(rest, b, a[0].timestamp);
    } else {
        let rest = b.drop_first();
        assert(sorted(rest)) by {
            assert forall|i: int, j: int| 0 <= i <= j < rest.len() implies rest[i].timestamp
                <= rest[j].timestamp by {
                assert(rest[i] == b[i + 1] && rest[j] == b[j + 1]);
            }
        }
        lemma_merged_sorted(a, rest);
        assert forall|i: int| 0 <= i < rest.len() implies b[0].timestamp
            <= rest[i].timestamp by {
            assert(rest[i] == b[i + 1]);
        }
        lemma_merged_not_before(a, rest, b[0].timestamp);
    }
}

/// The number of events in the first `n` tracks.
pub open spec fn events_in(tracks: Seq<Vec<TrackEvent>>, n: int) -> int
    decreases n,
{
    if n <= 0 {
        0
    } else {
        events_in(tracks, n - 1) + tracks[n - 1]@.len()
    }
}

/// A song holds as many events as its tracks together.
pub proof fn lemma_song_length(tracks: Seq<Vec<TrackEvent>>, n: int)
    requires
        0 <= n <= tracks.len(),
    ensures
        song_of(tracks, n).len() == events_in(tracks, n),
    decreases n,
{
    if n > 0 {
        lemma_song_length(tracks, n - 1);
        lemma_merged_keeps_events(song_of(tracks, n - 1), timeline_of(tracks[n - 1]@));
    }
}

/// A song is ordered by timestamp.
pub proof fn lemma_song_sorted(tracks: Seq<Vec<TrackEvent>>, n: int)
    requires
        0 <= n <= tracks.len(),
        forall|t: int| 0 <= t < tracks.len() ==> (#[trigger] tracks[t]).len() <= u32::MAX,
    ensures
        sorted(song_of(tracks, n)),
    decreases n,
{
    if n > 0 {
        lemma_song_sorted(tracks, n - 1);
        lemma_timeline_sorted(tracks[n - 1]@);
        lemma_merged_sorted(song_of(tracks, n - 1), timeline_of(tracks[n - 1]@));
    }
}

/// Puts each event of a track at its absolute tick.
pub fn timeline(track: &Vec<TrackEvent>) -> (out: Vec<TimedEvent>)
    requires
        track.len() <= u32::MAX,
    ensures
        out@ == timeline_of(track@),
{
    let mut out: Vec<TimedEvent> = Vec::new();
    let mut cursor: u64 = 0;
    let mut i: usize = 0;
    while i < track.len()
        invariant
            track.len() <= u32::MAX,
            i <= track.len(),
            cursor == ticks_before(track@, i as int),
            out@.len() == i,
            forall|k: int| 0 <= k < i ==> out@[k] == timeline_of(track@)[k],
        decreases track.len() - i,
    {
        proof {
            lemma_ticks_bounded(track@, i + 1);
            assert((i + 1) * u32::MAX <= u32::MAX * u32::MAX) by (nonlinear_arith)
                requires
                    i + 1 <= u32::MAX,
            ;
        }
        let event = track[i];
        cursor = cursor + event.delta as u64;
        out.push(TimedEvent { timestamp: cursor, message: event.message });
        i = i + 1;
    }
    assert(out@ =~= timeline_of(track@));
    out
}

/// Merges two timelines: the earlier event first, and on a tie the one of
/// `a`.
pub fn merge(a: &Vec<TimedEvent>, b: &Vec<TimedEvent>) -> (out: Vec<TimedEvent>)
    ensures
        out@ == merged(a@, b@),
{
    let mut out: Vec<TimedEvent> = Vec::new();
    let mut i: usize = 0;
    let mut j: usize = 0;
    assert(a@.skip(0) =~= a@ && b@.skip(0) =~= b@);
    while i < a.len() || j < b.len()
        invariant
            i <= a.len(),
            j <= b.len(),
            out@ + merged(a@.skip(i as int), b@.skip(j as int)) == merged(a@, b@),
        decreases a.len() - i + b.len() - j,
    {
        let ghost left = a@.skip(i as int);
        let ghost right = b@.skip(j as int);
        let ghost before = out@;
        proof {
            lemma_merged_step(left, right);
        }
        let from_left: bool = if i >= a.len() {
            false
        } else if j >= b.len() {
            true
        } else {
            a[i].timestamp <= b[j].timestamp
        };
        if from_left {
            out.push(a[i]);
            i = i + 1;
            proof {
                assert(left.drop_first() =~= a@.skip(i as int));
                assert(out@ =~= before + seq![left[0]]);
                assert(before + (seq![left[0]] + merged(left.drop_first(), right)) =~= (before
                    + seq![left[0]]) + merged(left.drop_first(), right));
            }
        } else {
            out.push(b[j]);
            j = j + 1;
            proof {
                assert(right.drop_first() =~= b@.skip(j as int));
                assert(out@ =~= before + seq![right[0]]);
                assert(before + (seq![right[0]] + merged(left, right.drop_first())) =~= (before
                    + seq![right[0]]) + merged(left, right.drop_first()));
            }
        }
    }
    assert(out@ + Seq::<TimedEvent>::empty() =~= out@);
    assert(a@.skip(i as int) =~= Seq::<TimedEvent>::empty());
    out
}

/// Merges all tracks into one song, ordered by absolute tick; events at the
/// same tick keep the order of their tracks and, within a track, the order
/// in which it holds them.
pub fn merge_tracks(tracks: &Vec<Vec<TrackEvent>>) -> (song: Vec<TimedEvent>)
    requires
        forall|t: int| 0 <= t < tracks.len() ==> (#[trigger] tracks[t]).len() <= u32::MAX,
    ensures
        song@ == song_of(tracks@, tracks.len() as int),
        sorted(song@),
{
    let mut song: Vec<TimedEvent> = Vec::new();
    let mut t: usize = 0;
    while t < tracks.len()
        invariant
            t <= tracks.len(),
            forall|u: int| 0 <= u < tracks.len() ==> (#[trigger] tracks[u]).len() <= u32::MAX,
            song@ == song_of(tracks@, t as int),
        decreases tracks.len() - t,
    {
        let line = timeline(&tracks[t]);
        song = merge(&song, &line);
        t = t + 1;
    }
    proof {
        lemma_song_sorted(tracks@, tracks.len() as int);
    }
    song
}

} // verus!
