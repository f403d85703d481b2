//! Turns a song into timed note triggers: how long to wait before each
//! event, at the tempo in force, and what to tell the instrument.

use crate::adsr::ADSREvent;
use crate::song::{
    merge_tracks, song_of, sorted, MidiMessage, TimedEvent, Timing, TrackEvent,
};
use vstd::prelude::*;

verus! {

/// Why a song cannot be scheduled.
#[derive(Debug, Clone, Copy, PartialEq, Eq, Structural)]
pub enum SchedulerError {
    /// The song counts time in timecode.
    UnsupportedTiming,
    /// The song has no tick in a beat, so no tick has a duration.
    ZeroTicksPerBeat,
    /// A track holds more than `u32::MAX` events.
    TrackTooLong,
}

/// What to tell the instrument.
#[derive(Debug, Clone, Copy, PartialEq, Eq, Structural)]
pub struct NoteAction {
    pub key: usize,
    pub event: ADSREvent,
}

/// What to do for one event of the song: wait, then act.
#[derive(Debug, Clone, Copy, PartialEq, Eq, Structural)]
pub struct Step {
    pub sleep_micros: u64,
    pub action: Option<NoteAction>,
}

/// A note-on with a velocity presses the key, a note-on without one and a
/// note-off release it, and nothing else reaches the instrument.
pub open spec fn action_of(message: MidiMessage) -> Option<NoteAction> {
    match message {
        MidiMessage::NoteOn { key, vel } => Some(
            NoteAction {
                key: key as usize,
                event: if vel == 0 {
                    ADSREvent::Release
                } else {
                    ADSREvent::Press(vel)
                },
            },
        ),
        MidiMessage::NoteOff { key } => Some(
            NoteAction { key: key as usize, event: ADSREvent::Release },
        ),
        _ => None,
    }
}

/// The tempo in force after a message: a tempo message sets it.
pub open spec fn tempo_after(tempo: u32, message: MidiMessage) -> u32 {
    match message {
        MidiMessage::Tempo(t) => t,
        _ => tempo,
    }
}

/// The whole microseconds that `delta` ticks last at `tempo` microseconds
/// per beat and `tpb` ticks per beat, capped at what a `u64` holds.
pub open spec fn delay_of(delta: int, tempo: int, tpb: int) -> int {
    let exact = (delta * tempo) / tpb;
    if exact > u64::MAX {
        u64::MAX as int
    } else {
        exact
    }
}

/// The scheduler as a mathematical value.
pub struct ClockState {
    pub tpb: int,
    /// Microseconds per beat; zero until the song sets a tempo.
    pub tempo: int,
    /// The tick of the event handled last.
    pub last: int,
}

impl ClockState {
    /// The state before a song's first event.
    pub open spec fn start(tpb: int) -> Self {
        ClockState { tpb, tempo: 0, last: 0 }
    }

    pub open spec fn wf(self) -> bool {
        &&& 0 < self.tpb <= u32::MAX
        &&& 0 <= self.tempo <= u32::MAX
        &&& 0 <= self.last <= u64::MAX
    }

    /// The step for `event`: the wait goes by the tempo in force before it.
    pub open spec fn step_of(self, event: TimedEvent) -> Step {
        Step {
            sleep_micros: delay_of(event.timestamp - self.last, self.tempo, self.tpb) as u64,
            action: action_of(event.message),
        }
    }

    /// The state after `event`.
    pub open spec fn next(self, event: TimedEvent) -> Self {
        ClockState {
            tpb: self.tpb,
            tempo: tempo_after(self.tempo as u32, event.message) as int,
            last: event.timestamp as int,
        }
    }

    /// The state after the first `n` events of `song`.
    pub open spec fn after(self, song: Seq<TimedEvent>, n: int) -> Self
        decreases n,
    {
        if n <= 0 {
            self
        } else {
            self.after(song, n - 1).next(song[n - 1])
        }
    }
}

/// The steps of a whole song from the state `start`.
pub open spec fn plan_of(start: ClockState, song: Seq<TimedEvent>) -> Seq<Step> {
    Seq::new(song.len(), |i: int| start.after(song, i).step_of(song[i]))
}

/// While a song is ordered, the scheduler's last tick is never ahead of the
/// next event.
pub proof fn lemma_clock_follows_song(start: ClockState, song: Seq<TimedEvent>, n: int)
    requires
        start.wf(),
        sorted(song),
        0 <= n <= song.len(),
        song.len() > 0 ==> start.last <= song[0].timestamp,
    ensures
        start.after(song, n).wf(),
        start.after(song, n).tpb == start.tpb,
        n < song.len() ==> start.after(song, n).last <= song[n].timestamp,
    decreases n,
{
    if n > 0 {
        lemma_clock_follows_song(start, song, n - 1);
    }
}

/// The wait between two events under one tempo is the exact number of whole
/// microseconds: a full beat of ticks lasts exactly the tempo.
pub proof fn lemma_beat_lasts_tempo(tempo: int, tpb: int)
    requires
        0 <= tempo <= u32::MAX,
        0 < tpb,
    ensures
        delay_of(tpb, tempo, tpb) == tempo,
        delay_of(0, tempo, tpb) == 0,
{
    assert((tpb * tempo) / tpb == tempo) by (nonlinear_arith)
        requires
            tpb > 0,
    ;
    assert((0 * tempo) / tpb == 0) by (nonlinear_arith)
        requires
            tpb > 0,
    ;
}

/// The ticks per beat of a song's header.
pub fn ticks_per_beat(timing: Timing) -> (r: Result<u32, SchedulerError>)
    ensures
        match r {
            Ok(tpb) => tpb > 0 && timing == Timing::Metrical(tpb as u16) && tpb <= u16::MAX,
            Err(SchedulerError::UnsupportedTiming) => timing is Timecode,
            Err(SchedulerError::ZeroTicksPerBeat) => timing == Timing::Metrical(0),
            Err(SchedulerError::TrackTooLong) => false,
        },
{
    match timing {
        Timing::Metrical(t) => {
            if t == 0 {
                Err(SchedulerError::ZeroTicksPerBeat)
            } else {
                Ok(t as u32)
            }
        },
        Timing::Timecode => Err(SchedulerError::UnsupportedTiming),
    }
}

/// Decides what an event means: the action for the instrument, if any, and
/// the tempo from here on.
pub fn process_event(message: MidiMessage, tempo: &mut u32) -> (action: Option<NoteAction>)
    ensures
        action == action_of(message),
        *final(tempo) == tempo_after(*old(tempo), message),
{
    match message {
        MidiMessage::NoteOn { key, vel } => {
            if vel == 0 {
                Some(NoteAction { key: key as usize, event: ADSREvent::Release })
            } else {
                Some(NoteAction { key: key as usize, event: ADSREvent::Press(vel) })
            }
        },
        MidiMessage::NoteOff { key } => Some(
            NoteAction { key: key as usize, event: ADSREvent::Release },
        ),
        MidiMessage::Tempo(t) => {
            *tempo = t;
            None
        },
        MidiMessage::Other => None,
    }
}

/// The microseconds to wait for `delta` ticks.
pub fn delay_micros(delta: u64, tempo: u32, tpb: u32) -> (d: u64)
    requires
        tpb > 0,
    ensures
        d == delay_of(delta as int, tempo as int, tpb as int),
{
    assert(delta * tempo <= 0xffff_ffff_ffff_ffff * 0xffff_ffff) by (nonlinear_arith)
        requires
            0 <= delta <= 0xffff_ffff_ffff_ffff,
            0 <= tempo <= 0xffff_ffff,
    ;
    let ticks: u128 = delta as u128;
    let exact: u128 = ticks * (tempo as u128) / (tpb as u128);
    if exact > u64::MAX as u128 {
        u64::MAX
    } else {
        exact as u64
    }
}

/// Replays a song: remembers the tempo and the tick of the last event.
pub struct Scheduler {
    tpb: u32,
    tempo: u32,
    last: u64,
}

impl View for Scheduler {
    type V = ClockState;

    closed spec fn view(&self) -> ClockState {
        ClockState { tpb: self.tpb as int, tempo: self.tempo as int, last: self.last as int }
    }
}

impl Scheduler {
    pub open spec fn wf(&self) -> bool {
        self@.wf()
    }

    /// A scheduler for a song with this timing, before its first event and
    /// with no tempo set.
    pub fn new(timing: Timing) -> (r: Result<Self, SchedulerError>)
        ensures
            match r {
                Ok(s) => {
                    &&& timing matches Timing::Metrical(t)
                    &&& t > 0
                    &&& s@ == ClockState::start(t as int)
                    &&& s.wf()
                },
                Err(SchedulerError::UnsupportedTiming) => timing is Timecode,
                Err(SchedulerError::ZeroTicksPerBeat) => timing == Timing::Metrical(0),
                Err(SchedulerError::TrackTooLong) => false,
            },
    {
        match ticks_per_beat(timing) {
            Ok(tpb) => Ok(Self { tpb, tempo: 0, last: 0 }),
            Err(e) => Err(e),
        }
    }

    /// The microseconds per beat in force; zero until the song sets a tempo.
    pub fn tempo(&self) -> (t: u32)
        ensures
            t == self@.tempo,
    {
        self.tempo
    }

    /// The tick of the event handled last.
    pub fn last_timestamp(&self) -> (t: u64)
        ensures
            t == self@.last,
    {
        self.last
    }

    /// Handles the next event of the song: how long to wait since the last
    /// one, at the tempo in force before this event, and what to do then.
    pub fn step(&mut self, event: &TimedEvent) -> (s: Step)
        requires
            old(self).wf(),
            old(self)@.last <= event.timestamp,
        ensures
            final(self).wf(),
            s == old(self)@.step_of(*event),
            final(self)@ == old(self)@.next(*event),
    {
        let delta: u64 = event.timestamp - self.last;
        let sleep_micros: u64 = delay_micros(delta, self.tempo, self.tpb);
        let mut tempo: u32 = self.tempo;
        let action = process_event(event.message, &mut tempo);
        self.tempo = tempo;
        self.last = event.timestamp;
        Step { sleep_micros, action }
    }
}

/// The steps of an ordered song: for each event the wait since the one
/// before, then its action.
pub fn plan(song: &Vec<TimedEvent>, timing: Timing) -> (r: Result<Vec<Step>, SchedulerError>)
    requires
        sorted(song@),
    ensures
        match r {
            Ok(steps) => {
                &&& timing matches Timing::Metrical(t)
                &&& t > 0
                &&& steps@ == plan_of(ClockState::start(t as int), song@)
            },
            Err(SchedulerError::UnsupportedTiming) => timing is Timecode,
            Err(SchedulerError::ZeroTicksPerBeat) => timing == Timing::Metrical(0),
            Err(SchedulerError::TrackTooLong) => false,
        },
{
    let mut clock = match Scheduler::new(timing) {
        Ok(clock) => clock,
        Err(e) => {
            return Err(e);
        },
    };
    let ghost start = clock@;
    let mut steps: Vec<Step> = Vec::new();
    let mut i: usize = 0;
    while i < song.len()
        invariant
            i <= song.len(),
            sorted(song@),
            start.wf(),
            start.last == 0,
            clock.wf(),
            clock@ == start.after(song@, i as int),
            steps@.len() == i,
            forall|k: int| 0 <= k < i ==> steps@[k] == plan_of(start, song@)[k],
        decreases song.len() - i,
    {
        proof {
            lemma_clock_follows_song(start, song@, i as int);
        }
        let step = clock.step(&song[i]);
        steps.push(step);
        i = i + 1;
    }
    assert(steps@ =~= plan_of(start, song@));
    Ok(steps)
}

/// No track holds more events than its timeline can count.
pub open spec fn tracks_fit(tracks: Seq<Vec<TrackEvent>>) -> bool {
    forall|t: int| 0 <= t < tracks.len() ==> (#[trigger] tracks[t]).len() <= u32::MAX
}

/// Whether every track is short enough for its timeline.
pub fn check_tracks(tracks: &Vec<Vec<TrackEvent>>) -> (fit: bool)
    ensures
        fit == tracks_fit(tracks@),
{
    let mut t: usize = 0;
    while t < tracks.len()
        invariant
            t <= tracks.len(),
            forall|u: int| 0 <= u < t ==> (#[trigger] tracks[u]).len() <= u32::MAX,
        decreases tracks.len() - t,
    {
        if tracks[t].len() > u32::MAX as usize {
            return false;
        }
        t = t + 1;
    }
    true
}

/// Merges the tracks of a song and plans its replay: for each event of the
/// merged song, in order, the wait and the action. A song in timecode, one
/// without a tick in its beat, and one with a track too long to count are
/// refused, in this order.
pub fn schedule(tracks: &Vec<Vec<TrackEvent>>, timing: Timing) -> (r: Result<
    Vec<Step>,
    SchedulerError,
>)
    ensures
        match r {
            Ok(steps) => {
                &&& timing matches Timing::Metrical(t)
                &&& t > 0
                &&& tracks_fit(tracks@)
                &&& steps@ == plan_of(
                    ClockState::start(t as int),
                    song_of(tracks@, tracks.len() as int),
                )
            },
            Err(SchedulerError::UnsupportedTiming) => timing is Timecode,
            Err(SchedulerError::ZeroTicksPerBeat) => timing == Timing::Metrical(0),
            Err(SchedulerError::TrackTooLong) => {
                &&& timing matches Timing::Metrical(t)
                &&& t > 0
                &&& !tracks_fit(tracks@)
            },
        },
{
    match ticks_per_beat(timing) {
        Ok(_) => {},
        Err(e) => {
            return Err(e);
        },
    }
    if !check_tracks(tracks) {
        return Err(SchedulerError::TrackTooLong);
    }
    let song = merge_tracks(tracks);
    plan(&song, timing)
}

} // verus!
