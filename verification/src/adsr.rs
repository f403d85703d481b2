//! Note events, the trigger word that carries them across threads, and the
//! ADSR envelope that consumes them.

use crate::wave::Wave;
use std::sync::atomic::AtomicU32;
use std::sync::Arc;
use vstd::prelude::*;

verus! {

/// Bit that marks a trigger word as carrying a message.
pub const NEW_MSG: u32 = 0x80;

/// Bits of a trigger word that carry the velocity.
pub const VEL_MASK: u32 = 0x7F;

/// What a key can tell its envelope.
#[derive(Debug, Clone, Copy, PartialEq, Eq, Structural)]
pub enum ADSREvent {
    /// Velocity is a value between 0 and 127
    Press(u8),
    Release,
}

/// The trigger word that stands for an event.
pub open spec fn message_of(e: ADSREvent) -> u32 {
    match e {
        ADSREvent::Press(vel) => NEW_MSG | (vel as u32),
        ADSREvent::Release => NEW_MSG,
    }
}

/// The event that a trigger word stands for; the word 0 carries none.
/// A word whose velocity bits are all clear reads as a release.
pub open spec fn event_of(msg: u32) -> Option<ADSREvent> {
    if msg == 0 {
        None
    } else if msg & VEL_MASK == 0 {
        Some(ADSREvent::Release)
    } else {
        Some(ADSREvent::Press((msg & VEL_MASK) as u8))
    }
}

/// Encodes an event as a trigger word.
pub fn encode_event(e: ADSREvent) -> (msg: u32)
    ensures
        msg == message_of(e),
        msg != 0,
{
    match e {
        ADSREvent::Press(vel) => {
            let v: u32 = vel as u32;
            assert(NEW_MSG | v != 0) by (bit_vector);
            NEW_MSG | v
        },
        ADSREvent::Release => NEW_MSG,
    }
}

/// Decodes a trigger word.
pub fn decode_event(msg: u32) -> (e: Option<ADSREvent>)
    ensures
        e == event_of(msg),
        e matches Some(ADSREvent::Press(vel)) ==> 1 <= vel <= 127,
{
    if msg == 0 {
        return None;
    }
    let vel: u32 = msg & VEL_MASK;
    assert(msg & VEL_MASK <= 127) by (bit_vector);
    if vel == 0 {
        Some(ADSREvent::Release)
    } else {
        Some(ADSREvent::Press(vel as u8))
    }
}

/// A press with a velocity from 1 to 127 and a release both survive the trip
/// through a trigger word. A press with velocity 0 arrives as a release.
pub proof fn lemma_event_round_trip(e: ADSREvent)
    requires
        e matches ADSREvent::Press(vel) ==> vel <= 127,
    ensures
        e matches ADSREvent::Press(vel) ==> (vel >= 1 ==> event_of(message_of(e)) == Some(e)),
        e matches ADSREvent::Press(vel) ==> (vel == 0 ==> event_of(message_of(e)) == Some(
            ADSREvent::Release,
        )),
        e is Release ==> event_of(message_of(e)) == Some(e),
{
    match e {
        ADSREvent::Press(vel) => {
            let v: u32 = vel as u32;
            assert(v <= 127 ==> (NEW_MSG | v) != 0 && (NEW_MSG | v) & VEL_MASK == v) by (bit_vector);
        },
        ADSREvent::Release => {
            assert(NEW_MSG & VEL_MASK == 0) by (bit_vector);
        },
    }
}

/// The sending half of an envelope's trigger word.
pub struct Trigger {
    _trigger: Arc<AtomicU32>,
}

impl Trigger {
    /// The shared word that this trigger writes.
    pub closed spec fn cell(&self) -> Arc<AtomicU32> {
        self._trigger
    }

    pub fn new(trigger: Arc<AtomicU32>) -> (t: Self)
        ensures
            t.cell() == trigger,
    {
        Self { _trigger: trigger }
    }

    /// Posts `e`: the shared word becomes `message_of(e)`, replacing whatever
    /// was posted and not yet read.
    pub fn trigger(&self, e: ADSREvent) {
        let msg: u32 = encode_event(e);
        self._trigger.store(msg, std::sync::atomic::Ordering::Relaxed);
    }
}

/// One, in the scale in which a sustain level is given.
pub const SUSTAIN_ONE: u32 = 65536;

/// Full velocity: the denominator of the velocity-derived level.
pub const FULL_VELOCITY: u64 = 127;

/// An exact non-negative fraction `num / den`, with `den > 0`.
#[derive(Debug, Clone, Copy, PartialEq, Eq, Structural)]
pub struct Level {
    pub num: u64,
    pub den: u64,
}

impl View for Level {
    type V = (int, int);

    open spec fn view(&self) -> (int, int) {
        (self.num as int, self.den as int)
    }
}

/// Why an envelope was refused at construction.
#[derive(Debug, Clone, Copy, PartialEq, Eq, Structural)]
pub enum EnvelopeError {
    /// The attack lasts no sample, so its ramp would divide by zero.
    ZeroAttack,
    /// The decay lasts no sample.
    ZeroDecay,
    /// The release lasts no sample.
    ZeroRelease,
    /// The sustain level is above `SUSTAIN_ONE`.
    SustainAboveOne,
}

/// The envelope as a mathematical value. Durations and the phase are counted
/// in samples, the sustain level in units of `1 / SUSTAIN_ONE`, the level in
/// units of `1 / 127`.
pub struct EnvelopeState {
    pub attack: int,
    pub decay: int,
    pub sustain: int,
    pub release: int,
    pub phase: int,
    pub level: int,
    pub hold: bool,
}

impl EnvelopeState {
    /// The phase at which the decay ends.
    pub open spec fn knee(self) -> int {
        self.attack + self.decay
    }

    /// The phase at which the release has run out.
    pub open spec fn total(self) -> int {
        self.attack + self.decay + self.release
    }

    pub open spec fn wf(self) -> bool {
        &&& 0 < self.attack <= u32::MAX
        &&& 0 < self.decay <= u32::MAX
        &&& 0 < self.release <= u32::MAX
        &&& 0 <= self.sustain <= SUSTAIN_ONE
        &&& 0 <= self.level <= 127
        &&& 0 <= self.phase <= self.total()
        &&& self.hold ==> self.phase <= self.knee()
    }

    /// Released and run out: the envelope is silent and stands still.
    pub open spec fn idle(self) -> bool {
        self.phase >= self.total()
    }

    /// Held at the end of the decay: the phase is frozen.
    pub open spec fn sustaining(self) -> bool {
        self.hold && self.knee() <= self.phase < self.total()
    }

    /// The phase from which a new attack continues at the level that the
    /// release ramp has now: the largest `q` with
    /// `q / attack <= sustain * (total - phase) / (SUSTAIN_ONE * release)`.
    pub open spec fn rejoin_phase(self) -> int {
        (self.attack * self.sustain * (self.total() - self.phase)) / (SUSTAIN_ONE * self.release)
    }

    /// The state after a press with velocity `vel`.
    pub open spec fn pressed(self, vel: int) -> Self {
        EnvelopeState {
            phase: if self.knee() <= self.phase < self.total() {
                self.rejoin_phase()
            } else {
                0
            },
            level: vel,
            hold: true,
            ..self
        }
    }

    /// The state after a release: the phase is kept.
    pub open spec fn let_go(self) -> Self {
        EnvelopeState { hold: false, ..self }
    }

    /// The state after the trigger word `msg` was read.
    pub open spec fn handle(self, msg: u32) -> Self {
        match event_of(msg) {
            None => self,
            Some(ADSREvent::Release) => self.let_go(),
            Some(ADSREvent::Press(vel)) => self.pressed(vel as int),
        }
    }

    /// The state after one tick without a message: the phase moves on by one
    /// sample unless the envelope is idle or sustaining.
    pub open spec fn advance(self) -> Self {
        if self.idle() || self.sustaining() {
            self
        } else {
            EnvelopeState { phase: self.phase + 1, ..self }
        }
    }

    /// The unscaled envelope value at the current phase, as numerator and
    /// denominator.
    pub open spec fn ramp(self) -> (int, int) {
        if self.phase < self.attack {
            (self.phase, self.attack)
        } else if self.phase < self.knee() {
            (
                self.decay * SUSTAIN_ONE - (self.phase - self.attack) * (SUSTAIN_ONE
                    - self.sustain),
                self.decay * SUSTAIN_ONE,
            )
        } else if self.hold {
            (self.sustain, SUSTAIN_ONE as int)
        } else {
            (self.sustain * (self.total() - self.phase), SUSTAIN_ONE * self.release)
        }
    }

    /// What one tick from this state emits: zero when idle, else the ramp at
    /// the advanced phase times `level / 127`.
    pub open spec fn emitted(self) -> (int, int) {
        if self.idle() {
            (0, 1)
        } else {
            let r = self.advance().ramp();
            (self.level * r.0, FULL_VELOCITY * r.1)
        }
    }

    /// The state after `n` ticks without a message.
    pub open spec fn after_ticks(self, n: nat) -> Self
        decreases n,
    {
        if n == 0 {
            self
        } else {
            self.advance().after_ticks((n - 1) as nat)
        }
    }
}

/// Attack-decay-sustain-release envelope, driven by a shared trigger word.
pub struct ADSR {
    attack: u32,
    decay: u32,
    sustain: u32,
    release: u32,
    phase: u64,
    level: u8,
    hold: bool,
    trigger: Arc<AtomicU32>,
}

impl View for ADSR {
    type V = EnvelopeState;

    closed spec fn view(&self) -> EnvelopeState {
        EnvelopeState {
            attack: self.attack as int,
            decay: self.decay as int,
            sustain: self.sustain as int,
            release: self.release as int,
            phase: self.phase as int,
            level: self.level as int,
            hold: self.hold,
        }
    }
}

impl ADSR {
    /// The shared word that this envelope reads.
    pub closed spec fn cell(&self) -> Arc<AtomicU32> {
        self.trigger
    }

    pub open spec fn wf(&self) -> bool {
        self@.wf()
    }

    /// Builds an idle envelope and the trigger that drives it. Durations are
    /// in samples, `sustain` in units of `1 / SUSTAIN_ONE`. A duration of
    /// zero or a sustain level above one is refused.
    pub fn new(attack: u32, decay: u32, sustain: u32, release: u32) -> (r: Result<
        (Self, Trigger),
        EnvelopeError,
    >)
        ensures
            match r {
                Ok((adsr, trigger)) => {
                    &&& attack > 0 && decay > 0 && release > 0 && sustain <= SUSTAIN_ONE
                    &&& adsr.wf()
                    &&& adsr@ == (EnvelopeState {
                        attack: attack as int,
                        decay: decay as int,
                        sustain: sustain as int,
                        release: release as int,
                        phase: attack + decay + release,
                        level: 0,
                        hold: false,
                    })
                    &&& adsr@.idle()
                    &&& trigger.cell() == adsr.cell()
                },
                Err(EnvelopeError::ZeroAttack) => attack == 0,
                Err(EnvelopeError::ZeroDecay) => attack > 0 && decay == 0,
                Err(EnvelopeError::ZeroRelease) => attack > 0 && decay > 0 && release == 0,
                Err(EnvelopeError::SustainAboveOne) => attack > 0 && decay > 0 && release > 0
                    && sustain > SUSTAIN_ONE,
            },
    {
        if attack == 0 {
            return Err(EnvelopeError::ZeroAttack);
        }
        if decay == 0 {
            return Err(EnvelopeError::ZeroDecay);
        }
        if release == 0 {
            return Err(EnvelopeError::ZeroRelease);
        }
        if sustain > SUSTAIN_ONE {
            return Err(EnvelopeError::SustainAboveOne);
        }
        let trigger = Arc::new(AtomicU32::new(0));
        let handle = Trigger::new(trigger.clone());
        let phase: u64 = attack as u64 + decay as u64 + release as u64;
        Ok((Self { attack, decay, sustain, release, phase, level: 0, hold: false, trigger }, handle))
    }

    /// The attack, in samples.
    pub fn attack(&self) -> (t: u32)
        ensures
            t == self@.attack,
    {
        self.attack
    }

    /// The decay, in samples.
    pub fn decay(&self) -> (t: u32)
        ensures
            t == self@.decay,
    {
        self.decay
    }

    /// The sustain level, in units of `1 / SUSTAIN_ONE`.
    pub fn sustain(&self) -> (level: u32)
        ensures
            level == self@.sustain,
    {
        self.sustain
    }

    /// The release, in samples.
    pub fn release(&self) -> (t: u32)
        ensures
            t == self@.release,
    {
        self.release
    }

    /// Applies the trigger word `msg`. A press restarts the attack, from the
    /// level that the release has reached if it is still running, and takes
    /// the velocity as the new level; a release lets go and keeps the phase.
    pub fn apply_msg(&mut self, msg: u32)
        requires
            old(self).wf(),
        ensures
            final(self).wf(),
            final(self)@ == old(self)@.handle(msg),
            final(self).cell() == old(self).cell(),
    {
        match decode_event(msg) {
            None => {},
            Some(ADSREvent::Release) => {
                self.hold = false;
            },
            Some(ADSREvent::Press(vel)) => {
                let knee: u64 = self.attack as u64 + self.decay as u64;
                let total: u64 = knee + self.release as u64;
                if self.phase >= knee && self.phase < total {
                    let rest: u128 = (total - self.phase) as u128;
                    let a: u128 = self.attack as u128;
                    let s: u128 = self.sustain as u128;
                    let den: u128 = SUSTAIN_ONE as u128 * self.release as u128;
                    assert(a * s <= 0xffff_ffff * 0x1_0000) by (nonlinear_arith)
                        requires
                            a <= 0xffff_ffff,
                            s <= 0x1_0000,
                    ;
                    assert(a * s * rest <= 0xffff_ffff * 0x1_0000 * 0xffff_ffff)
                        by (nonlinear_arith)
                        requires
                            a * s <= 0xffff_ffff * 0x1_0000,
                            rest <= 0xffff_ffff,
                    ;
                    let num: u128 = a * s * rest;
                    assert(num <= a * den) by (nonlinear_arith)
                        requires
                            num == a * s * rest,
                            den == 0x1_0000 * (self.release as int),
                            s <= 0x1_0000,
                            rest <= self.release,
                            0 <= a,
                    ;
                    assert(num / den <= a) by (nonlinear_arith)
                        requires
                            num <= a * den,
                            den > 0,
                    ;
                    self.phase = (num / den) as u64;
                } else {
                    self.phase = 0;
                }
                self.level = vel;
                self.hold = true;
            },
        }
    }

    /// Takes the pending trigger word, if any, and applies it.
    pub fn handle_msg(&mut self)
        requires
            old(self).wf(),
        ensures
            final(self).wf(),
            exists|msg: u32| final(self)@ == #[trigger] old(self)@.handle(msg),
            final(self).cell() == old(self).cell(),
    {
        let msg: u32 = take_word(&self.trigger);
        self.apply_msg(msg);
    }

    /// One tick without looking at the trigger word: emits the level and
    /// moves the phase on.
    pub fn tick(&mut self) -> (out: Level)
        requires
            old(self).wf(),
        ensures
            final(self).wf(),
            final(self)@ == old(self)@.advance(),
            out@ == old(self)@.emitted(),
            out.den > 0,
            out.num <= out.den,
            final(self).cell() == old(self).cell(),
    {
        let attack: u64 = self.attack as u64;
        let decay: u64 = self.decay as u64;
        let release: u64 = self.release as u64;
        let sustain: u64 = self.sustain as u64;
        let level: u64 = self.level as u64;
        let one: u64 = SUSTAIN_ONE as u64;
        let knee: u64 = attack + decay;
        let total: u64 = knee + release;
        if self.phase >= total {
            return Level { num: 0, den: 1 };
        }
        if !(self.hold && self.phase >= knee) {
            self.phase = self.phase + 1;
        }
        let p: u64 = self.phase;
        if p < attack {
            assert(level * p <= 127 * attack && 127 * attack <= 127 * 0xffff_ffff)
                by (nonlinear_arith)
                requires
                    level <= 127,
                    p < attack,
                    attack <= 0xffff_ffff,
            ;
            Level { num: level * p, den: FULL_VELOCITY * attack }
        } else if p < knee {
            let gone: u64 = p - attack;
            let gap: u64 = one - sustain;
            assert(gone * gap <= decay * one && decay * one <= 0xffff_ffff * 0x1_0000)
                by (nonlinear_arith)
                requires
                    gone <= decay,
                    gap <= one,
                    one == 0x1_0000,
                    decay <= 0xffff_ffff,
            ;
            let span: u64 = decay * one;
            let up: u64 = span - gone * gap;
            assert(level * up <= 127 * span && 127 * span <= 127 * (0xffff_ffff * 0x1_0000))
                by (nonlinear_arith)
                requires
                    level <= 127,
                    up <= span,
                    span <= 0xffff_ffff * 0x1_0000,
            ;
            Level { num: level * up, den: FULL_VELOCITY * span }
        } else if self.hold {
            assert(level * sustain <= 127 * one) by (nonlinear_arith)
                requires
                    level <= 127,
                    sustain <= one,
            ;
            Level { num: level * sustain, den: FULL_VELOCITY * one }
        } else {
            let rest: u64 = total - p;
            assert(sustain * rest <= one * release && one * release <= 0x1_0000 * 0xffff_ffff)
                by (nonlinear_arith)
                requires
                    sustain <= one,
                    rest <= release,
                    one == 0x1_0000,
                    release <= 0xffff_ffff,
            ;
            let span: u64 = one * release;
            let up: u64 = sustain * rest;
            assert(level * up <= 127 * span && 127 * span <= 127 * (0x1_0000 * 0xffff_ffff))
                by (nonlinear_arith)
                requires
                    level <= 127,
                    up <= span,
                    span <= 0x1_0000 * 0xffff_ffff,
            ;
            Level { num: level * up, den: FULL_VELOCITY * span }
        }
    }

    /// One tick of the envelope: reads the trigger word, then emits the
    /// level as `tick` does.
    pub fn next_sample(&mut self) -> (out: Level)
        requires
            old(self).wf(),
        ensures
            final(self).wf(),
            exists|msg: u32|
                {
                    &&& final(self)@ == (#[trigger] old(self)@.handle(msg)).advance()
                    &&& out@ == old(self)@.handle(msg).emitted()
                },
            out.den > 0,
            out.num <= out.den,
            final(self).cell() == old(self).cell(),
    {
        let msg: u32 = take_word(&self.trigger);
        self.apply_msg(msg);
        self.tick()
    }
}

impl Wave<Level> for ADSR {
    open spec fn wf(&self) -> bool {
        self@.wf()
    }

    /// A tick reads some trigger word, handles it, emits and advances; the
    /// envelope keeps listening to the same word.
    open spec fn yields(&self, out: Level, next: Self) -> bool {
        &&& next.cell() == self.cell()
        &&& exists|msg: u32|
            {
                &&& next@ == (#[trigger] self@.handle(msg)).advance()
                &&& out@ == self@.handle(msg).emitted()
            }
    }

    fn next_sample(&mut self) -> (out: Level) {
        ADSR::next_sample(self)
    }
}

/// Reads the pending word and leaves none behind. Whatever another thread
/// posted last comes back; nothing is known of it here.
fn take_word(cell: &Arc<AtomicU32>) -> u32 {
    cell.swap(0, std::sync::atomic::Ordering::Relaxed)
}

/// Quiet ticks move a released envelope's phase on by one sample each, until
/// the release has run out.
pub proof fn lemma_released_phase(s: EnvelopeState, n: nat)
    requires
        s.wf(),
        !s.hold,
        s.phase + n <= s.total(),
    ensures
        s.after_ticks(n) == (EnvelopeState { phase: s.phase + n, ..s }),
    decreases n,
{
    if n > 0 {
        lemma_released_phase(s.advance(), (n - 1) as nat);
    }
}

/// Quiet ticks move a held envelope's phase on by one sample each, until the
/// decay has ended.
pub proof fn lemma_held_phase(s: EnvelopeState, n: nat)
    requires
        s.wf(),
        s.hold,
        s.phase + n <= s.knee(),
    ensures
        s.after_ticks(n) == (EnvelopeState { phase: s.phase + n, ..s }),
    decreases n,
{
    if n > 0 {
        lemma_held_phase(s.advance(), (n - 1) as nat);
    }
}

/// An idle envelope is silent and stays idle: no number of ticks and no
/// trigger word but a press changes it, and every tick emits zero.
pub proof fn lemma_idle_is_silent(s: EnvelopeState, msg: u32, n: nat)
    requires
        s.wf(),
        s.idle(),
        !(event_of(msg) matches Some(ADSREvent::Press(_))),
    ensures
        s.handle(msg) == s,
        s.after_ticks(n) == s,
        s.after_ticks(n).emitted() == (0int, 1int),
        s.handle(msg).advance() == s,
        s.handle(msg).emitted() == (0int, 1int),
    decreases n,
{
    if n > 0 {
        lemma_idle_is_silent(s.advance(), msg, (n - 1) as nat);
    }
}

/// A press on an idle envelope starts the attack at phase zero, and from
/// there each tick emits more than the one before: tick `k` (counting from
/// zero) emits `vel * (k + 1) / (127 * attack)` while that phase lies within
/// the attack.
pub proof fn lemma_attack_rises(s: EnvelopeState, vel: int, k: nat)
    requires
        s.wf(),
        s.idle(),
        1 <= vel <= 127,
        k + 1 < s.attack,
    ensures
        s.pressed(vel) == (EnvelopeState { phase: 0, level: vel, hold: true, ..s }),
        s.pressed(vel).after_ticks(k).emitted() == (vel * (k + 1), FULL_VELOCITY * s.attack),
        k + 2 < s.attack ==> {
            let now = s.pressed(vel).after_ticks(k).emitted();
            let next = s.pressed(vel).after_ticks(k + 1).emitted();
            now.1 == next.1 && now.0 < next.0
        },
{
    let p = s.pressed(vel);
    lemma_held_phase(p, k);
    if k + 2 < s.attack {
        lemma_held_phase(p, k + 1);
        assert(vel * (k + 1) < vel * (k + 2)) by (nonlinear_arith)
            requires
                vel >= 1,
        ;
    }
}

/// A release during sustain lets the level fall to zero over exactly
/// `release` ticks: tick `k` (counting from zero) emits
/// `level * sustain * (release - (k + 1)) / (127 * SUSTAIN_ONE * release)`,
/// each tick less than the one before where level and sustain are not zero,
/// the last of them zero, and after it the envelope is idle.
pub proof fn lemma_release_falls(s: EnvelopeState, k: nat)
    requires
        s.wf(),
        s.sustaining(),
        k < s.release,
    ensures
        s.emitted() == (s.level * s.sustain, FULL_VELOCITY * SUSTAIN_ONE),
        s.let_go().after_ticks(k).emitted() == (
            s.level * (s.sustain * (s.release - (k + 1))),
            FULL_VELOCITY * (SUSTAIN_ONE * s.release),
        ),
        k + 1 < s.release && s.level > 0 && s.sustain > 0 ==> {
            let now = s.let_go().after_ticks(k).emitted();
            let next = s.let_go().after_ticks(k + 1).emitted();
            now.1 == next.1 && next.0 < now.0
        },
        s.let_go().after_ticks((s.release - 1) as nat).emitted().0 == 0,
        s.let_go().after_ticks(s.release as nat).idle(),
{
    let r = s.let_go();
    lemma_released_phase(r, k);
    lemma_released_phase(r, (s.release - 1) as nat);
    lemma_released_phase(r, s.release as nat);
    assert(s.level * (s.sustain * 0) == 0) by (nonlinear_arith);
    if k + 1 < s.release {
        lemma_released_phase(r, k + 1);
        if s.level > 0 && s.sustain > 0 {
            assert(s.level * (s.sustain * (s.release - (k + 2))) < s.level * (s.sustain * (
                s.release - (k + 1)))) by (nonlinear_arith)
                requires
                    s.level > 0,
                    s.sustain > 0,
            ;
        }
    }
}

/// A press while the release is still running rejoins the attack ramp at the
/// level that the release had reached: the new phase `q` is the largest with
/// `q / attack <= sustain * (total - phase) / (SUSTAIN_ONE * release)`.
pub proof fn lemma_press_rejoins_level(s: EnvelopeState, vel: int)
    requires
        s.wf(),
        s.knee() <= s.phase < s.total(),
        0 <= vel <= 127,
    ensures
        s.pressed(vel).wf(),
        s.pressed(vel).phase * (SUSTAIN_ONE * s.release) <= s.attack * s.sustain * (s.total()
            - s.phase),
        s.attack * s.sustain * (s.total() - s.phase) < (s.pressed(vel).phase + 1) * (SUSTAIN_ONE
            * s.release),
        s.pressed(vel).phase <= s.attack,
{
    let num = s.attack * s.sustain * (s.total() - s.phase);
    let den = SUSTAIN_ONE * s.release;
    let q = num / den;
    assert(0 <= num && num <= s.attack * den) by (nonlinear_arith)
        requires
            num == s.attack * s.sustain * (s.total() - s.phase),
            den == SUSTAIN_ONE * s.release,
            0 <= s.sustain <= SUSTAIN_ONE,
            0 < s.total() - s.phase <= s.release,
            0 < s.attack,
    ;
    assert(q * den <= num && num < (q + 1) * den && 0 <= q && q <= s.attack) by (nonlinear_arith)
        requires
            q == num / den,
            den > 0,
            0 <= num,
            num <= s.attack * den,
    ;
}

} // verus!
