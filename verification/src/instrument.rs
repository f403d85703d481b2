//! The polyphonic voice map: one voice per key, made on the key's first
//! event and kept from then on.

use crate::adsr::{ADSREvent, Trigger};
use std::collections::HashMap;
use vstd::prelude::*;

verus! {

broadcast use vstd::std_specs::hash::group_hash_axioms;

/// Voices by key. A voice is whatever `source` makes for a key, together
/// with the trigger of its envelope.
pub struct PolyInstrument<V, F> {
    pub source: F,
    pub keymap: HashMap<usize, (V, Trigger)>,
}

impl<V, F: Fn(usize) -> (V, Trigger)> PolyInstrument<V, F> {
    /// The voices that exist, by key.
    pub open spec fn voices(&self) -> Map<usize, (V, Trigger)> {
        self.keymap@
    }

    /// The source can be asked for a voice for every key.
    pub open spec fn wf(&self) -> bool {
        forall|key: usize| call_requires(self.source, (key,))
    }

    /// An instrument without voices.
    pub fn new(source: F) -> (inst: Self)
        requires
            forall|key: usize| call_requires(source, (key,)),
        ensures
            inst.wf(),
            inst.source == source,
            inst.voices() == Map::<usize, (V, Trigger)>::empty(),
    {
        Self { source, keymap: HashMap::new() }
    }

    /// The number of voices.
    pub fn voice_count(&self) -> (n: usize)
        ensures
            n == self.voices().len(),
    {
        self.keymap.len()
    }

    /// Whether `key` has a voice.
    pub fn has_voice(&self, key: usize) -> (b: bool)
        ensures
            b == self.voices().contains_key(key),
    {
        self.keymap.contains_key(&key)
    }

    /// Sends `e` to the voice of `key`. A key without a voice gets one from
    /// the source first; a key with a voice keeps it, and so does every
    /// other key: at most one voice is added, and none for a key that has
    /// one.
    pub fn play(&mut self, key: usize, e: ADSREvent)
        requires
            old(self).wf(),
        ensures
            final(self).wf(),
            final(self).source == old(self).source,
            final(self).voices().dom() == old(self).voices().dom().insert(key),
            forall|k: usize| #[trigger]
                old(self).voices().contains_key(k) ==> final(self).voices()[k] == old(
                    self,
                ).voices()[k],
            old(self).voices().contains_key(key) ==> final(self).voices() == old(self).voices(),
            !old(self).voices().contains_key(key) ==> call_ensures(
                old(self).source,
                (key,),
                final(self).voices()[key],
            ),
            final(self).voices().len() <= old(self).voices().len() + 1,
    {
        match self.keymap.get(&key) {
            Some(voice) => {
                voice.1.trigger(e);
                assert(self.voices().dom() =~= old(self).voices().dom().insert(key));
            },
            None => {
                let voice = (self.source)(key);
                voice.1.trigger(e);
                self.keymap.insert(key, voice);
                assert(self.voices().dom() =~= old(self).voices().dom().insert(key));
            },
        }
    }
}

} // verus!
