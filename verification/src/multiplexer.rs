//! The engine: the wavetable, the map from effects to wavetable entries, and
//! the pool of voices that mixes what plays into the output.

use vstd::prelude::*;
use std::collections::HashMap;
use vstd::std_specs::ops::AddSpec;
use core::ops::Add;
use crate::effect::SoundEffect;
use crate::mix::{mix_segment, silence_all};
use crate::pool::Pool;
use crate::signal::Signal;
use crate::slots::SlotSet;
use crate::voice::Voice;

verus! {

broadcast use vstd::std_specs::hash::group_hash_axioms;

/// The map from effects to wavetable entries that a map from codes stands for.
spec fn effects_of(codes: Map<u128, usize>) -> Map<SoundEffect, usize> {
    Map::new(
        |effect: SoundEffect| codes.contains_key(effect.code_of()),
        |effect: SoundEffect| codes[effect.code_of()],
    )
}

/// Whether frame `frame` of a pull of `frames` frames lies past what each of
/// the voices in `slots` gives.
spec fn past_all(voices: Seq<Voice>, slots: Seq<usize>, frames: usize, frame: int) -> bool {
    forall|m: int|
        0 <= m < slots.len() ==> voices[(#[trigger] slots[m]) as int].window(frames) <= frame
}

/// The effects that a wavetable names, entry by entry.
pub open spec fn names_of<S>(table: Seq<(SoundEffect, Seq<[S; 2]>)>) -> Seq<SoundEffect> {
    table.map_values(|entry: (SoundEffect, Seq<[S; 2]>)| entry.0)
}

/// The signals of a wavetable, entry by entry.
pub open spec fn signals_of<S>(table: Seq<(SoundEffect, Seq<[S; 2]>)>) -> Seq<Seq<[S; 2]>> {
    table.map_values(|entry: (SoundEffect, Seq<[S; 2]>)| entry.1)
}

/// The lengths of the signals of a wavetable, entry by entry.
pub open spec fn lengths_of<S>(table: Seq<(SoundEffect, Seq<[S; 2]>)>) -> Seq<usize> {
    table.map_values(|entry: (SoundEffect, Seq<[S; 2]>)| entry.1.len() as usize)
}

/// The rendered signals in the order in which they were recorded, each with
/// the effect that plays it.
pub struct WaveTable<S> {
    entries: Vec<(SoundEffect, Signal<S>)>,
}

impl<S> View for WaveTable<S> {
    type V = Seq<(SoundEffect, Seq<[S; 2]>)>;

    closed spec fn view(&self) -> Seq<(SoundEffect, Seq<[S; 2]>)> {
        self.entries@.map_values(|entry: (SoundEffect, Signal<S>)| (entry.0, entry.1@))
    }
}

impl<S: Copy> WaveTable<S> {
    /// The sample rates that the signals were rendered for, entry by entry.
    pub closed spec fn rates(&self) -> Seq<S> {
        self.entries@.map_values(|entry: (SoundEffect, Signal<S>)| entry.1.rate())
    }

    /// A wavetable without entries.
    pub fn new() -> (table: WaveTable<S>)
        ensures
            table@ == Seq::<(SoundEffect, Seq<[S; 2]>)>::empty(),
            table.rates() == Seq::<S>::empty(),
    {
        let table = WaveTable { entries: Vec::new() };
        assert(table@ =~= Seq::empty());
        assert(table.rates() =~= Seq::empty());
        table
    }

    /// Appends `signal` as the signal of `effect` and hands back its index.
    /// The entry keeps the frames of the signal and its sample rate.
    pub fn record(&mut self, effect: SoundEffect, signal: Signal<S>) -> (index: usize)
        ensures
            index == old(self)@.len(),
            final(self)@ == old(self)@.push((effect, signal@)),
            final(self).rates() == old(self).rates().push(signal.rate()),
    {
        let index = self.entries.len();
        self.entries.push((effect, signal));
        assert(self@ =~= old(self)@.push((effect, signal@)));
        assert(self.rates() =~= old(self).rates().push(signal.rate()));
        index
    }

    /// The number of entries.
    pub fn len(&self) -> (entries: usize)
        ensures
            entries == self@.len(),
    {
        self.entries.len()
    }

    /// The effect of entry `index`, if there is such an entry.
    pub fn effect(&self, index: usize) -> (effect: Option<SoundEffect>)
        ensures
            index < self@.len() ==> effect == Some(self@[index as int].0),
            index >= self@.len() ==> effect is None,
    {
        if index < self.entries.len() {
            Some(self.entries[index].0)
        } else {
            None
        }
    }

    /// The signal of entry `index`, if there is such an entry.
    pub fn signal(&self, index: usize) -> (signal: Option<&Signal<S>>)
        ensures
            self.rates().len() == self@.len(),
            index < self@.len() ==> signal is Some && signal->Some_0@ == self@[index as int].1
                && signal->Some_0.rate() == self.rates()[index as int],
            index >= self@.len() ==> signal is None,
    {
        if index < self.entries.len() {
            Some(&self.entries[index].1)
        } else {
            None
        }
    }
}

/// The engine. Its wavetable and the map from effects to its entries are
/// fixed when it is made; what changes afterwards is the pool of voices.
pub struct Multiplexer<S> {
    silence: S,
    wave_table: WaveTable<S>,
    sample_map: HashMap<u128, usize>,
    voices: Vec<Voice>,
    playing_voice_index: SlotSet,
    available_voice_index: Vec<usize>,
}

impl<S> View for Multiplexer<S> {
    type V = Pool;

    closed spec fn view(&self) -> Pool {
        Pool {
            lengths: lengths_of(self.wave_table@),
            effects: effects_of(self.sample_map@),
            voices: self.voices@,
            playing: crate::slots::members(self.playing_voice_index),
            available: self.available_voice_index@,
        }
    }
}

impl<S: Copy> Multiplexer<S> {
    /// The signals of the wavetable.
    pub closed spec fn table(&self) -> Seq<Seq<[S; 2]>> {
        signals_of(self.wave_table@)
    }

    /// The sample that an output buffer is filled with before anything is
    /// mixed into it.
    pub closed spec fn silence(&self) -> S {
        self.silence
    }

    /// The sample rates that the signals of the wavetable were rendered for.
    pub closed spec fn rates(&self) -> Seq<S> {
        self.wave_table.rates()
    }

    /// The pool knows each signal of the wavetable by its length.
    pub proof fn lemma_lengths(&self)
        ensures
            self@.lengths.len() == self.table().len(),
            forall|signal: int|
                0 <= signal < self.table().len() ==> #[trigger] self@.lengths[signal]
                    == self.table()[signal].len(),
    {
        assert forall|signal: int| 0 <= signal < self.table().len() implies #[trigger] self@.lengths[signal]
            == self.table()[signal].len() by {
            self.wave_table.entries@[signal].1.lemma_len_fits();
        }
    }

    /// An engine with `max_voices` slots over a wavetable, in which nothing
    /// plays yet. Each effect that the wavetable names plays the signal that
    /// was recorded for it last.
    pub fn new(wave_table: WaveTable<S>, max_voices: usize, silence: S) -> (mux: Multiplexer<S>)
        ensures
            mux@ == Pool::fresh(names_of(wave_table@), lengths_of(wave_table@), max_voices),
            mux@.wf(),
            mux.table() == signals_of(wave_table@),
            mux.rates() == wave_table.rates(),
            mux.silence() == silence,
    {
        let ghost names = names_of(wave_table@);
        let ghost lengths = lengths_of(wave_table@);
        let mut sample_map: HashMap<u128, usize> = HashMap::new();
        let mut index: usize = 0;
        assert(effects_of(sample_map@) =~= crate::pool::effect_map(names.take(0)));
        while index < wave_table.len()
            invariant
                index <= wave_table@.len(),
                names == names_of(wave_table@),
                effects_of(sample_map@) == crate::pool::effect_map(names.take(index as int)),
            decreases wave_table@.len() - index,
        {
            let ghost codes = sample_map@;
            let ghost effect = wave_table@[index as int].0;
            if let Some(named) = wave_table.effect(index) {
                sample_map.insert(named.code(), index);
            }
            proof {
                let more = names.take(index + 1);
                assert(more.drop_last() =~= names.take(index as int));
                assert(more.last() == effect);
                assert forall|other: SoundEffect| other.code_of() == effect.code_of() implies other
                    == effect by {
                    SoundEffect::lemma_code_tells_apart(other, effect);
                }
                assert(effects_of(sample_map@) =~= effects_of(codes).insert(effect, index));
            }
            index += 1;
        }
        let mut voices: Vec<Voice> = Vec::new();
        let mut available_voice_index: Vec<usize> = Vec::new();
        let mut slot: usize = max_voices;
        while slot > 0
            invariant
                slot <= max_voices,
                voices@.len() == max_voices - slot,
                available_voice_index@.len() == max_voices - slot,
                forall|i: int| 0 <= i < voices@.len() ==> voices@[i] == Voice::idle(),
                forall|i: int|
                    0 <= i < available_voice_index@.len() ==> available_voice_index@[i] == max_voices
                        - 1 - i,
            decreases slot,
        {
            slot -= 1;
            voices.push(Voice::default());
            available_voice_index.push(slot);
        }
        let playing_voice_index = SlotSet::with_capacity(max_voices);
        let mux = Multiplexer {
            silence,
            wave_table,
            sample_map,
            voices,
            playing_voice_index,
            available_voice_index,
        };
        proof {
            assert(names.take(index as int) =~= names);
            let fresh = Pool::fresh(names, lengths, max_voices);
            assert(mux@.voices =~= fresh.voices);
            assert(mux@.available =~= fresh.available);
            Pool::lemma_fresh_wf(names, lengths, max_voices);
        }
        mux
    }

    /// Takes the slot on top of the stack for `voice`, if there is one.
    fn allocate_voice(&mut self, voice: Voice) -> (allocated: Option<usize>)
        requires
            old(self)@.wf(),
        ensures
            old(self)@.available.len() == 0 ==> allocated is None && final(self)@ == old(self)@,
            old(self)@.available.len() > 0 ==> allocated == Some(old(self)@.available.last())
                && final(self)@ == (Pool {
                voices: old(self)@.voices.update(old(self)@.available.last() as int, voice),
                playing: old(self)@.playing.insert(old(self)@.available.last()),
                available: old(self)@.available.drop_last(),
                ..old(self)@
            }),
            final(self).table() == old(self).table(),
            final(self).silence() == old(self).silence(),
            final(self).rates() == old(self).rates(),
    {
        let allocated = self.available_voice_index.pop();
        if let Some(voice_index) = allocated {
            assert(voice_index == old(self)@.available[old(self)@.available.len() - 1]);
            self.playing_voice_index.insert(voice_index);
            self.voices[voice_index] = voice;
        }
        allocated
    }

    /// Clears the voice in a playing slot and puts the slot onto the stack.
    fn free_voice(&mut self, voice_index: usize)
        requires
            voice_index < old(self)@.voices.len(),
        ensures
            final(self)@ == (Pool {
                voices: old(self)@.voices.update(
                    voice_index as int,
                    old(self)@.voices[voice_index as int].released(),
                ),
                playing: old(self)@.playing.remove(voice_index),
                available: old(self)@.available.push(voice_index),
                ..old(self)@
            }),
            final(self).table() == old(self).table(),
            final(self).silence() == old(self).silence(),
            final(self).rates() == old(self).rates(),
    {
        let voice = self.voices[voice_index];
        self.voices[voice_index] = Voice { signal: None, length: voice.length, position: voice.position };
        self.playing_voice_index.remove(voice_index);
        self.available_voice_index.push(voice_index);
    }

    /// Starts a voice for `effect`, if the effect is mapped and a slot is free.
    pub fn trigger(&mut self, effect: SoundEffect)
        requires
            old(self)@.wf(),
        ensures
            final(self)@ == old(self)@.trigger(effect),
            final(self)@.wf(),
            final(self).table() == old(self).table(),
            final(self).silence() == old(self).silence(),
            final(self).rates() == old(self).rates(),
    {
        proof {
            old(self)@.lemma_trigger_wf(effect);
        }
        if let Some(signal_index) = self.signal_of(effect) {
            if let Some(signal) = self.wave_table.signal(signal_index) {
                let signal_length = signal.len();
                let _ = self.allocate_voice(Voice::new(signal_index, signal_length));
            }
        }
    }

    /// Fills `buffer` with the mix of everything that plays. The buffer is set
    /// to silence; then each playing voice, the lowest slot first, adds the
    /// frames of its signal from its cursor on, from the first frame of the
    /// buffer on, as many as the buffer and the signal have. Every voice moves
    /// on by the frames it gave, and a voice that reached the end of its signal
    /// gives up its slot.
    pub fn audio_requested(&mut self, buffer: &mut [[S; 2]]) where S: Add<Output = S>
        requires
            old(self)@.wf(),
            crate::signal::adds::<S>(),
        ensures
            final(self)@ == old(self)@.pull(old(buffer)@.len() as usize),
            final(self)@.wf(),
            final(self).table() == old(self).table(),
            final(self).silence() == old(self).silence(),
            final(self).rates() == old(self).rates(),
            final(buffer)@.len() == old(buffer)@.len(),
            forall|frame: int, channel: int|
                0 <= frame < final(buffer)@.len() && 0 <= channel < 2 && old(self)@.quiet_at(
                    old(buffer)@.len() as usize,
                    frame,
                ) ==> #[trigger] final(buffer)@[frame][channel] == old(self).silence(),
            S::obeys_add_spec() ==> forall|frame: int, channel: int|
                0 <= frame < final(buffer)@.len() && 0 <= channel < 2 ==> #[trigger] final(
                    buffer
                )@[frame][channel] == crate::mix::mixed_sample(
                    old(self)@.mix_plan(old(buffer)@.len() as usize),
                    old(self).table(),
                    old(self).silence(),
                    frame,
                    channel,
                ),
    {
        let buffer_len = buffer.len();
        let ghost before = self@;
        let ghost table = self.table();
        let ghost silence = self.silence();
        let ghost bound = before.voices.len();
        let ghost plan = before.mix_plan(buffer_len);
        proof {
            before.lemma_pull_wf(buffer_len);
            self.lemma_lengths();
        }
        silence_all(buffer, self.silence);
        let mut terminated_voices = SlotSet::with_capacity(self.voices.len());
        let playing = self.playing_voice_index.ascending();
        proof {
            crate::pool::lemma_ascending_is_slots_below(playing@, before.playing, bound);
        }
        let mut k: usize = 0;
        while k < playing.len()
            invariant
                crate::signal::adds::<S>(),
                before.wf(),
                bound == before.voices.len(),
                k <= playing.len(),
                playing@ == before.playing_slots(),
                plan == before.mix_plan(buffer_len),
                forall|i: int, j: int| 0 <= i < j < playing@.len() ==> playing@[i] < playing@[j],
                forall|i: int| 0 <= i < playing@.len() ==> before.playing.contains(#[trigger] playing@[i]),
                self@.lengths == before.lengths,
                self@.effects == before.effects,
                self@.playing == before.playing,
                self@.available == before.available,
                self.table() == table,
                self.silence() == silence,
                self.rates() == old(self).rates(),
                before.lengths.len() == table.len(),
                forall|signal: int|
                    0 <= signal < table.len() ==> #[trigger] before.lengths[signal] == table[signal].len(),
                self@.voices.len() == bound,
                forall|m: int| 0 <= m < k ==> self@.voices[#[trigger] playing@[m] as int]
                    == before.voices[playing@[m] as int].advanced(buffer_len),
                forall|m: int| k <= m < playing@.len() ==> self@.voices[#[trigger] playing@[m] as int]
                    == before.voices[playing@[m] as int],
                forall|i: int| 0 <= i < bound && !before.playing.contains(i as usize)
                    ==> #[trigger] self@.voices[i] == before.voices[i],
                forall|m: int| 0 <= m < k && before.voices[playing@[m] as int].ends_within(buffer_len)
                    ==> crate::slots::members(terminated_voices).contains(#[trigger] playing@[m]),
                forall|slot: usize| #[trigger] crate::slots::members(terminated_voices).contains(slot)
                    ==> before.finishing(buffer_len).contains(slot),
                buffer@.len() == buffer_len,
                forall|frame: int, channel: int|
                    0 <= frame < buffer_len && 0 <= channel < 2 && past_all(
                        before.voices,
                        playing@.take(k as int),
                        buffer_len,
                        frame,
                    ) ==> #[trigger] buffer@[frame][channel] == silence,
                S::obeys_add_spec() ==> forall|frame: int, channel: int|
                    0 <= frame < buffer_len && 0 <= channel < 2 ==> #[trigger] buffer@[frame][channel]
                        == crate::mix::mixed_sample(plan.take(k as int), table, silence, frame, channel),
            decreases playing.len() - k,
        {
            let voice_index = playing[k];
            assert(before.playing.contains(playing@[k as int]));
            assert(before.plays(voice_index));
            let voice = self.voices[voice_index];
            let ghost mixed = buffer@;
            if let Some(signal_index) = voice.signal {
                let left = voice.remaining();
                let len = if buffer_len <= left { buffer_len } else { left };
                if let Some(signal) = self.wave_table.signal(signal_index) {
                    mix_segment(buffer, signal.frames(), voice.position, len);
                }
                let mut moved = voice;
                let finished = moved.advance(len);
                self.voices[voice_index] = moved;
                if finished {
                    terminated_voices.insert(voice_index);
                }
            }
            proof {
                assert forall|frame: int, channel: int|
                    0 <= frame < buffer_len && 0 <= channel < 2 && past_all(
                        before.voices,
                        playing@.take(k + 1),
                        buffer_len,
                        frame,
                    ) implies #[trigger] buffer@[frame][channel] == silence by {
                    let sooner = playing@.take(k as int);
                    let later = playing@.take(k + 1);
                    assert(later[k as int] == voice_index);
                    assert(before.voices[later[k as int] as int].window(buffer_len) <= frame);
                    assert forall|m: int| 0 <= m < sooner.len() implies before.voices[(
                    #[trigger] sooner[m]) as int].window(buffer_len) <= frame by {
                        assert(later[m] == sooner[m]);
                    }
                    assert(past_all(before.voices, sooner, buffer_len, frame));
                    assert(mixed[frame][channel] == silence);
                    assert(buffer@[frame] == mixed[frame]);
                }
                let more = plan.take(k + 1);
                assert(more.drop_last() =~= plan.take(k as int));
                assert(more.last() == before.segment(voice_index, buffer_len));
                if S::obeys_add_spec() {
                    assert forall|frame: int, channel: int|
                        0 <= frame < buffer_len && 0 <= channel < 2 implies #[trigger] buffer@[frame][channel]
                        == crate::mix::mixed_sample(more, table, silence, frame, channel) by {
                        assert(mixed[frame][channel] == crate::mix::mixed_sample(
                            plan.take(k as int),
                            table,
                            silence,
                            frame,
                            channel,
                        ));
                        if frame >= more.last().frames {
                            assert(buffer@[frame] == mixed[frame]);
                        }
                    }
                }
            }
            k += 1;
        }
        proof {
            assert(playing@.take(k as int) =~= playing@);
            assert(plan.take(k as int) =~= plan);
            assert forall|frame: int| before.quiet_at(buffer_len, frame) implies past_all(
                before.voices,
                playing@,
                buffer_len,
                frame,
            ) by {
                assert forall|m: int| 0 <= m < playing@.len() implies before.voices[(
                #[trigger] playing@[m]) as int].window(buffer_len) <= frame by {
                    assert(before.playing.contains(playing@[m]));
                }
            }
            assert forall|slot: usize| before.finishing(buffer_len).contains(slot) implies crate::slots::members(
                terminated_voices,
            ).contains(slot) by {
                crate::pool::lemma_slots_below(before.playing, bound);
                assert(playing@.contains(slot));
                let m = choose|m: int| 0 <= m < playing@.len() && playing@[m] == slot;
                assert(crate::slots::members(terminated_voices).contains(playing@[m]));
            }
            assert(crate::slots::members(terminated_voices) =~= before.finishing(buffer_len));
        }
        let terminated = terminated_voices.ascending();
        let ghost middle = self@;
        proof {
            crate::pool::lemma_ascending_is_slots_below(
                terminated@,
                before.finishing(buffer_len),
                bound,
            );
        }
        let mut j: usize = 0;
        while j < terminated.len()
            invariant
                before.wf(),
                bound == before.voices.len(),
                j <= terminated.len(),
                terminated@ == crate::pool::slots_below(before.finishing(buffer_len), bound),
                forall|i: int, m: int| 0 <= i < m < terminated@.len() ==> terminated@[i] < terminated@[m],
                forall|i: int| 0 <= i < terminated@.len() ==> before.finishing(buffer_len).contains(
                    #[trigger] terminated@[i],
                ),
                self@.lengths == before.lengths,
                self@.effects == before.effects,
                self.table() == table,
                self.silence() == silence,
                self.rates() == old(self).rates(),
                self@.voices.len() == bound,
                middle.voices.len() == bound,
                self@.available == before.available + terminated@.take(j as int),
                forall|slot: usize| self@.playing.contains(slot) <==> before.playing.contains(slot)
                    && !terminated@.take(j as int).contains(slot),
                forall|i: int| 0 <= i < bound ==> #[trigger] self@.voices[i] == (if terminated@.take(
                    j as int,
                ).contains(i as usize) {
                    middle.voices[i].released()
                } else {
                    middle.voices[i]
                }),
            decreases terminated.len() - j,
        {
            let voice_index = terminated[j];
            assert(before.finishing(buffer_len).contains(terminated@[j as int]));
            let ghost done = terminated@.take(j as int);
            let ghost more = terminated@.take(j + 1);
            proof {
                assert(more =~= done.push(voice_index));
                assert(!done.contains(voice_index));
                assert forall|slot: usize| more.contains(slot) <==> done.contains(slot) || slot
                    == voice_index by {
                    if done.contains(slot) {
                        let m = choose|m: int| 0 <= m < done.len() && done[m] == slot;
                        assert(more[m] == slot);
                    }
                    if slot == voice_index {
                        assert(more[j as int] == slot);
                    }
                }
            }
            self.free_voice(voice_index);
            proof {
                assert(self@.available =~= before.available + more);
            }
            j += 1;
        }
        proof {
            let after = before.pull(buffer_len);
            crate::pool::lemma_slots_below(before.finishing(buffer_len), bound);
            assert(terminated@.take(j as int) =~= terminated@);
            assert(self@.playing =~= after.playing);
            assert forall|i: int| 0 <= i < bound implies self@.voices[i] == after.voices[i] by {
                let slot = i as usize;
                if before.playing.contains(slot) {
                    crate::pool::lemma_slots_below(before.playing, bound);
                    assert(playing@.contains(slot));
                    let m = choose|m: int| 0 <= m < playing@.len() && playing@[m] == slot;
                    assert(middle.voices[playing@[m] as int] == before.voices[i].advanced(buffer_len));
                    if before.voices[i].ends_within(buffer_len) {
                        assert(before.finishing(buffer_len).contains(slot));
                        assert(terminated@.contains(slot));
                    } else {
                        if terminated@.contains(slot) {
                            let t = choose|t: int| 0 <= t < terminated@.len() && terminated@[t] == slot;
                            assert(before.finishing(buffer_len).contains(terminated@[t]));
                        }
                    }
                } else {
                    if terminated@.contains(slot) {
                        let t = choose|t: int| 0 <= t < terminated@.len() && terminated@[t] == slot;
                        assert(before.finishing(buffer_len).contains(terminated@[t]));
                    }
                }
            }
            assert(self@.voices =~= after.voices);
        }
    }

    /// The number of slots, playing or free.
    pub fn max_voices(&self) -> (slots: usize)
        ensures
            slots == self@.voices.len(),
    {
        self.voices.len()
    }

    /// The slots that play, the lowest first.
    pub fn playing(&self) -> (slots: Vec<usize>)
        requires
            self@.wf(),
        ensures
            slots@ == self@.playing_slots(),
    {
        let slots = self.playing_voice_index.ascending();
        proof {
            crate::pool::lemma_ascending_is_slots_below(slots@, self@.playing, self@.voices.len());
        }
        slots
    }

    /// The number of free slots.
    pub fn available(&self) -> (slots: usize)
        ensures
            slots == self@.available.len(),
    {
        self.available_voice_index.len()
    }

    /// The voice in `slot`, if there is such a slot.
    pub fn voice(&self, slot: usize) -> (voice: Option<Voice>)
        ensures
            voice == (if slot < self@.voices.len() {
                Some(self@.voices[slot as int])
            } else {
                None
            }),
    {
        if slot < self.voices.len() {
            Some(self.voices[slot])
        } else {
            None
        }
    }

    /// The wavetable entry that `effect` plays, if the effect is mapped.
    pub fn signal_of(&self, effect: SoundEffect) -> (signal: Option<usize>)
        ensures
            signal == (if self@.effects.contains_key(effect) {
                Some(self@.effects[effect])
            } else {
                None
            }),
    {
        match self.sample_map.get(&effect.code()) {
            Some(signal_index) => Some(*signal_index),
            None => None,
        }
    }

    /// The length in frames of wavetable entry `signal`, if there is such an
    /// entry.
    pub fn signal_length(&self, signal: usize) -> (length: Option<usize>)
        ensures
            length == (if signal < self@.lengths.len() {
                Some(self@.lengths[signal as int])
            } else {
                None
            }),
    {
        match self.wave_table.signal(signal) {
            Some(entry) => Some(entry.len()),
            None => None,
        }
    }
}

} // verus!
