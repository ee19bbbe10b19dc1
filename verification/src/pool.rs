//! The voice pool as a mathematical object: which slots play, which are free,
//! and what a trigger or a pull of frames does to them.

use vstd::prelude::*;
use crate::effect::SoundEffect;
use crate::voice::Voice;

verus! {

/// What one playing voice adds to one pull: `frames` frames of wavetable entry
/// `signal`, read from frame `start` on, are added to the output from its first
/// frame on.
#[derive(Clone, Copy, Debug, PartialEq, Eq, Structural)]
pub struct Segment {
    pub slot: usize,
    pub signal: usize,
    pub start: usize,
    pub frames: usize,
}

/// The members of `set` below `bound`, the smaller before the larger.
pub open spec fn slots_below(set: Set<usize>, bound: nat) -> Seq<usize>
    decreases bound,
{
    if bound == 0 {
        Seq::empty()
    } else {
        let rest = slots_below(set, (bound - 1) as nat);
        if set.contains((bound - 1) as usize) {
            rest.push((bound - 1) as usize)
        } else {
            rest
        }
    }
}

/// The wavetable entry that each effect is mapped to by a catalog, in which
/// entry `i` names the effect that plays signal `i`: where an effect is named
/// more than once, the last entry counts.
pub open spec fn effect_map(names: Seq<SoundEffect>) -> Map<SoundEffect, usize>
    decreases names.len(),
{
    if names.len() == 0 {
        Map::empty()
    } else {
        effect_map(names.drop_last()).insert(names.last(), (names.len() - 1) as usize)
    }
}

/// The state of the engine: the lengths of the wavetable's signals, the
/// wavetable entry of each effect, the voice in each slot, the slots that play
/// and the stack of free slots, whose top is its last entry.
pub struct Pool {
    pub lengths: Seq<usize>,
    pub effects: Map<SoundEffect, usize>,
    pub voices: Seq<Voice>,
    pub playing: Set<usize>,
    pub available: Seq<usize>,
}

impl Pool {
    /// The voice in `slot` is at some frame of a signal of the wavetable.
    pub open spec fn plays(self, slot: usize) -> bool {
        let voice = self.voices[slot as int];
        &&& voice.signal matches Some(signal)
        &&& signal < self.lengths.len()
        &&& voice.length == self.lengths[signal as int]
        &&& voice.position <= voice.length
    }

    /// Every slot either plays or is free, never both; a playing slot reads a
    /// signal of the wavetable, a free slot reads none; every effect is mapped
    /// into the wavetable.
    pub open spec fn wf(self) -> bool {
        &&& self.voices.len() <= usize::MAX
        &&& self.playing.finite()
        &&& forall|effect: SoundEffect| #[trigger]
            self.effects.contains_key(effect) ==> self.effects[effect] < self.lengths.len()
        &&& forall|slot: usize| #[trigger]
            self.playing.contains(slot) ==> slot < self.voices.len() && self.plays(slot)
        &&& forall|i: int|
            0 <= i < self.available.len() ==> {
                &&& (#[trigger] self.available[i]) < self.voices.len()
                &&& !self.playing.contains(self.available[i])
                &&& self.voices[self.available[i] as int].signal is None
            }
        &&& self.available.no_duplicates()
        &&& forall|slot: usize|
            slot < self.voices.len() && !self.playing.contains(slot)
                ==> #[trigger] self.available.contains(slot)
    }

    /// The engine before anything was triggered: `max_voices` idle slots, all
    /// of them free, the lowest on top of the stack.
    pub open spec fn fresh(names: Seq<SoundEffect>, lengths: Seq<usize>, max_voices: usize) -> Pool {
        Pool {
            lengths,
            effects: effect_map(names),
            voices: Seq::new(max_voices as nat, |i: int| Voice::idle()),
            playing: Set::empty(),
            available: Seq::new(max_voices as nat, |i: int| (max_voices - 1 - i) as usize),
        }
    }

    /// The engine after a request to play `effect`. An effect that is mapped
    /// takes the slot on top of the stack and starts at frame 0 of its signal;
    /// a request for an effect that is not mapped, or with no slot free,
    /// changes nothing.
    pub open spec fn trigger(self, effect: SoundEffect) -> Pool {
        if self.effects.contains_key(effect) && self.available.len() > 0 {
            let signal = self.effects[effect];
            let slot = self.available.last();
            Pool {
                voices: self.voices.update(
                    slot as int,
                    Voice::started(signal, self.lengths[signal as int]),
                ),
                playing: self.playing.insert(slot),
                available: self.available.drop_last(),
                ..self
            }
        } else {
            self
        }
    }

    /// The playing slots, the lowest first.
    pub open spec fn playing_slots(self) -> Seq<usize> {
        slots_below(self.playing, self.voices.len())
    }

    /// What the voice in `slot` adds to a pull of `frames` frames.
    pub open spec fn segment(self, slot: usize, frames: usize) -> Segment {
        let voice = self.voices[slot as int];
        Segment {
            slot,
            signal: voice.signal->Some_0,
            start: voice.position,
            frames: voice.window(frames) as usize,
        }
    }

    /// What a pull of `frames` frames is mixed from: one segment for each
    /// playing slot, the lowest slot first.
    pub open spec fn mix_plan(self, frames: usize) -> Seq<Segment> {
        self.playing_slots().map_values(|slot: usize| self.segment(slot, frames))
    }

    /// Whether no voice reaches frame `frame` of a pull of `frames` frames:
    /// every playing voice gives fewer frames than that.
    pub open spec fn quiet_at(self, frames: usize, frame: int) -> bool {
        forall|slot: usize| #[trigger]
            self.playing.contains(slot) ==> self.voices[slot as int].window(frames) <= frame
    }

    /// The playing slots whose voice reaches the end of its signal within
    /// `frames` frames.
    pub open spec fn finishing(self, frames: usize) -> Set<usize> {
        self.playing.filter(|slot: usize| self.voices[slot as int].ends_within(frames))
    }

    /// The voice in slot `i` after a pull of `frames` frames.
    pub open spec fn pulled_voice(self, i: int, frames: usize) -> Voice {
        let voice = self.voices[i];
        if !self.playing.contains(i as usize) {
            voice
        } else if voice.ends_within(frames) {
            voice.advanced(frames).released()
        } else {
            voice.advanced(frames)
        }
    }

    /// The engine after a pull of `frames` frames: every playing voice moved
    /// on by its window; those that reached the end of their signal stopped
    /// playing, lost their signal, and their slots went onto the stack, the
    /// lowest first.
    pub open spec fn pull(self, frames: usize) -> Pool {
        Pool {
            voices: Seq::new(self.voices.len(), |i: int| self.pulled_voice(i, frames)),
            playing: self.playing.difference(self.finishing(frames)),
            available: self.available + slots_below(self.finishing(frames), self.voices.len()),
            ..self
        }
    }
}

/// `slots_below` holds exactly the members below the bound, each once, in
/// ascending order.
pub proof fn lemma_slots_below(set: Set<usize>, bound: nat)
    requires
        bound <= usize::MAX,
    ensures
        forall|i: int|
            0 <= i < slots_below(set, bound).len() ==> set.contains(
                #[trigger] slots_below(set, bound)[i],
            ) && slots_below(set, bound)[i] < bound,
        forall|slot: usize| #[trigger]
            set.contains(slot) && slot < bound ==> slots_below(set, bound).contains(slot),
        forall|i: int, j: int|
            0 <= i < j < slots_below(set, bound).len() ==> slots_below(set, bound)[i]
                < slots_below(set, bound)[j],
        slots_below(set, bound).len() <= bound,
    decreases bound,
{
    if bound > 0 {
        let rest = slots_below(set, (bound - 1) as nat);
        lemma_slots_below(set, (bound - 1) as nat);
        let top = (bound - 1) as usize;
        let all = slots_below(set, bound);
        if set.contains(top) {
            assert(all == rest.push(top));
            assert forall|slot: usize| #[trigger] set.contains(slot) && slot < bound implies all.contains(
                slot,
            ) by {
                if slot == top {
                    assert(all[rest.len() as int] == slot);
                } else {
                    assert(rest.contains(slot));
                    let k = choose|k: int| 0 <= k < rest.len() && rest[k] == slot;
                    assert(all[k] == slot);
                }
            }
            assert forall|i: int, j: int| 0 <= i < j < all.len() implies all[i] < all[j] by {
                if j == rest.len() {
                    assert(all[i] == rest[i]);
                    assert(rest[i] < bound - 1);
                }
            }
        } else {
            assert(all == rest);
            assert forall|slot: usize| #[trigger] set.contains(slot) && slot < bound implies all.contains(
                slot,
            ) by {
                assert(slot != top);
            }
        }
    }
}

/// Only one sequence holds exactly the members of a set in ascending order.
pub proof fn lemma_ascending_is_slots_below(slots: Seq<usize>, set: Set<usize>, bound: nat)
    requires
        bound <= usize::MAX,
        forall|i: int, j: int| 0 <= i < j < slots.len() ==> slots[i] < slots[j],
        forall|i: int| 0 <= i < slots.len() ==> set.contains(#[trigger] slots[i]),
        forall|slot: usize| set.contains(slot) ==> slots.contains(slot),
        forall|slot: usize| set.contains(slot) ==> slot < bound,
    ensures
        slots == slots_below(set, bound),
    decreases bound,
{
    if bound == 0 {
        if slots.len() > 0 {
            assert(set.contains(slots[0]));
        }
        assert(slots =~= Seq::empty());
    } else {
        let top = (bound - 1) as usize;
        if set.contains(top) {
            assert(slots.contains(top));
            let k = choose|k: int| 0 <= k < slots.len() && slots[k] == top;
            if k < slots.len() - 1 {
                assert(set.contains(slots[k + 1]));
            }
            let front = slots.drop_last();
            let less = set.remove(top);
            assert forall|slot: usize| less.contains(slot) implies front.contains(slot) by {
                assert(slots.contains(slot));
                let m = choose|m: int| 0 <= m < slots.len() && slots[m] == slot;
                assert(front[m] == slot);
            }
            assert forall|i: int| 0 <= i < front.len() implies less.contains(
                #[trigger] front[i],
            ) by {
                assert(set.contains(slots[i]));
            }
            assert forall|slot: usize| less.contains(slot) implies slot < bound - 1 by {}
            lemma_ascending_is_slots_below(front, less, (bound - 1) as nat);
            lemma_slots_below_ignores(set, less, (bound - 1) as nat);
            assert(slots =~= front.push(top));
        } else {
            assert forall|slot: usize| set.contains(slot) implies slot < bound - 1 by {}
            lemma_ascending_is_slots_below(slots, set, (bound - 1) as nat);
        }
    }
}

/// Two sets with the same members below a bound have the same slots below it.
pub proof fn lemma_slots_below_ignores(a: Set<usize>, b: Set<usize>, bound: nat)
    requires
        bound <= usize::MAX,
        forall|slot: usize| slot < bound ==> (a.contains(slot) <==> b.contains(slot)),
    ensures
        slots_below(a, bound) == slots_below(b, bound),
    decreases bound,
{
    if bound > 0 {
        lemma_slots_below_ignores(a, b, (bound - 1) as nat);
    }
}

/// A finite set of slots below a bound has as many members as `slots_below`
/// lists.
pub proof fn lemma_slots_below_len(set: Set<usize>, bound: nat)
    requires
        bound <= usize::MAX,
        set.finite(),
        forall|slot: usize| set.contains(slot) ==> slot < bound,
    ensures
        slots_below(set, bound).len() == set.len(),
    decreases bound,
{
    if bound == 0 {
        assert(set =~= Set::empty());
    } else {
        let top = (bound - 1) as usize;
        let less = set.remove(top);
        assert forall|slot: usize| less.contains(slot) implies slot < bound - 1 by {
            assert(set.contains(slot));
        }
        lemma_slots_below_len(less, (bound - 1) as nat);
        lemma_slots_below_ignores(set, less, (bound - 1) as nat);
    }
}

/// A catalog maps exactly the effects that it names, each to an entry of the
/// catalog that names it.
pub proof fn lemma_effect_map(names: Seq<SoundEffect>)
    requires
        names.len() <= usize::MAX,
    ensures
        forall|effect: SoundEffect| #[trigger]
            effect_map(names).contains_key(effect) ==> effect_map(names)[effect] < names.len()
                && names[effect_map(names)[effect] as int] == effect,
        forall|i: int| 0 <= i < names.len() ==> effect_map(names).contains_key(#[trigger] names[i]),
        forall|i: int|
            0 <= i < names.len() ==> i <= (#[trigger] effect_map(names)[names[i]]),
    decreases names.len(),
{
    if names.len() > 0 {
        let front = names.drop_last();
        lemma_effect_map(front);
        assert forall|i: int| 0 <= i < names.len() implies effect_map(names).contains_key(
            #[trigger] names[i],
        ) && i <= effect_map(names)[names[i]] by {
            if i < names.len() - 1 {
                assert(front[i] == names[i]);
                assert(effect_map(front).contains_key(front[i]));
                assert(i <= effect_map(front)[front[i]]);
            }
        }
    }
}

impl Pool {
    /// The engine is well formed before anything was triggered.
    pub proof fn lemma_fresh_wf(names: Seq<SoundEffect>, lengths: Seq<usize>, max_voices: usize)
        requires
            names.len() == lengths.len(),
            names.len() <= usize::MAX,
        ensures
            Pool::fresh(names, lengths, max_voices).wf(),
    {
        let pool = Pool::fresh(names, lengths, max_voices);
        lemma_effect_map(names);
        assert forall|slot: usize|
            slot < pool.voices.len() && !pool.playing.contains(slot) implies #[trigger] pool.available.contains(
            slot,
        ) by {
            assert(pool.available[max_voices - 1 - slot] == slot);
        }
    }

    /// A trigger keeps the engine well formed.
    pub proof fn lemma_trigger_wf(self, effect: SoundEffect)
        requires
            self.wf(),
        ensures
            self.trigger(effect).wf(),
    {
        if self.effects.contains_key(effect) && self.available.len() > 0 {
            let after = self.trigger(effect);
            let top = self.available.len() - 1;
            let slot = self.available.last();
            assert(self.available[top] == slot);
            assert forall|s: usize| #[trigger] after.playing.contains(s) implies s < after.voices.len()
                && after.plays(s) by {
                if s != slot {
                    assert(self.playing.contains(s));
                    assert(self.plays(s));
                }
            }
            assert forall|i: int| 0 <= i < after.available.len() implies {
                &&& (#[trigger] after.available[i]) < after.voices.len()
                &&& !after.playing.contains(after.available[i])
                &&& after.voices[after.available[i] as int].signal is None
            } by {
                assert(after.available[i] == self.available[i]);
                assert(self.available[i] != self.available[top]);
            }
            assert forall|s: usize|
                s < after.voices.len() && !after.playing.contains(s) implies #[trigger] after.available.contains(
                s,
            ) by {
                assert(self.available.contains(s));
                let m = choose|m: int| 0 <= m < self.available.len() && self.available[m] == s;
                assert(after.available[m] == s);
            }
        }
    }

    /// A pull keeps the engine well formed.
    pub proof fn lemma_pull_wf(self, frames: usize)
        requires
            self.wf(),
        ensures
            self.pull(frames).wf(),
    {
        let after = self.pull(frames);
        let ended = slots_below(self.finishing(frames), self.voices.len());
        let n = self.available.len() as int;
        lemma_slots_below(self.finishing(frames), self.voices.len());
        assert forall|s: usize| #[trigger] after.playing.contains(s) implies s < after.voices.len()
            && after.plays(s) by {
            assert(self.playing.contains(s));
            assert(self.plays(s));
        }
        assert forall|i: int| 0 <= i < after.available.len() implies {
            &&& (#[trigger] after.available[i]) < after.voices.len()
            &&& !after.playing.contains(after.available[i])
            &&& after.voices[after.available[i] as int].signal is None
        } by {
            if i < n {
                assert(after.available[i] == self.available[i]);
            } else {
                assert(after.available[i] == ended[i - n]);
                assert(self.finishing(frames).contains(ended[i - n]));
            }
        }
        assert forall|i: int, j: int|
            0 <= i < after.available.len() && 0 <= j < after.available.len() && i != j implies after.available[i]
            != after.available[j] by {
            if i < n {
                assert(after.available[i] == self.available[i]);
            } else {
                assert(after.available[i] == ended[i - n]);
                assert(self.finishing(frames).contains(ended[i - n]));
            }
            if j < n {
                assert(after.available[j] == self.available[j]);
            } else {
                assert(after.available[j] == ended[j - n]);
                assert(self.finishing(frames).contains(ended[j - n]));
            }
        }
        assert forall|s: usize|
            s < after.voices.len() && !after.playing.contains(s) implies #[trigger] after.available.contains(
            s,
        ) by {
            if self.playing.contains(s) {
                assert(self.finishing(frames).contains(s));
                assert(ended.contains(s));
                let m = choose|m: int| 0 <= m < ended.len() && ended[m] == s;
                assert(after.available[n + m] == s);
            } else {
                assert(self.available.contains(s));
                let m = choose|m: int| 0 <= m < self.available.len() && self.available[m] == s;
                assert(after.available[m] == s);
            }
        }
    }
}

} // verus!
