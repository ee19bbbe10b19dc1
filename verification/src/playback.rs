//! What holds of the voice pool over many requests: how many voices a run of
//! triggers starts, what a pull is mixed from, and when a voice gives up its
//! slot.

use vstd::prelude::*;
use vstd::std_specs::ops::AddSpec;
use core::ops::Add;
use crate::effect::SoundEffect;
use crate::pool::{Pool, Segment};

verus! {

/// The frames that a run of pulls asks for, all together.
pub open spec fn total_frames(pulls: Seq<usize>) -> int
    decreases pulls.len(),
{
    if pulls.len() == 0 {
        0
    } else {
        total_frames(pulls.drop_last()) + pulls.last()
    }
}

impl Pool {
    /// The engine after one trigger for each of `effects`, in their order.
    pub open spec fn after_triggers(self, effects: Seq<SoundEffect>) -> Pool
        decreases effects.len(),
    {
        if effects.len() == 0 {
            self
        } else {
            self.after_triggers(effects.drop_last()).trigger(effects.last())
        }
    }

    /// The engine after one pull for each of `pulls`, in their order.
    pub open spec fn after_pulls(self, pulls: Seq<usize>) -> Pool
        decreases pulls.len(),
    {
        if pulls.len() == 0 {
            self
        } else {
            self.after_pulls(pulls.drop_last()).pull(pulls.last())
        }
    }

    /// Polyphony is bounded by the pool. A run of triggers for mapped effects
    /// starts one voice for each trigger while a slot is free, and none after
    /// that: with no slot free a trigger changes nothing at all. Throughout,
    /// the voices that play and the free slots together are as many as before.
    pub proof fn lemma_triggers_fill_the_pool(self, effects: Seq<SoundEffect>)
        requires
            self.wf(),
            forall|i: int| 0 <= i < effects.len() ==> self.effects.contains_key(#[trigger] effects[i]),
        ensures
            self.after_triggers(effects).wf(),
            self.after_triggers(effects).effects == self.effects,
            self.after_triggers(effects).lengths == self.lengths,
            self.after_triggers(effects).playing.len() == self.playing.len() + crate::voice::min_int(
                effects.len() as int,
                self.available.len() as int,
            ),
            self.after_triggers(effects).available.len() == self.available.len() - crate::voice::min_int(
                effects.len() as int,
                self.available.len() as int,
            ),
            forall|effect: SoundEffect|
                effects.len() >= self.available.len() ==> #[trigger] self.after_triggers(effects).trigger(
                    effect,
                ) == self.after_triggers(effects),
        decreases effects.len(),
    {
        if effects.len() > 0 {
            let front = effects.drop_last();
            assert forall|i: int| 0 <= i < front.len() implies self.effects.contains_key(
                #[trigger] front[i],
            ) by {
                assert(front[i] == effects[i]);
            }
            self.lemma_triggers_fill_the_pool(front);
            let before = self.after_triggers(front);
            before.lemma_trigger_wf(effects.last());
            assert(before.effects.contains_key(effects[effects.len() - 1]));
            if before.available.len() > 0 {
                let top = before.available.len() - 1;
                assert(!before.playing.contains(before.available[top]));
            }
        }
    }

    /// On an engine in which nothing plays yet, as many triggers for mapped
    /// effects as there are slots leave exactly that many voices playing, and
    /// one more trigger changes nothing.
    pub proof fn lemma_fresh_pool_capacity(
        names: Seq<SoundEffect>,
        lengths: Seq<usize>,
        max_voices: usize,
        effects: Seq<SoundEffect>,
        extra: SoundEffect,
    )
        requires
            names.len() == lengths.len(),
            names.len() <= usize::MAX,
            effects.len() == max_voices,
            forall|i: int| 0 <= i < effects.len() ==> names.contains(#[trigger] effects[i]),
        ensures
            Pool::fresh(names, lengths, max_voices).after_triggers(effects).playing.len()
                == max_voices,
            Pool::fresh(names, lengths, max_voices).after_triggers(effects).trigger(extra)
                == Pool::fresh(names, lengths, max_voices).after_triggers(effects),
    {
        let pool = Pool::fresh(names, lengths, max_voices);
        Pool::lemma_fresh_wf(names, lengths, max_voices);
        crate::pool::lemma_effect_map(names);
        assert forall|i: int| 0 <= i < effects.len() implies pool.effects.contains_key(
            #[trigger] effects[i],
        ) by {
            assert(names.contains(effects[i]));
            let k = choose|k: int| 0 <= k < names.len() && names[k] == effects[i];
            assert(pool.effects.contains_key(names[k]));
        }
        pool.lemma_triggers_fill_the_pool(effects);
    }

    /// A pull is mixed from the playing voices and from nothing else: the plan
    /// holds one segment for each playing slot, in the order of the slots, and
    /// the segment of a slot starts at its voice's cursor, lies within the
    /// voice's signal and is no longer than the pull. So frame `k` of the
    /// output is the sum, slot by slot, of frame `position + k` of each playing
    /// voice that has such a frame.
    pub proof fn lemma_mix_plan(self, frames: usize)
        requires
            self.wf(),
        ensures
            self.mix_plan(frames).len() == self.playing.len(),
            forall|i: int, j: int|
                0 <= i < j < self.mix_plan(frames).len() ==> self.mix_plan(frames)[i].slot
                    < self.mix_plan(frames)[j].slot,
            forall|i: int|
                0 <= i < self.mix_plan(frames).len() ==> {
                    let segment = #[trigger] self.mix_plan(frames)[i];
                    let voice = self.voices[segment.slot as int];
                    &&& self.playing.contains(segment.slot)
                    &&& voice.signal == Some(segment.signal)
                    &&& segment.signal < self.lengths.len()
                    &&& segment.start == voice.position
                    &&& segment.frames == crate::voice::min_int(frames as int, voice.length - voice.position)
                    &&& segment.start + segment.frames <= self.lengths[segment.signal as int]
                },
            forall|slot: usize| #[trigger]
                self.playing.contains(slot) ==> exists|i: int|
                    0 <= i < self.mix_plan(frames).len() && #[trigger] self.mix_plan(frames)[i]
                        == self.segment(slot, frames),
    {
        let slots = self.playing_slots();
        crate::pool::lemma_slots_below(self.playing, self.voices.len());
        crate::pool::lemma_slots_below_len(self.playing, self.voices.len());
        assert forall|i: int| 0 <= i < self.mix_plan(frames).len() implies {
            let segment = #[trigger] self.mix_plan(frames)[i];
            let voice = self.voices[segment.slot as int];
            &&& self.playing.contains(segment.slot)
            &&& voice.signal == Some(segment.signal)
            &&& segment.signal < self.lengths.len()
            &&& segment.start == voice.position
            &&& segment.frames == crate::voice::min_int(frames as int, voice.length - voice.position)
            &&& segment.start + segment.frames <= self.lengths[segment.signal as int]
        } by {
            assert(self.playing.contains(slots[i]));
            assert(self.plays(slots[i]));
        }
        assert forall|slot: usize| #[trigger] self.playing.contains(slot) implies exists|i: int|
            0 <= i < self.mix_plan(frames).len() && #[trigger] self.mix_plan(frames)[i]
                == self.segment(slot, frames) by {
            assert(slots.contains(slot));
            let i = choose|i: int| 0 <= i < slots.len() && slots[i] == slot;
            assert(self.mix_plan(frames)[i] == self.segment(slot, frames));
        }
    }

    /// What one pull does to one playing voice. The voice goes on playing, `frames`
    /// frames further, if that leaves at least one frame of its signal; else its
    /// slot is free afterwards and holds no signal.
    pub proof fn lemma_pull_playing_slot(self, frames: usize, slot: usize)
        requires
            self.wf(),
            self.playing.contains(slot),
        ensures
            self.pull(frames).playing.contains(slot) <==> frames < self.voices[slot as int].frames_left(),
            self.pull(frames).playing.contains(slot) ==> self.pull(frames).voices[slot as int] == (
            crate::voice::Voice {
                position: (self.voices[slot as int].position + frames) as usize,
                ..self.voices[slot as int]
            }),
            !self.pull(frames).playing.contains(slot) ==> self.pull(frames).available.contains(slot)
                && self.pull(frames).voices[slot as int].signal is None,
    {
        self.lemma_pull_wf(frames);
        assert(self.plays(slot));
    }

    /// A pull leaves a free slot free.
    pub proof fn lemma_pull_free_slot(self, frames: usize, slot: usize)
        requires
            self.wf(),
            self.available.contains(slot),
        ensures
            self.pull(frames).available.contains(slot),
            !self.pull(frames).playing.contains(slot),
            self.pull(frames).voices[slot as int] == self.voices[slot as int],
    {
        let i = choose|i: int| 0 <= i < self.available.len() && self.available[i] == slot;
        assert(self.pull(frames).available[i] == slot);
        assert(!self.playing.contains(self.available[i]));
    }

    /// A voice plays its signal to the end and then gives up its slot. Over a
    /// run of pulls, a playing voice with `left` frames to go is still playing
    /// after the run if and only if the pulls asked for fewer than `left`
    /// frames in all; it has then moved on by exactly that many frames.
    /// Otherwise its slot is free again. Applied to the runs that end with one
    /// pull and with the pull before it, this says that the voice stops on the
    /// very pull that brings the total to `left`.
    pub proof fn lemma_voice_plays_to_the_end(self, pulls: Seq<usize>, slot: usize)
        requires
            self.wf(),
            self.playing.contains(slot),
            pulls.len() > 0,
        ensures
            self.after_pulls(pulls).wf(),
            self.after_pulls(pulls).playing.contains(slot) <==> total_frames(pulls)
                < self.voices[slot as int].frames_left(),
            self.after_pulls(pulls).playing.contains(slot) ==> self.after_pulls(pulls).voices[slot as int]
                == (crate::voice::Voice {
                position: (self.voices[slot as int].position + total_frames(pulls)) as usize,
                ..self.voices[slot as int]
            }),
            !self.after_pulls(pulls).playing.contains(slot) ==> self.after_pulls(pulls).available.contains(
                slot,
            ) && self.after_pulls(pulls).voices[slot as int].signal is None,
        decreases pulls.len(),
    {
        let front = pulls.drop_last();
        let last = pulls.last();
        lemma_total_frames_nonnegative(front);
        assert(self.plays(slot));
        if front.len() == 0 {
            assert(self.after_pulls(front) == self);
            assert(total_frames(front) == 0);
            self.lemma_pull_wf(last);
            self.lemma_pull_playing_slot(last, slot);
        } else {
            self.lemma_voice_plays_to_the_end(front, slot);
            let before = self.after_pulls(front);
            before.lemma_pull_wf(last);
            if before.playing.contains(slot) {
                before.lemma_pull_playing_slot(last, slot);
            } else {
                before.lemma_pull_free_slot(last, slot);
            }
        }
    }
}

/// Sample `channel` of output frame `frame` as the sum over the playing
/// voices: silence, to which each playing voice in a slot below `upto` that
/// has a frame `frame` frames after its cursor adds the sample of that frame,
/// the lowest slot first.
pub open spec fn voices_sum<S: Copy + Add<Output = S>>(
    pool: Pool,
    table: Seq<Seq<[S; 2]>>,
    silence: S,
    upto: nat,
    frame: int,
    channel: int,
) -> S
    decreases upto,
{
    if upto == 0 {
        silence
    } else {
        let below = voices_sum(pool, table, silence, (upto - 1) as nat, frame, channel);
        let slot = (upto - 1) as usize;
        let voice = pool.voices[slot as int];
        if pool.playing.contains(slot) && voice.position + frame < voice.length {
            below.add_spec(table[voice.signal->Some_0 as int][voice.position + frame][channel])
        } else {
            below
        }
    }
}

/// What the mix plan of a pull adds up to, below a bound of slots, is the sum
/// over the playing voices below that bound.
proof fn lemma_plan_sums_voices<S: Copy + Add<Output = S>>(
    pool: Pool,
    table: Seq<Seq<[S; 2]>>,
    silence: S,
    frames: usize,
    upto: nat,
    frame: int,
    channel: int,
)
    requires
        pool.wf(),
        upto <= pool.voices.len(),
        0 <= frame < frames,
    ensures
        crate::mix::mixed_sample(
            crate::pool::slots_below(pool.playing, upto).map_values(
                |slot: usize| pool.segment(slot, frames),
            ),
            table,
            silence,
            frame,
            channel,
        ) == voices_sum(pool, table, silence, upto, frame, channel),
    decreases upto,
{
    let to_segment = |slot: usize| pool.segment(slot, frames);
    if upto > 0 {
        let slot = (upto - 1) as usize;
        let rest = crate::pool::slots_below(pool.playing, (upto - 1) as nat);
        lemma_plan_sums_voices(pool, table, silence, frames, (upto - 1) as nat, frame, channel);
        if pool.playing.contains(slot) {
            assert(pool.plays(slot));
            let plan = rest.push(slot).map_values(to_segment);
            assert(plan.drop_last() =~= rest.map_values(to_segment));
            assert(plan.last() == pool.segment(slot, frames));
        }
    } else {
        assert(crate::pool::slots_below(pool.playing, upto).map_values(to_segment) =~= Seq::<
            Segment,
        >::empty());
    }
}

/// A pull is the sum of what plays. Each sample of each output frame of a
/// pull is what the playing voices add up to at that frame: silence, and then,
/// slot by slot from the lowest, the sample `frame` frames after the cursor of
/// each playing voice whose signal reaches that far. What the buffer held
/// before does not enter.
pub proof fn lemma_mix_is_the_sum_of_the_voices<S: Copy + Add<Output = S>>(
    pool: Pool,
    table: Seq<Seq<[S; 2]>>,
    silence: S,
    frames: usize,
    frame: int,
    channel: int,
)
    requires
        pool.wf(),
        0 <= frame < frames,
    ensures
        crate::mix::mixed_sample(pool.mix_plan(frames), table, silence, frame, channel)
            == voices_sum(pool, table, silence, pool.voices.len(), frame, channel),
{
    lemma_plan_sums_voices(pool, table, silence, frames, pool.voices.len(), frame, channel);
}

/// Silence added to a sample leaves the sample as it is.
pub open spec fn silence_is_neutral<S: Copy + Add<Output = S>>(silence: S) -> bool {
    forall|sample: S| #[trigger] silence.add_spec(sample) == sample
}

/// The first voice plays alone, from end to end. On an engine in which
/// nothing plays yet, a trigger for a mapped effect starts its signal in slot
/// 0. The next pull is mixed from that one voice: each frame that the signal
/// reaches holds silence plus the frame of the signal at the same index, which
/// is the frame of the signal itself where silence is neutral, and the frames
/// after that hold silence. If the pull is as long as the signal, nothing
/// plays afterwards and every slot is free again.
pub proof fn lemma_first_voice_plays_alone<S: Copy + Add<Output = S>>(
    names: Seq<SoundEffect>,
    table: Seq<Seq<[S; 2]>>,
    max_voices: usize,
    effect: SoundEffect,
    silence: S,
    frames: usize,
)
    requires
        names.len() == table.len(),
        names.len() <= usize::MAX,
        forall|i: int| 0 <= i < table.len() ==> (#[trigger] table[i]).len() <= usize::MAX,
        max_voices > 0,
        names.contains(effect),
    ensures
        ({
            let lengths = table.map_values(|signal: Seq<[S; 2]>| signal.len() as usize);
            let pool = Pool::fresh(names, lengths, max_voices).trigger(effect);
            let signal = crate::pool::effect_map(names)[effect];
            let given = crate::voice::min_int(frames as int, table[signal as int].len() as int);
            &&& signal < table.len()
            &&& pool.wf()
            &&& pool.playing == set![0usize]
            &&& pool.mix_plan(frames) == seq![
                Segment { slot: 0, signal, start: 0, frames: given as usize },
            ]
            &&& forall|frame: int, channel: int|
                0 <= frame < given && 0 <= channel < 2 ==> #[trigger] crate::mix::mixed_sample(
                    pool.mix_plan(frames),
                    table,
                    silence,
                    frame,
                    channel,
                ) == silence.add_spec(table[signal as int][frame][channel])
            &&& silence_is_neutral(silence) ==> forall|frame: int, channel: int|
                0 <= frame < given && 0 <= channel < 2 ==> #[trigger] crate::mix::mixed_sample(
                    pool.mix_plan(frames),
                    table,
                    silence,
                    frame,
                    channel,
                ) == table[signal as int][frame][channel]
            &&& forall|frame: int, channel: int|
                given <= frame ==> #[trigger] crate::mix::mixed_sample(
                    pool.mix_plan(frames),
                    table,
                    silence,
                    frame,
                    channel,
                ) == silence
            &&& frames >= table[signal as int].len() ==> pool.pull(frames).playing
                == Set::<usize>::empty() && pool.pull(frames).available.len() == max_voices
        }),
{
    let lengths = table.map_values(|signal: Seq<[S; 2]>| signal.len() as usize);
    let fresh = Pool::fresh(names, lengths, max_voices);
    let pool = fresh.trigger(effect);
    let signal = crate::pool::effect_map(names)[effect];
    Pool::lemma_fresh_wf(names, lengths, max_voices);
    crate::pool::lemma_effect_map(names);
    let at = choose|at: int| 0 <= at < names.len() && names[at] == effect;
    assert(fresh.effects.contains_key(names[at]));
    fresh.lemma_trigger_wf(effect);
    assert(fresh.available[max_voices - 1] == 0);
    assert(pool.playing =~= set![0usize]);
    let slots = seq![0usize];
    assert(slots[0] == 0);
    assert forall|slot: usize| pool.playing.contains(slot) implies slots.contains(slot) by {
        assert(slots[0] == slot);
    }
    crate::pool::lemma_ascending_is_slots_below(slots, pool.playing, max_voices as nat);
    let given = crate::voice::min_int(frames as int, table[signal as int].len() as int);
    let segment = Segment { slot: 0, signal, start: 0, frames: given as usize };
    assert(pool.segment(0, frames) == segment);
    let plan = pool.mix_plan(frames);
    assert(plan =~= seq![segment]);
    assert(plan.drop_last() =~= Seq::<Segment>::empty());
    assert forall|frame: int, channel: int| true implies #[trigger] crate::mix::mixed_sample(
        plan,
        table,
        silence,
        frame,
        channel,
    ) == (if frame < given {
        silence.add_spec(table[signal as int][frame][channel])
    } else {
        silence
    }) by {
        assert(crate::mix::mixed_sample(plan.drop_last(), table, silence, frame, channel) == silence);
    }
    if frames >= table[signal as int].len() {
        let after = pool.pull(frames);
        assert(pool.finishing(frames) =~= set![0usize]);
        assert(after.playing =~= Set::<usize>::empty());
        crate::pool::lemma_ascending_is_slots_below(slots, pool.finishing(frames), max_voices as nat);
    }
}

/// A run of pulls asks for no fewer than zero frames.
pub proof fn lemma_total_frames_nonnegative(pulls: Seq<usize>)
    ensures
        total_frames(pulls) >= 0,
    decreases pulls.len(),
{
    if pulls.len() > 0 {
        lemma_total_frames_nonnegative(pulls.drop_last());
    }
}

} // verus!
