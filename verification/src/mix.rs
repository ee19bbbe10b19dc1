//! Additive mixing of wavetable frames into an output buffer.

use vstd::prelude::*;
use vstd::std_specs::ops::AddSpec;
use core::ops::Add;
use crate::pool::Segment;

verus! {

/// Sample `channel` of output frame `frame` when the segments of `plan` are
/// mixed: silence, to which each segment that reaches the frame adds its
/// sample, the first segment first.
pub open spec fn mixed_sample<S: Copy + Add<Output = S>>(
    plan: Seq<Segment>,
    table: Seq<Seq<[S; 2]>>,
    silence: S,
    frame: int,
    channel: int,
) -> S
    decreases plan.len(),
{
    if plan.len() == 0 {
        silence
    } else {
        let below = mixed_sample(plan.drop_last(), table, silence, frame, channel);
        let segment = plan.last();
        if frame < segment.frames {
            below.add_spec(table[segment.signal as int][segment.start + frame][channel])
        } else {
            below
        }
    }
}

/// Fills the buffer with silence.
pub fn silence_all<S: Copy>(buffer: &mut [[S; 2]], silence: S)
    ensures
        final(buffer)@.len() == old(buffer)@.len(),
        forall|frame: int, channel: int|
            0 <= frame < final(buffer)@.len() && 0 <= channel < 2 ==> #[trigger] final(buffer)@[frame][channel] == silence,
{
    let n = buffer.len();
    let mut k: usize = 0;
    while k < n
        invariant
            buffer@.len() == n,
            k <= n,
            forall|frame: int, channel: int|
                0 <= frame < k && 0 <= channel < 2 ==> #[trigger] buffer@[frame][channel]
                    == silence,
        decreases n - k,
    {
        buffer[k] = [silence, silence];
        k += 1;
    }
}

/// Adds `len` frames of `frames`, from frame `start` on, to the first `len`
/// frames of the buffer, sample by sample. The rest of the buffer stays as it
/// is.
pub fn mix_segment<S: Copy + Add<Output = S>>(
    buffer: &mut [[S; 2]],
    frames: &Vec<[S; 2]>,
    start: usize,
    len: usize,
)
    requires
        crate::signal::adds::<S>(),
        len <= old(buffer)@.len(),
        start + len <= frames@.len(),
    ensures
        final(buffer)@.len() == old(buffer)@.len(),
        S::obeys_add_spec() ==> forall|frame: int, channel: int|
            0 <= frame < len && 0 <= channel < 2 ==> #[trigger] final(buffer)@[frame][channel]
                == old(buffer)@[frame][channel].add_spec(frames@[start + frame][channel]),
        forall|frame: int|
            len <= frame < final(buffer)@.len() ==> #[trigger] final(buffer)@[frame] == old(buffer)@[frame],
{
    let ghost before = buffer@;
    let available = frames.len();
    let mut idx: usize = 0;
    while idx < len
        invariant
            crate::signal::adds::<S>(),
            available == frames@.len(),
            idx <= len,
            len <= buffer@.len(),
            buffer@.len() == before.len(),
            start + len <= frames@.len(),
            S::obeys_add_spec() ==> forall|frame: int, channel: int|
                0 <= frame < idx && 0 <= channel < 2 ==> #[trigger] buffer@[frame][channel]
                    == before[frame][channel].add_spec(frames@[start + frame][channel]),
            forall|frame: int|
                idx <= frame < buffer@.len() ==> #[trigger] buffer@[frame] == before[frame],
        decreases len - idx,
    {
        let out = buffer[idx];
        let add = frames[start + idx];
        buffer[idx] = [out[0] + add[0], out[1] + add[1]];
        idx += 1;
    }
}

} // verus!
