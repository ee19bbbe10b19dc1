//! The ping-pong echo: a feedback delay that swaps the two channels with each
//! repeat.

use vstd::prelude::*;
use vstd::std_specs::ops::{AddSpec, MulSpec, SubSpec};
use core::ops::{Add, Mul, Sub};
use crate::signal::Signal;

verus! {

/// An echo line. The echo of a frame comes `time` frames after it, and the
/// output goes on for `tail` frames after the source ended; `wet_dry` is the
/// weight of the source in the echoed part of the output, `feedback` the
/// factor by which each repeat is weaker than the one before it.
#[derive(Clone, Copy, Debug)]
pub struct Delay<S> {
    pub time: usize,
    pub tail: usize,
    pub wet_dry: S,
    pub feedback: S,
}

/// A source as it goes through an echo line: the frames of the source, the
/// line, and the samples that stand for one and for silence.
pub struct Echo<S> {
    pub source: Seq<[S; 2]>,
    pub delay: Delay<S>,
    pub one: S,
    pub silence: S,
}

impl<S: Copy + Add<Output = S> + Sub<Output = S> + Mul<Output = S>> Echo<S> {
    /// The source at frame `frame`: silence after its end.
    pub open spec fn dry(self, frame: int, channel: int) -> S {
        if 0 <= frame < self.source.len() {
            self.source[frame][channel]
        } else {
            self.silence
        }
    }

    /// The echoed part of output frame `frame`: the source by its weight, and
    /// what comes back from the frame `time` frames earlier, which is the
    /// echoed part of that frame on the other channel, by the feedback.
    /// Before the first echo is due, and throughout on a line with a delay of
    /// no frames, silence comes back.
    pub open spec fn wet(self, frame: int, channel: int) -> S
        decreases frame,
    {
        let fresh = self.delay.wet_dry.mul_spec(self.dry(frame, channel));
        if self.delay.time > 0 && frame >= self.delay.time {
            fresh.add_spec(
                self.delay.feedback.mul_spec(self.wet(frame - self.delay.time, 1 - channel)),
            )
        } else {
            fresh.add_spec(self.silence)
        }
    }

    /// Output frame `frame`: the source by the weight that `wet_dry` leaves,
    /// and the echoed part.
    pub open spec fn output(self, frame: int, channel: int) -> S {
        self.one.sub_spec(self.delay.wet_dry).mul_spec(self.dry(frame, channel)).add_spec(
            self.wet(frame, channel),
        )
    }

    /// What slot `slot` of the circular buffer holds before output frame
    /// `frame` is made: what the last frame that wrote it left there.
    pub open spec fn held(self, frame: nat, slot: nat, channel: int) -> S {
        match last_write(self.delay.time as nat, frame, slot) {
            Some(writer) => self.delay.feedback.mul_spec(self.wet(writer as int, 1 - channel)),
            None => self.silence,
        }
    }
}

/// `frames` are what comes out of an echo line: as many frames as the source
/// and the tail have together, each the output of the echo at its index.
pub open spec fn echoes<S: Copy + Add<Output = S> + Sub<Output = S> + Mul<Output = S>>(
    frames: Seq<[S; 2]>,
    echo: Echo<S>,
) -> bool {
    &&& frames.len() == echo.source.len() + echo.delay.tail
    &&& forall|frame: int, channel: int|
        0 <= frame < frames.len() && 0 <= channel < 2 ==> #[trigger] frames[frame][channel]
            == echo.output(frame, channel)
}

/// What goes into an echo line decides what comes out: two runs of frames
/// that both come out of one line for one source are the same.
pub proof fn lemma_echo_is_determined<S: Copy + Add<Output = S> + Sub<Output = S> + Mul<Output = S>>(
    a: Seq<[S; 2]>,
    b: Seq<[S; 2]>,
    echo: Echo<S>,
)
    requires
        echoes(a, echo),
        echoes(b, echo),
    ensures
        a == b,
{
    assert forall|i: int| 0 <= i < a.len() implies a[i] == b[i] by {
        assert forall|channel: int| 0 <= channel < 2 implies a[i][channel] == b[i][channel] by {
            assert(a[i][channel] == echo.output(i, channel));
        }
        assert(a[i] =~= b[i]);
    }
    assert(a =~= b);
}

impl<S> Delay<S> {
    /// Whether a source of `source_length` frames can be sent through the
    /// line: the source and the tail together must have a length that can be
    /// counted. The delay time does not matter.
    pub open spec fn takes(self, source_length: nat) -> bool {
        source_length + self.tail <= usize::MAX
    }

    /// The number of frames that come out for a source of `source_length`
    /// frames: the source and the tail, whatever the delay time.
    pub fn output_length(&self, source_length: usize) -> (length: Option<usize>)
        ensures
            length is Some <==> self.takes(source_length as nat),
            length matches Some(frames) ==> frames == source_length + self.tail,
    {
        source_length.checked_add(self.tail)
    }
}

impl<S: Copy + Add<Output = S> + Sub<Output = S> + Mul<Output = S>> Signal<S> {
    /// Sends the signal through an echo line. The result is as long as the
    /// signal and the tail of the line together, and holds the output of the
    /// echo frame by frame. A line with a delay of no frames has nothing to
    /// hold an echo in: nothing comes back, and what comes out is the source
    /// by its weights, and silence for the tail. There is no result only where
    /// the signal and the tail together are longer than can be counted.
    pub fn with_delay(self, delay: &Delay<S>, one: S, silence: S) -> (echoed: Option<Signal<S>>)
        requires
            crate::signal::adds::<S>(),
            crate::signal::subtracts::<S>(),
            crate::signal::multiplies::<S>(),
        ensures
            echoed is Some <==> delay.takes(self@.len()),
            echoed matches Some(signal) ==> {
                &&& signal@.len() == self@.len() + delay.tail
                &&& signal.rate() == self.rate()
                &&& S::obeys_add_spec() && S::obeys_sub_spec() && S::obeys_mul_spec() ==> echoes(
                    signal@,
                    Echo { source: self@, delay: *delay, one, silence },
                )
            },
    {
        let ghost echo = Echo { source: self@, delay: *delay, one, silence };
        let ghost exact = S::obeys_add_spec() && S::obeys_sub_spec() && S::obeys_mul_spec();
        let source_length = self.len();
        let dest_length = match delay.output_length(source_length) {
            Some(frames) => frames,
            None => {
                return None;
            },
        };
        let wet_ratio = delay.wet_dry;
        let dry_ratio = one - delay.wet_dry;
        let feedback = delay.feedback;
        let delay_length = delay.time;
        let mut delay_buffer: Vec<[S; 2]> = Vec::new();
        let mut filled: usize = 0;
        while filled < delay_length
            invariant
                filled <= delay_length,
                delay_buffer@.len() == filled,
                forall|slot: int, channel: int|
                    0 <= slot < filled && 0 <= channel < 2 ==> #[trigger] delay_buffer@[slot][channel]
                        == silence,
            decreases delay_length - filled,
        {
            delay_buffer.push([silence, silence]);
            filled += 1;
        }
        let mut dest_buffer: Vec<[S; 2]> = Vec::new();
        let mut i: usize = 0;
        while i < dest_length
            invariant
                crate::signal::adds::<S>(),
                crate::signal::multiplies::<S>(),
                echo == (Echo { source: self@, delay: *delay, one, silence }),
                exact == (S::obeys_add_spec() && S::obeys_sub_spec() && S::obeys_mul_spec()),
                source_length == self@.len(),
                delay_length == delay.time,
                wet_ratio == delay.wet_dry,
                feedback == delay.feedback,
                exact ==> dry_ratio == one.sub_spec(delay.wet_dry),
                i <= dest_length,
                dest_buffer@.len() == i,
                delay_buffer@.len() == delay_length,
                exact ==> forall|frame: int, channel: int|
                    0 <= frame < i && 0 <= channel < 2 ==> #[trigger] dest_buffer@[frame][channel]
                        == echo.output(frame, channel),
                exact ==> forall|slot: int, channel: int|
                    0 <= slot < delay_length && 0 <= channel < 2
                        ==> #[trigger] delay_buffer@[slot][channel] == echo.held(
                        i as nat,
                        slot as nat,
                        channel,
                    ),
            decreases dest_length - i,
        {
            let src = if i < source_length {
                self.frames()[i]
            } else {
                [silence, silence]
            };
            let tram_ptr = if delay_length > 0 {
                i % delay_length
            } else {
                0
            };
            let delay_effect = if delay_length > 0 {
                delay_buffer[tram_ptr]
            } else {
                [silence, silence]
            };
            let wet = [wet_ratio * src[0] + delay_effect[0], wet_ratio * src[1] + delay_effect[1]];
            dest_buffer.push([dry_ratio * src[0] + wet[0], dry_ratio * src[1] + wet[1]]);
            if delay_length > 0 {
                delay_buffer[tram_ptr] = [feedback * wet[1], feedback * wet[0]];
            }
            proof {
                if delay_length > 0 {
                    lemma_last_write(delay_length as nat, i as nat);
                }
                if exact {
                    assert forall|channel: int| 0 <= channel < 2 implies wet[channel] == echo.wet(
                        i as int,
                        channel,
                    ) by {
                        assert(src[channel] == echo.dry(i as int, channel));
                        if delay_length > 0 {
                            assert(delay_effect[channel] == echo.held(
                                i as nat,
                                tram_ptr as nat,
                                channel,
                            ));
                        }
                    }
                    assert forall|slot: int, channel: int|
                        0 <= slot < delay_length && 0 <= channel < 2
                            implies #[trigger] delay_buffer@[slot][channel] == echo.held(
                        (i + 1) as nat,
                        slot as nat,
                        channel,
                    ) by {
                        if slot != tram_ptr {
                            assert(echo.held((i + 1) as nat, slot as nat, channel) == echo.held(
                                i as nat,
                                slot as nat,
                                channel,
                            ));
                        }
                    }
                }
            }
            i += 1;
        }
        Some(Signal::new(self.sample_rate(), dest_buffer))
    }
}

/// The slot of a circular buffer of `time` slots that output frame `frame`
/// reads and writes back.
pub open spec fn slot_of(time: nat, frame: nat) -> nat {
    frame % time
}

/// The last of the output frames before frame `frame` that wrote `slot` of a
/// circular buffer of `time` slots.
pub open spec fn last_write(time: nat, frame: nat, slot: nat) -> Option<nat>
    decreases frame,
{
    if frame == 0 {
        None
    } else if slot_of(time, (frame - 1) as nat) == slot {
        Some((frame - 1) as nat)
    } else {
        last_write(time, (frame - 1) as nat, slot)
    }
}

/// Among the frames before `frame`, the last that wrote `slot` is the last
/// among the frames from `from` on, if one of those wrote it.
proof fn lemma_last_write_from(time: nat, from: nat, frame: nat, slot: nat)
    requires
        time > 0,
        from <= frame,
        forall|j: nat| from <= j < frame ==> slot_of(time, j) != slot,
    ensures
        last_write(time, frame, slot) == last_write(time, from, slot),
    decreases frame - from,
{
    if from < frame {
        lemma_last_write_from(time, from, (frame - 1) as nat, slot);
    }
}

/// In a circular buffer of `time` slots, the slot that frame `frame` uses was
/// last written exactly `time` frames before, or never.
pub proof fn lemma_last_write(time: nat, frame: nat)
    requires
        time > 0,
    ensures
        last_write(time, frame, frame % time) == (if frame >= time {
            Some((frame - time) as nat)
        } else {
            None
        }),
{
    let slot = frame % time;
    if frame >= time {
        let from = (frame - time + 1) as nat;
        assert forall|j: nat| from <= j < frame implies slot_of(time, j) != slot by {
            lemma_apart(time, j, frame);
        }
        lemma_last_write_from(time, from, frame, slot);
        assert((frame - time) as nat % time == slot) by {
            lemma_one_turn(time, frame);
        }
    } else {
        assert forall|j: nat| 0 <= j < frame implies slot_of(time, j) != slot by {
            lemma_apart(time, j, frame);
        }
        lemma_last_write_from(time, 0, frame, slot);
    }
}

/// Two frames less than `time` apart use different slots.
proof fn lemma_apart(time: nat, a: nat, b: nat)
    requires
        time > 0,
        a < b < a + time,
    ensures
        a % time != b % time,
{
    if a % time == b % time {
        let qa = a / time;
        let qb = b / time;
        assert(a == time * qa + a % time) by (nonlinear_arith)
            requires
                time > 0,
                qa == a / time,
        ;
        assert(b == time * qb + b % time) by (nonlinear_arith)
            requires
                time > 0,
                qb == b / time,
        ;
        assert(b - a == time * (qb - qa)) by (nonlinear_arith)
            requires
                a == time * qa + a % time,
                b == time * qb + b % time,
                a % time == b % time,
        ;
        assert(false) by (nonlinear_arith)
            requires
                b - a == time * (qb - qa),
                0 < b - a < time,
        ;
    }
}

/// A frame and the frame `time` frames after it use the same slot.
proof fn lemma_one_turn(time: nat, frame: nat)
    requires
        time > 0,
        frame >= time,
    ensures
        (frame - time) as nat % time == frame % time,
{
    vstd::arithmetic::div_mod::lemma_mod_sub_multiples_vanish(frame as int, time as int);
}

} // verus!
