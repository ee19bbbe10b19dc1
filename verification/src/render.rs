//! Rendering: an oscillator, an envelope and a pan, sampled at the instants
//! of a timeline, make the frames of a signal.

use vstd::prelude::*;
use vstd::std_specs::ops::{MulSpec, SubSpec};
use core::ops::{Add, Div, Mul, Sub};
use crate::envelope::Envelope;
use crate::signal::Signal;
use crate::waveform::Oscillator;

verus! {

/// One instant of a timeline: the time since the start of the sound, the
/// phase of the oscillator at that time, and the cosines and sines of that
/// phase, from the first harmonic on.
#[derive(Clone, Debug)]
pub struct Instant<S> {
    pub t: S,
    pub phase: S,
    pub cosines: Vec<S>,
    pub sines: Vec<S>,
}

/// The value of the sound at an instant, before it is spread over the
/// channels: the sample of the oscillator by the gain of the envelope.
pub open spec fn value_at<
    S: Copy + Add<Output = S> + Sub<Output = S> + Mul<Output = S> + Div<Output = S> + PartialOrd,
>(oscillator: Oscillator<S>, envelope: Envelope<S>, instant: Instant<S>, zero: S, one: S) -> S {
    oscillator.tone.amplitude.mul_spec(
        oscillator.waveform.sample_of(instant.phase, instant.cosines@, instant.sines@, zero, one),
    ).mul_spec(envelope.gain_of(oscillator.tone.duration, instant.t, zero, one))
}

/// Every instant of the timeline brings the cosines and sines that the
/// oscillator's waveform takes.
pub open spec fn serves<S: Copy>(timeline: Seq<Instant<S>>, oscillator: Oscillator<S>) -> bool {
    forall|i: int|
        0 <= i < timeline.len() ==> oscillator.waveform.served_by(
            (#[trigger] timeline[i]).cosines@.len(),
            timeline[i].sines@.len(),
        )
}

/// `frames` are the frames of a sound along a timeline: one frame for each
/// instant, which holds the value of the sound at that instant, spread over
/// the two channels by a linear pan.
pub open spec fn renders<
    S: Copy + Add<Output = S> + Sub<Output = S> + Mul<Output = S> + Div<Output = S> + PartialOrd,
>(
    frames: Seq<[S; 2]>,
    oscillator: Oscillator<S>,
    envelope: Envelope<S>,
    pan: S,
    timeline: Seq<Instant<S>>,
    zero: S,
    one: S,
) -> bool {
    &&& frames.len() == timeline.len()
    &&& forall|i: int, channel: int|
        0 <= i < timeline.len() && 0 <= channel < 2 ==> #[trigger] frames[i][channel]
            == crate::signal::panned_sample(
            value_at(oscillator, envelope, timeline[i], zero, one),
            pan,
            one,
            channel,
        )
}

/// What is rendered decides the rendering: two runs of frames that are both
/// the frames of one sound along one timeline are the same.
pub proof fn lemma_rendering_is_determined<
    S: Copy + Add<Output = S> + Sub<Output = S> + Mul<Output = S> + Div<Output = S> + PartialOrd,
>(
    a: Seq<[S; 2]>,
    b: Seq<[S; 2]>,
    oscillator: Oscillator<S>,
    envelope: Envelope<S>,
    pan: S,
    timeline: Seq<Instant<S>>,
    zero: S,
    one: S,
)
    requires
        renders(a, oscillator, envelope, pan, timeline, zero, one),
        renders(b, oscillator, envelope, pan, timeline, zero, one),
    ensures
        a == b,
{
    assert forall|i: int| 0 <= i < a.len() implies a[i] == b[i] by {
        assert forall|channel: int| 0 <= channel < 2 implies a[i][channel] == b[i][channel] by {
            assert(a[i][channel] == crate::signal::panned_sample(
                value_at(oscillator, envelope, timeline[i], zero, one),
                pan,
                one,
                channel,
            ));
        }
        assert(a[i] =~= b[i]);
    }
    assert(a =~= b);
}

impl<
    S: Copy + Add<Output = S> + Sub<Output = S> + Mul<Output = S> + Div<Output = S> + PartialOrd,
> Signal<S> {
    /// The signal of an oscillator under an envelope: one frame for each
    /// instant of the timeline, which holds the value of the sound at that
    /// instant, spread over the two channels by a linear pan.
    pub fn render(
        sample_rate: S,
        oscillator: &Oscillator<S>,
        envelope: &Envelope<S>,
        pan: S,
        timeline: &Vec<Instant<S>>,
        zero: S,
        one: S,
    ) -> (signal: Signal<S>)
        requires
            crate::signal::adds::<S>(),
            crate::signal::subtracts::<S>(),
            crate::signal::multiplies::<S>(),
            crate::envelope::divides::<S>(),
            serves(timeline@, *oscillator),
        ensures
            signal@.len() == timeline@.len(),
            signal.rate() == sample_rate,
            crate::envelope::exact::<S>() ==> renders(
                signal@,
                *oscillator,
                *envelope,
                pan,
                timeline@,
                zero,
                one,
            ),
    {
        let c_pan = [one - pan, pan];
        let duration = oscillator.duration();
        let mut frames: Vec<[S; 2]> = Vec::new();
        let mut i: usize = 0;
        while i < timeline.len()
            invariant
                crate::signal::adds::<S>(),
                crate::signal::subtracts::<S>(),
                crate::signal::multiplies::<S>(),
                crate::envelope::divides::<S>(),
                serves(timeline@, *oscillator),
                duration == oscillator.tone.duration,
                i <= timeline@.len(),
                frames@.len() == i,
                S::obeys_sub_spec() ==> c_pan[0] == one.sub_spec(pan),
                c_pan[1] == pan,
                crate::envelope::exact::<S>() ==> forall|j: int, channel: int|
                    0 <= j < i && 0 <= channel < 2 ==> #[trigger] frames@[j][channel]
                        == crate::signal::panned_sample(
                        value_at(*oscillator, *envelope, timeline@[j], zero, one),
                        pan,
                        one,
                        channel,
                    ),
            decreases timeline@.len() - i,
        {
            let instant = &timeline[i];
            let val = oscillator.sample(instant.phase, &instant.cosines, &instant.sines, zero, one)
                * envelope.gain(duration, instant.t, zero, one);
            frames.push([val * c_pan[0], val * c_pan[1]]);
            i += 1;
        }
        Signal::new(sample_rate, frames)
    }
}

} // verus!
