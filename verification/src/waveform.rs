//! Periodic waveforms, sampled by their phase, and the oscillator that plays
//! one at a pitch.
//!
//! A waveform is sampled at a phase between zero and one. The sines and
//! cosines of the phase are no matter of arithmetic, so they come in from
//! outside: `sines[i]` and `cosines[i]` are the sine and the cosine of the
//! angle of the phase taken `i + 1` times.

use vstd::prelude::*;
use vstd::std_specs::cmp::PartialOrdIs;
use vstd::std_specs::ops::{AddSpec, MulSpec, SubSpec};
use core::ops::{Add, Div, Mul, Sub};
use crate::envelope::lerp_clip;

verus! {

/// The shape of one cycle of a sound.
#[derive(Clone, Debug)]
pub enum Waveform<S> {
    /// A sine.
    Sin,
    /// A rise from the lowest value to the highest until the phase given, and
    /// a fall back from there.
    Triangle(S),
    /// A sum of harmonics: the weights of the cosines and those of the sines,
    /// each from the first harmonic on.
    Harmonics(Vec<S>, Vec<S>),
    /// The lowest value before the phase given, the highest from there on.
    Square(S),
    /// Nothing.
    Silence,
}

/// The sum of the values of `basis`, each by its weight in `weights`, from the
/// first on.
pub open spec fn weighted_sum<S: Copy + Add<Output = S> + Mul<Output = S>>(
    weights: Seq<S>,
    basis: Seq<S>,
    zero: S,
) -> S
    decreases weights.len(),
{
    if weights.len() == 0 {
        zero
    } else {
        weighted_sum(weights.drop_last(), basis, zero).add_spec(
            weights.last().mul_spec(basis[weights.len() - 1]),
        )
    }
}

/// The sum of `basis` by `weights`.
fn weigh<S: Copy + Add<Output = S> + Mul<Output = S>>(weights: &Vec<S>, basis: &Vec<S>, zero: S) -> (sum: S)
    requires
        crate::signal::adds::<S>(),
        crate::signal::multiplies::<S>(),
        weights@.len() <= basis@.len(),
    ensures
        S::obeys_add_spec() && S::obeys_mul_spec() ==> sum == weighted_sum(weights@, basis@, zero),
{
    let mut sum = zero;
    let mut i: usize = 0;
    while i < weights.len()
        invariant
            crate::signal::adds::<S>(),
            crate::signal::multiplies::<S>(),
            i <= weights@.len(),
            weights@.len() <= basis@.len(),
            S::obeys_add_spec() && S::obeys_mul_spec() ==> sum == weighted_sum(
                weights@.take(i as int),
                basis@,
                zero,
            ),
        decreases weights@.len() - i,
    {
        proof {
            assert(weights@.take(i + 1).drop_last() =~= weights@.take(i as int));
        }
        sum = sum + weights[i] * basis[i];
        i += 1;
    }
    proof {
        assert(weights@.take(i as int) =~= weights@);
    }
    sum
}

impl<S: Copy> Waveform<S> {
    /// Whether `cosines` cosines and `sines` sines are enough to sample the
    /// waveform: a sine needs the first sine, a sum of harmonics one for each
    /// weight, the others none.
    pub open spec fn served_by(&self, cosines: nat, sines: nat) -> bool {
        match self {
            Waveform::Sin => sines >= 1,
            Waveform::Harmonics(hcos, hsin) => hcos@.len() <= cosines && hsin@.len() <= sines,
            _ => true,
        }
    }

    /// The numbers of cosines and of sines that sampling the waveform takes.
    pub fn harmonics(&self) -> (needed: (usize, usize))
        ensures
            self.served_by(needed.0 as nat, needed.1 as nat),
            forall|cosines: nat, sines: nat|
                self.served_by(cosines, sines) ==> needed.0 <= cosines && needed.1 <= sines,
    {
        match self {
            Waveform::Sin => (0, 1),
            Waveform::Harmonics(hcos, hsin) => (hcos.len(), hsin.len()),
            _ => {
                assert(self.served_by(0, 0));
                (0, 0)
            },
        }
    }
}

impl<
    S: Copy + Add<Output = S> + Sub<Output = S> + Mul<Output = S> + Div<Output = S> + PartialOrd,
> Waveform<S> {
    /// The sample at `phase`, between `zero - one` and `one` for the plain
    /// shapes.
    pub open spec fn sample_of(&self, phase: S, cosines: Seq<S>, sines: Seq<S>, zero: S, one: S) -> S {
        match self {
            Waveform::Sin => sines[0],
            Waveform::Harmonics(hcos, hsin) => weighted_sum(hcos@, cosines, zero).add_spec(
                weighted_sum(hsin@, sines, zero),
            ),
            Waveform::Triangle(slant) => if phase.is_lt(slant) {
                crate::envelope::lerp_clip_of(zero, *slant, zero.sub_spec(one), one, phase, zero, one)
            } else {
                crate::envelope::lerp_clip_of(*slant, one, one, zero.sub_spec(one), phase, zero, one)
            },
            Waveform::Square(duty_cycle) => if phase.is_lt(duty_cycle) {
                zero.sub_spec(one)
            } else {
                one
            },
            Waveform::Silence => zero,
        }
    }

    /// The sample at `phase`, given the cosines and sines of the phase.
    pub fn sample(&self, phase: S, cosines: &Vec<S>, sines: &Vec<S>, zero: S, one: S) -> (sample: S)
        requires
            crate::signal::adds::<S>(),
            crate::signal::subtracts::<S>(),
            crate::signal::multiplies::<S>(),
            crate::envelope::divides::<S>(),
            self.served_by(cosines@.len(), sines@.len()),
        ensures
            crate::envelope::exact::<S>() ==> sample == self.sample_of(phase, cosines@, sines@, zero, one),
    {
        match self {
            Waveform::Sin => sines[0],
            Waveform::Harmonics(hcos, hsin) => {
                let cos_comp = weigh(hcos, cosines, zero);
                let sin_comp = weigh(hsin, sines, zero);
                cos_comp + sin_comp
            },
            Waveform::Triangle(slant) => {
                if phase < *slant {
                    lerp_clip(zero, *slant, zero - one, one, phase, zero, one)
                } else {
                    lerp_clip(*slant, one, one, zero - one, phase, zero, one)
                }
            },
            Waveform::Square(duty_cycle) => {
                if phase < *duty_cycle {
                    zero - one
                } else {
                    one
                }
            },
            Waveform::Silence => zero,
        }
    }
}

/// What is played: at which pitch, for how long and how loud.
#[derive(Clone, Copy, Debug)]
pub struct Tone<S> {
    pub pitch: S,
    pub duration: S,
    pub amplitude: S,
}

/// A tone with the waveform that it is played in.
#[derive(Clone, Debug)]
pub struct Oscillator<S> {
    pub tone: Tone<S>,
    pub waveform: Waveform<S>,
}

impl<S: Copy> Oscillator<S> {
    /// A sine at `pitch`.
    pub fn sin(pitch: S, duration: S, amplitude: S) -> (oscillator: Oscillator<S>)
        ensures
            oscillator.tone == (Tone { pitch, duration, amplitude }),
            oscillator.waveform is Sin,
    {
        Oscillator { tone: Tone { pitch, duration, amplitude }, waveform: Waveform::Sin }
    }

    /// A square wave that is low for the part `duty_cycle` of each cycle.
    pub fn pwm(pitch: S, duration: S, amplitude: S, duty_cycle: S) -> (oscillator: Oscillator<S>)
        ensures
            oscillator.tone == (Tone { pitch, duration, amplitude }),
            oscillator.waveform == Waveform::Square(duty_cycle),
    {
        Oscillator {
            tone: Tone { pitch, duration, amplitude },
            waveform: Waveform::Square(duty_cycle),
        }
    }

    /// A triangle wave that peaks at the part `slant` of each cycle.
    pub fn triangle(pitch: S, duration: S, amplitude: S, slant: S) -> (oscillator: Oscillator<S>)
        ensures
            oscillator.tone == (Tone { pitch, duration, amplitude }),
            oscillator.waveform == Waveform::Triangle(slant),
    {
        Oscillator {
            tone: Tone { pitch, duration, amplitude },
            waveform: Waveform::Triangle(slant),
        }
    }

    /// A sum of harmonics of `pitch`, with the weights of their cosines and
    /// of their sines.
    pub fn harmonics(pitch: S, duration: S, amplitude: S, hcos: Vec<S>, hsin: Vec<S>) -> (oscillator:
        Oscillator<S>)
        ensures
            oscillator.tone == (Tone { pitch, duration, amplitude }),
            oscillator.waveform == Waveform::Harmonics(hcos, hsin),
    {
        Oscillator {
            tone: Tone { pitch, duration, amplitude },
            waveform: Waveform::Harmonics(hcos, hsin),
        }
    }

    /// An oscillator that plays nothing: one second of it, at pitch `one`.
    pub fn silence(one: S) -> (oscillator: Oscillator<S>)
        ensures
            oscillator.tone == (Tone { pitch: one, duration: one, amplitude: one }),
            oscillator.waveform is Silence,
    {
        Oscillator {
            tone: Tone { pitch: one, duration: one, amplitude: one },
            waveform: Waveform::Silence,
        }
    }

    /// The duration of the tone.
    pub fn duration(&self) -> (duration: S)
        ensures
            duration == self.tone.duration,
    {
        self.tone.duration
    }

    /// The pitch of the tone.
    pub fn pitch(&self) -> (pitch: S)
        ensures
            pitch == self.tone.pitch,
    {
        self.tone.pitch
    }
}

impl<
    S: Copy + Add<Output = S> + Sub<Output = S> + Mul<Output = S> + Div<Output = S> + PartialOrd,
> Oscillator<S> {
    /// The sample of the waveform at `phase`, by the amplitude of the tone.
    pub fn sample(&self, phase: S, cosines: &Vec<S>, sines: &Vec<S>, zero: S, one: S) -> (sample: S)
        requires
            crate::signal::adds::<S>(),
            crate::signal::subtracts::<S>(),
            crate::signal::multiplies::<S>(),
            crate::envelope::divides::<S>(),
            self.waveform.served_by(cosines@.len(), sines@.len()),
        ensures
            crate::envelope::exact::<S>() ==> sample == self.tone.amplitude.mul_spec(
                self.waveform.sample_of(phase, cosines@, sines@, zero, one),
            ),
    {
        self.tone.amplitude * self.waveform.sample(phase, cosines, sines, zero, one)
    }
}

} // verus!
