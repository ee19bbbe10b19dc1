//! Signal builders: the description of a sound, from which its signal is
//! rendered.

use vstd::prelude::*;
use core::ops::{Add, Div, Mul, Sub};
use crate::delay::{Delay, Echo};
use crate::effect::SoundEffect;
use crate::envelope::Envelope;
use crate::multiplexer::WaveTable;
use crate::render::Instant;
use crate::signal::Signal;
use crate::waveform::Oscillator;

verus! {

/// The description of a sound: what is played, under which envelope, where
/// between the two channels, at which sample rate and with which echo.
/// A builder is a value: each `with_` function hands back a builder that
/// differs from the one it was given in one setting.
#[derive(Clone, Debug)]
pub struct SignalBuilder<S> {
    pub oscillator: Oscillator<S>,
    pub envelope: Envelope<S>,
    pub pan: S,
    pub sample_rate: S,
    pub delay: Delay<S>,
}

impl<S: Copy> SignalBuilder<S> {
    /// The builder with these five settings.
    pub fn new(
        oscillator: Oscillator<S>,
        envelope: Envelope<S>,
        pan: S,
        sample_rate: S,
        delay: Delay<S>,
    ) -> (builder: SignalBuilder<S>)
        ensures
            builder == (SignalBuilder { oscillator, envelope, pan, sample_rate, delay }),
    {
        SignalBuilder { oscillator, envelope, pan, sample_rate, delay }
    }

    /// The builder with another envelope.
    pub fn with_envelope(self, envelope: Envelope<S>) -> (builder: SignalBuilder<S>)
        ensures
            builder == (SignalBuilder { envelope, ..self }),
    {
        SignalBuilder { envelope, ..self }
    }

    /// The builder with the envelope of a sound that only fades, over the
    /// duration of the oscillator's tone.
    pub fn with_envelope_ramp_down(self, zero: S, one: S) -> (builder: SignalBuilder<S>)
        ensures
            builder == (SignalBuilder {
                envelope: Envelope {
                    attack: zero,
                    decay: zero,
                    sustain: one,
                    release: self.oscillator.tone.duration,
                },
                ..self
            }),
    {
        let envelope = Envelope::ramp_down(self.oscillator.duration(), zero, one);
        self.with_envelope(envelope)
    }

    /// The builder with another oscillator.
    pub fn with_oscillator(self, oscillator: Oscillator<S>) -> (builder: SignalBuilder<S>)
        ensures
            builder == (SignalBuilder { oscillator, ..self }),
    {
        SignalBuilder { oscillator, ..self }
    }

    /// The builder with another pan.
    pub fn with_pan(self, pan: S) -> (builder: SignalBuilder<S>)
        ensures
            builder == (SignalBuilder { pan, ..self }),
    {
        SignalBuilder { pan, ..self }
    }

    /// The builder with another echo.
    pub fn with_delay(self, delay: Delay<S>) -> (builder: SignalBuilder<S>)
        ensures
            builder == (SignalBuilder { delay, ..self }),
    {
        SignalBuilder { delay, ..self }
    }
}

impl<
    S: Copy + Add<Output = S> + Sub<Output = S> + Mul<Output = S> + Div<Output = S> + PartialOrd,
> SignalBuilder<S> {
    /// `frames` are the signal of this builder along a timeline: the frames of
    /// its sound, sent through its echo.
    pub open spec fn builds(self, frames: Seq<[S; 2]>, timeline: Seq<Instant<S>>, zero: S, one: S) -> bool {
        exists|rendered: Seq<[S; 2]>|
            {
                &&& #[trigger] crate::render::renders(
                    rendered,
                    self.oscillator,
                    self.envelope,
                    self.pan,
                    timeline,
                    zero,
                    one,
                )
                &&& crate::delay::echoes(
                    frames,
                    Echo { source: rendered, delay: self.delay, one, silence: zero },
                )
            }
    }

    /// A builder and a timeline decide the signal: two runs of frames that
    /// are both the signal of one builder along one timeline are the same.
    pub proof fn lemma_build_is_determined(
        self,
        a: Seq<[S; 2]>,
        b: Seq<[S; 2]>,
        timeline: Seq<Instant<S>>,
        zero: S,
        one: S,
    )
        requires
            self.builds(a, timeline, zero, one),
            self.builds(b, timeline, zero, one),
        ensures
            a == b,
    {
        let ra = choose|rendered: Seq<[S; 2]>|
            {
                &&& #[trigger] crate::render::renders(
                    rendered,
                    self.oscillator,
                    self.envelope,
                    self.pan,
                    timeline,
                    zero,
                    one,
                )
                &&& crate::delay::echoes(
                    a,
                    Echo { source: rendered, delay: self.delay, one, silence: zero },
                )
            };
        let rb = choose|rendered: Seq<[S; 2]>|
            {
                &&& #[trigger] crate::render::renders(
                    rendered,
                    self.oscillator,
                    self.envelope,
                    self.pan,
                    timeline,
                    zero,
                    one,
                )
                &&& crate::delay::echoes(
                    b,
                    Echo { source: rendered, delay: self.delay, one, silence: zero },
                )
            };
        crate::render::lemma_rendering_is_determined(
            ra,
            rb,
            self.oscillator,
            self.envelope,
            self.pan,
            timeline,
            zero,
            one,
        );
        crate::delay::lemma_echo_is_determined(
            a,
            b,
            Echo { source: ra, delay: self.delay, one, silence: zero },
        );
    }

    /// Builders with the same settings build the same signal: along one
    /// timeline their signals have the same length and the same frames.
    pub proof fn lemma_equal_builders_build_alike(
        self,
        other: SignalBuilder<S>,
        a: Seq<[S; 2]>,
        b: Seq<[S; 2]>,
        timeline: Seq<Instant<S>>,
        zero: S,
        one: S,
    )
        requires
            self.oscillator == other.oscillator,
            self.envelope == other.envelope,
            self.pan == other.pan,
            self.sample_rate == other.sample_rate,
            self.delay == other.delay,
            self.builds(a, timeline, zero, one),
            other.builds(b, timeline, zero, one),
        ensures
            a.len() == b.len(),
            a.len() == timeline.len() + self.delay.tail,
            a == b,
    {
        assert(self == other);
        self.lemma_build_is_determined(a, b, timeline, zero, one);
    }

    /// Renders the signal: one frame for each instant of the timeline, and
    /// the echo over them. There is no signal only where the timeline and the
    /// tail of the echo together are longer than can be counted.
    pub fn build(&self, timeline: &Vec<Instant<S>>, zero: S, one: S) -> (built: Option<Signal<S>>)
        requires
            crate::signal::adds::<S>(),
            crate::signal::subtracts::<S>(),
            crate::signal::multiplies::<S>(),
            crate::envelope::divides::<S>(),
            crate::render::serves(timeline@, self.oscillator),
        ensures
            built is Some <==> self.delay.takes(timeline@.len()),
            built matches Some(signal) ==> {
                &&& signal@.len() == timeline@.len() + self.delay.tail
                &&& signal.rate() == self.sample_rate
                &&& crate::envelope::exact::<S>() ==> self.builds(signal@, timeline@, zero, one)
            },
    {
        let rendered = Signal::render(
            self.sample_rate,
            &self.oscillator,
            &self.envelope,
            self.pan,
            timeline,
            zero,
            one,
        );
        let ghost source = rendered@;
        let built = rendered.with_delay(&self.delay, one, zero);
        proof {
            if crate::envelope::exact::<S>() && built is Some {
                assert(crate::render::renders(
                    source,
                    self.oscillator,
                    self.envelope,
                    self.pan,
                    timeline@,
                    zero,
                    one,
                ));
            }
        }
        built
    }

    /// Builds the signal and appends it to the wavetable as the signal of
    /// `effect`. The result is its index; where no signal can be built the
    /// wavetable stays as it is.
    pub fn record(
        &self,
        wave_table: &mut WaveTable<S>,
        effect: SoundEffect,
        timeline: &Vec<Instant<S>>,
        zero: S,
        one: S,
    ) -> (index: Option<usize>)
        requires
            crate::signal::adds::<S>(),
            crate::signal::subtracts::<S>(),
            crate::signal::multiplies::<S>(),
            crate::envelope::divides::<S>(),
            crate::render::serves(timeline@, self.oscillator),
        ensures
            index is Some <==> self.delay.takes(timeline@.len()),
            index is None ==> final(wave_table)@ == old(wave_table)@ && final(wave_table).rates()
                == old(wave_table).rates(),
            index matches Some(at) ==> {
                &&& at == old(wave_table)@.len()
                &&& final(wave_table).rates() == old(wave_table).rates().push(self.sample_rate)
                &&& final(wave_table)@.len() == old(wave_table)@.len() + 1
                &&& final(wave_table)@.drop_last() == old(wave_table)@
                &&& final(wave_table)@.last().0 == effect
                &&& final(wave_table)@.last().1.len() == timeline@.len() + self.delay.tail
                &&& crate::envelope::exact::<S>() ==> self.builds(
                    final(wave_table)@.last().1,
                    timeline@,
                    zero,
                    one,
                )
            },
    {
        match self.build(timeline, zero, one) {
            Some(signal) => {
                let index = wave_table.record(effect, signal);
                assert(wave_table@.drop_last() =~= old(wave_table)@);
                Some(index)
            },
            None => None,
        }
    }
}

} // verus!
