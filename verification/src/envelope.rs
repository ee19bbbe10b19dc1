//! The gain envelope of a sound: attack, decay, sustain and release.

use vstd::prelude::*;
use vstd::std_specs::cmp::{PartialOrdIs, PartialOrdSpec};
use vstd::std_specs::ops::{AddSpec, DivSpec, MulSpec, SubSpec};
use core::ops::{Add, Div, Mul, Sub};

verus! {

/// Any sample can be divided by any other.
pub open spec fn divides<S: Div<Output = S>>() -> bool {
    forall|a: S, b: S| #[trigger] a.div_req(b)
}

/// The four operations and the order of the samples follow the account that
/// the sample type gives of them.
pub open spec fn exact<
    S: Add<Output = S> + Sub<Output = S> + Mul<Output = S> + Div<Output = S> + PartialOrd,
>() -> bool {
    &&& S::obeys_add_spec()
    &&& S::obeys_sub_spec()
    &&& S::obeys_mul_spec()
    &&& S::obeys_div_spec()
    &&& S::obeys_partial_cmp_spec()
}

/// The laws of ordinary arithmetic that the boundary values of an envelope
/// rest on: `zero` is below `one`; adding or subtracting `zero` changes
/// nothing; a sample less itself, a sample times `zero` and `zero` over
/// anything above it are `zero`; the difference of two samples is above `zero`
/// if the first is above the second, and taking off what is not below `zero`
/// does not raise a sample; and what is not below a sample is not below
/// anything that the sample is not below.
pub open spec fn ordinary<
    S: Copy + Add<Output = S> + Sub<Output = S> + Mul<Output = S> + Div<Output = S> + PartialOrd,
>(zero: S, one: S) -> bool {
    &&& zero.is_lt(&one)
    &&& forall|x: S| #[trigger] zero.add_spec(x) == x
    &&& forall|x: S| #[trigger] x.add_spec(zero) == x
    &&& forall|x: S| #[trigger] x.sub_spec(zero) == x
    &&& forall|x: S| #[trigger] x.sub_spec(x) == zero
    &&& forall|x: S| #[trigger] x.mul_spec(zero) == zero
    &&& forall|d: S| zero.is_lt(&d) ==> #[trigger] zero.div_spec(d) == zero
    &&& forall|a: S, b: S| a.is_lt(&b) ==> zero.is_lt(&#[trigger] b.sub_spec(a))
    &&& forall|d: S, r: S| !r.is_lt(&zero) ==> !d.is_lt(&#[trigger] d.sub_spec(r))
    &&& forall|a: S| !a.is_lt(&a)
    &&& forall|a: S, b: S, c: S| !a.is_lt(&b) && !b.is_lt(&c) ==> !a.is_lt(&c)
}

/// `value` held to the range from `zero` to `one`; what is no number at all
/// counts as `one`.
pub open spec fn clipped<S: Copy + PartialOrd>(value: S, zero: S, one: S) -> S {
    let low = if value.is_lt(&one) {
        value
    } else {
        one
    };
    if low.is_gt(&zero) {
        low
    } else {
        zero
    }
}

/// The point at `t` on the straight line from `(x0, y0)` to `(x1, y1)`, held
/// between the two ends: before `x0` it is `y0`, after `x1` it is `y1`.
pub open spec fn lerp_clip_of<
    S: Copy + Add<Output = S> + Sub<Output = S> + Mul<Output = S> + Div<Output = S> + PartialOrd,
>(x0: S, x1: S, y0: S, y1: S, t: S, zero: S, one: S) -> S {
    y0.add_spec(
        y1.sub_spec(y0).mul_spec(clipped(t.sub_spec(x0).div_spec(x1.sub_spec(x0)), zero, one)),
    )
}

/// Linear interpolation between two points, held between them.
pub fn lerp_clip<
    S: Copy + Add<Output = S> + Sub<Output = S> + Mul<Output = S> + Div<Output = S> + PartialOrd,
>(x0: S, x1: S, y0: S, y1: S, t: S, zero: S, one: S) -> (y: S)
    requires
        crate::signal::adds::<S>(),
        crate::signal::subtracts::<S>(),
        crate::signal::multiplies::<S>(),
        divides::<S>(),
    ensures
        exact::<S>() ==> y == lerp_clip_of(x0, x1, y0, y1, t, zero, one),
{
    let v = (t - x0) / (x1 - x0);
    let low = if v < one {
        v
    } else {
        one
    };
    let part = if low > zero {
        low
    } else {
        zero
    };
    y0 + (y1 - y0) * part
}

/// The shape of a sound's gain over its duration. `attack` and `decay` are
/// points in time, counted from the start of the sound: the gain rises until
/// `attack` and falls to `sustain` until `decay`. `release` is the time that
/// the gain takes to fall to nothing at the end.
#[derive(Clone, Copy, Debug)]
pub struct Envelope<S> {
    pub attack: S,
    pub decay: S,
    pub sustain: S,
    pub release: S,
}

impl<S: Copy> Envelope<S> {
    /// The envelope that holds the gain at `one` throughout.
    pub fn flat(zero: S, one: S) -> (envelope: Envelope<S>)
        ensures
            envelope == (Envelope { attack: zero, decay: zero, sustain: one, release: zero }),
    {
        Envelope { attack: zero, decay: zero, sustain: one, release: zero }
    }

    /// The envelope with these four settings.
    pub fn adsr(attack: S, decay: S, sustain: S, release: S) -> (envelope: Envelope<S>)
        ensures
            envelope == (Envelope { attack, decay, sustain, release }),
    {
        Envelope { attack, decay, sustain, release }
    }

    /// The envelope of a sound that only fades: from `one` at its start to
    /// nothing after `duration`.
    pub fn ramp_down(duration: S, zero: S, one: S) -> (envelope: Envelope<S>)
        ensures
            envelope == (Envelope { attack: zero, decay: zero, sustain: one, release: duration }),
    {
        Envelope { attack: zero, decay: zero, sustain: one, release: duration }
    }
}

impl<
    S: Copy + Add<Output = S> + Sub<Output = S> + Mul<Output = S> + Div<Output = S> + PartialOrd,
> Envelope<S> {
    /// The gain at time `t` of a sound that lasts `duration`: a rise from
    /// `zero` to `one` before `attack`; then a fall from `one` to `sustain`
    /// before `decay`; then `sustain` until `release` before the end; then a
    /// fall from `sustain` to `zero` before the end; and `zero` from the end
    /// on.
    pub open spec fn gain_of(self, duration: S, t: S, zero: S, one: S) -> S {
        if t.is_lt(&self.attack) {
            lerp_clip_of(zero, self.attack, zero, one, t, zero, one)
        } else if t.is_lt(&self.decay) {
            lerp_clip_of(self.attack, self.decay, one, self.sustain, t, zero, one)
        } else if t.is_lt(&duration.sub_spec(self.release)) {
            self.sustain
        } else if t.is_lt(&duration) {
            lerp_clip_of(
                duration.sub_spec(self.release),
                duration,
                self.sustain,
                zero,
                t,
                zero,
                one,
            )
        } else {
            zero
        }
    }

    /// At its decay time the gain is the level of sustain, for an envelope
    /// whose attack does not come after its decay and whose release begins
    /// after its decay.
    pub proof fn lemma_gain_at_decay_is_sustain(self, duration: S, zero: S, one: S)
        requires
            !self.decay.is_lt(&self.attack),
            !self.decay.is_lt(&self.decay),
            self.decay.is_lt(&duration.sub_spec(self.release)),
        ensures
            self.gain_of(duration, self.decay, zero, one) == self.sustain,
    {
    }

    /// At the end of the sound the gain is nothing, for an envelope whose
    /// attack, decay and start of the release do not come after the end of
    /// the sound.
    pub proof fn lemma_gain_at_the_end_is_nothing(self, duration: S, zero: S, one: S)
        requires
            !duration.is_lt(&self.attack),
            !duration.is_lt(&self.decay),
            !duration.is_lt(&duration.sub_spec(self.release)),
            !duration.is_lt(&duration),
        ensures
            self.gain_of(duration, duration, zero, one) == zero,
    {
    }

    /// Under an attack the gain starts at nothing: at time `zero` it is
    /// `zero`, where the arithmetic of the samples is the ordinary one.
    pub proof fn lemma_gain_at_the_start_is_nothing(self, duration: S, zero: S, one: S)
        requires
            ordinary(zero, one),
            zero.is_lt(&self.attack),
        ensures
            self.gain_of(duration, zero, zero, one) == zero,
    {
        assert(zero.sub_spec(zero) == zero);
        assert(self.attack.sub_spec(zero) == self.attack);
        assert(zero.div_spec(self.attack) == zero);
        assert(clipped(zero, zero, one) == zero);
        assert(one.sub_spec(zero) == one);
        assert(one.mul_spec(zero) == zero);
        assert(zero.add_spec(zero) == zero);
    }

    /// At its decay time the gain is the level of sustain also where the
    /// release begins at that very time and takes some time, under the
    /// ordinary arithmetic.
    pub proof fn lemma_gain_at_decay_where_the_release_begins(self, duration: S, zero: S, one: S)
        requires
            ordinary(zero, one),
            !self.decay.is_lt(&self.attack),
            self.decay == duration.sub_spec(self.release),
            self.decay.is_lt(&duration),
        ensures
            self.gain_of(duration, self.decay, zero, one) == self.sustain,
    {
        let start = duration.sub_spec(self.release);
        assert(!self.decay.is_lt(&self.decay));
        assert(self.decay.sub_spec(start) == zero);
        assert(zero.is_lt(&duration.sub_spec(start)));
        assert(zero.div_spec(duration.sub_spec(start)) == zero);
        assert(clipped(zero, zero, one) == zero);
        assert(zero.sub_spec(self.sustain).mul_spec(zero) == zero);
        assert(self.sustain.add_spec(zero) == self.sustain);
    }

    /// From the end of the sound on the gain is nothing, for an envelope whose
    /// attack and decay do not come after the end of the sound and whose
    /// release is no negative span, under the ordinary arithmetic.
    pub proof fn lemma_gain_from_the_end_on_is_nothing(self, duration: S, t: S, zero: S, one: S)
        requires
            ordinary(zero, one),
            !duration.is_lt(&self.attack),
            !duration.is_lt(&self.decay),
            !self.release.is_lt(&zero),
            !t.is_lt(&duration),
        ensures
            self.gain_of(duration, t, zero, one) == zero,
    {
        let start = duration.sub_spec(self.release);
        assert(!duration.is_lt(&start));
        assert(!t.is_lt(&self.attack));
        assert(!t.is_lt(&self.decay));
        assert(!t.is_lt(&start));
    }

    /// The gain at time `t` of a sound that lasts `duration`.
    pub fn gain(&self, duration: S, t: S, zero: S, one: S) -> (gain: S)
        requires
            crate::signal::adds::<S>(),
            crate::signal::subtracts::<S>(),
            crate::signal::multiplies::<S>(),
            divides::<S>(),
        ensures
            exact::<S>() ==> gain == self.gain_of(duration, t, zero, one),
    {
        if t < self.attack {
            lerp_clip(zero, self.attack, zero, one, t, zero, one)
        } else if t < self.decay {
            lerp_clip(self.attack, self.decay, one, self.sustain, t, zero, one)
        } else if t < duration - self.release {
            self.sustain
        } else if t < duration {
            lerp_clip(duration - self.release, duration, self.sustain, zero, t, zero, one)
        } else {
            zero
        }
    }
}

} // verus!
