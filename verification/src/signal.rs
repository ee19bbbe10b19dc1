//! Rendered signals: sequences of stereo frames over any type of sample.
//!
//! The library adds, subtracts, multiplies, divides and compares samples and
//! does nothing else to them. What it states of a sample that it computed is
//! stated over the sample type's own account of these operations, and holds
//! for a type whose operations follow that account. For any other type the
//! contracts still state what does not hang on arithmetic: lengths, counts,
//! the state of the voices, and which frames stay silent.

use vstd::prelude::*;
use vstd::std_specs::ops::{AddSpec, MulSpec, SubSpec};
use core::ops::{Add, Mul, Sub};

verus! {

/// Any two samples can be added.
pub open spec fn adds<S: Add<Output = S>>() -> bool {
    forall|a: S, b: S| #[trigger] a.add_req(b)
}

/// Any sample can be subtracted from any other.
pub open spec fn subtracts<S: Sub<Output = S>>() -> bool {
    forall|a: S, b: S| #[trigger] a.sub_req(b)
}

/// Any two samples can be multiplied.
pub open spec fn multiplies<S: Mul<Output = S>>() -> bool {
    forall|a: S, b: S| #[trigger] a.mul_req(b)
}

/// The share of `value` that goes to channel `channel` under a linear pan:
/// channel 0 gets the part `one - pan` of it, channel 1 the part `pan`.
pub open spec fn panned_sample<S: Copy + Sub<Output = S> + Mul<Output = S>>(
    value: S,
    pan: S,
    one: S,
    channel: int,
) -> S {
    if channel == 0 {
        value.mul_spec(one.sub_spec(pan))
    } else {
        value.mul_spec(pan)
    }
}

/// A rendered signal: its frames, and the sample rate it was rendered for.
pub struct Signal<S> {
    sample_rate: S,
    frames: Vec<[S; 2]>,
}

impl<S> View for Signal<S> {
    type V = Seq<[S; 2]>;

    closed spec fn view(&self) -> Seq<[S; 2]> {
        self.frames@
    }
}

impl<S: Copy> Signal<S> {
    /// The sample rate that the signal was rendered for.
    pub closed spec fn rate(&self) -> S {
        self.sample_rate
    }

    /// A signal has a length that can be counted.
    pub proof fn lemma_len_fits(&self)
        ensures
            self@.len() <= usize::MAX,
    {
        assert(self.frames.len() == self.frames@.len());
    }

    /// The signal that holds `frames`.
    pub fn new(sample_rate: S, frames: Vec<[S; 2]>) -> (signal: Signal<S>)
        ensures
            signal@ == frames@,
            signal.rate() == sample_rate,
    {
        Signal { sample_rate, frames }
    }

    /// The number of frames.
    pub fn len(&self) -> (frames: usize)
        ensures
            frames == self@.len(),
    {
        self.frames.len()
    }

    /// The sample rate that the signal was rendered for.
    pub fn sample_rate(&self) -> (rate: S)
        ensures
            rate == self.rate(),
    {
        self.sample_rate
    }

    /// The frames, from the first.
    pub fn frames(&self) -> (frames: &Vec<[S; 2]>)
        ensures
            frames@ == self@,
    {
        &self.frames
    }
}

} // verus!
