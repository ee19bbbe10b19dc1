//! Smoothing filters and directions.

use vstd::prelude::*;
use vstd::std_specs::ops::{AddSpec, DivSpec, MulSpec, SubSpec};
use core::ops::{Add, Div, Mul, Sub};

verus! {

/// A filter that takes one value at a time and hands back a smoothed one.
/// A filter that says nothing else hands each value back as it came.
pub trait Smooth<S> {
    /// Whether the filter, as it is now, can take `value`: any value, unless
    /// the filter says otherwise.
    open spec fn takes(&self, value: S) -> bool {
        true
    }

    fn smooth(&mut self, value: S) -> (smoothed: S)
        requires
            old(self).takes(value),
        default_ensures
            smoothed == value,
    {
        value
    }
}

/// What a moving average remembers: the last values in a circular window, the
/// place of the next one, how many places are in use, their running sum, and
/// the average that was handed out last.
pub struct Window<S> {
    pub values: Seq<S>,
    pub ptr: nat,
    pub count: nat,
    pub acc: S,
    pub last: S,
}

/// The average of the last values that came in, over a window of fixed
/// size.
pub struct MovingAverage<S> {
    ptr: usize,
    count: usize,
    acc: S,
    last: S,
    values: Vec<S>,
}

impl<S> View for MovingAverage<S> {
    type V = Window<S>;

    closed spec fn view(&self) -> Window<S> {
        Window {
            values: self.values@,
            ptr: self.ptr as nat,
            count: self.count as nat,
            acc: self.acc,
            last: self.last,
        }
    }
}

impl<S> Window<S> {
    /// The next place lies in the window, and no more places are in use than
    /// the window has.
    pub open spec fn wf(self) -> bool {
        &&& self.count <= self.values.len()
        &&& self.ptr < self.values.len() || (self.ptr == 0 && self.values.len() == 0)
    }

    /// A window of `size` places, none of them in use.
    pub open spec fn empty(size: nat, zero: S) -> Window<S> {
        Window { values: Seq::new(size, |i: int| zero), ptr: 0, count: 0, acc: zero, last: zero }
    }

    /// Whether the window is full, so that the next value takes the place of
    /// the oldest.
    pub open spec fn full(self) -> bool {
        self.count >= self.values.len()
    }

    /// The number of places in use once one more value has come in.
    pub open spec fn next_count(self) -> nat {
        if self.full() {
            self.count
        } else {
            self.count + 1
        }
    }
}

impl<S: Copy> MovingAverage<S> {
    /// A moving average over the last `window_size` values, which starts from
    /// `zero`.
    pub fn new(window_size: usize, zero: S) -> (average: MovingAverage<S>)
        ensures
            average@ == Window::empty(window_size as nat, zero),
            average@.wf(),
    {
        let mut values: Vec<S> = Vec::new();
        let mut filled: usize = 0;
        while filled < window_size
            invariant
                filled <= window_size,
                values@.len() == filled,
                forall|i: int| 0 <= i < filled ==> values@[i] == zero,
            decreases window_size - filled,
        {
            values.push(zero);
            filled += 1;
        }
        let average = MovingAverage { ptr: 0, count: 0, last: zero, acc: zero, values };
        assert(average@.values =~= Window::empty(window_size as nat, zero).values);
        average
    }

    /// The number of values that the average is taken over.
    pub fn window_size(&self) -> (size: usize)
        ensures
            size == self@.values.len(),
    {
        self.values.len()
    }
}

impl<S: Copy + Add<Output = S> + Sub<Output = S> + Div<usize, Output = S>> Window<S> {
    /// The running sum without the value that the next one replaces.
    pub open spec fn drained(self) -> S {
        if self.full() {
            self.acc.sub_spec(self.values[self.ptr as int])
        } else {
            self.acc
        }
    }

    /// Whether a value can come in: the window has a place, any two values
    /// can be added and subtracted, and any value can be divided by a count
    /// of places.
    pub open spec fn admits(self) -> bool {
        &&& self.wf()
        &&& self.values.len() > 0
        &&& forall|a: S, b: S| #[trigger] a.add_req(b)
        &&& forall|a: S, b: S| #[trigger] a.sub_req(b)
        &&& forall|a: S, places: usize| places > 0 ==> #[trigger] a.div_req(places)
    }

    /// The window after `value` came in: it stands in the next place, the sum
    /// lost what stood there if the window was full and gained `value`, and
    /// the average is the sum over the places in use.
    pub open spec fn pushed(self, value: S) -> Window<S> {
        Window {
            values: self.values.update(self.ptr as int, value),
            ptr: (self.ptr + 1) % self.values.len(),
            count: self.next_count(),
            acc: self.drained().add_spec(value),
            last: self.drained().add_spec(value).div_spec(self.next_count() as usize),
        }
    }
}

impl<S: Copy + Add<Output = S> + Sub<Output = S> + Div<usize, Output = S>> Smooth<S> for MovingAverage<
    S,
> {
    open spec fn takes(&self, value: S) -> bool {
        self@.admits()
    }

    /// Takes `value` into the window and hands back the average of what the
    /// window holds then.
    fn smooth(&mut self, value: S) -> (smoothed: S)
        ensures
            final(self)@.values == old(self)@.pushed(value).values,
            final(self)@.ptr == old(self)@.pushed(value).ptr,
            final(self)@.count == old(self)@.pushed(value).count,
            final(self)@.admits(),
            smoothed == final(self)@.last,
            S::obeys_add_spec() && S::obeys_sub_spec() && S::obeys_div_spec() ==> final(self)@
                == old(self)@.pushed(value),
    {
        let len = self.values.len();
        if self.count < len {
            self.count = self.count + 1;
        } else {
            self.acc = self.acc - self.values[self.ptr];
        }
        self.acc = self.acc + value;
        self.values[self.ptr] = value;
        self.ptr = (self.ptr + 1) % len;
        self.last = self.acc / self.count;
        self.last
    }
}

/// An exponential filter: it holds the last smoothed value, the time step
/// between two values and the time constant of the decay.
#[derive(Clone, Copy)]
pub struct Exponential<S, T> {
    tau: T,
    dt: T,
    last: S,
}

impl<S, T> Exponential<S, T> {
    /// The last smoothed value.
    pub closed spec fn value(&self) -> S {
        self.last
    }

    /// The time between two values.
    pub closed spec fn time_step(&self) -> T {
        self.dt
    }

    /// The time constant of the decay.
    pub closed spec fn time_constant(&self) -> T {
        self.tau
    }
}

impl<S: Copy, T: Copy> Exponential<S, T> {
    /// A filter that holds `value`, for values that come `dt` apart, with
    /// the time constant `tau`.
    pub fn new(value: S, dt: T, tau: T) -> (filter: Exponential<S, T>)
        ensures
            filter.value() == value,
            filter.time_step() == dt,
            filter.time_constant() == tau,
    {
        Exponential { last: value, dt, tau }
    }

    /// Starts again from `value`.
    pub fn reset(&mut self, value: S)
        ensures
            final(self).value() == value,
            final(self).time_step() == old(self).time_step(),
            final(self).time_constant() == old(self).time_constant(),
    {
        self.last = value;
    }

    /// Sets the time between two values, and hands the filter back for the
    /// next call.
    pub fn dt(&mut self, dt: T) -> (filter: &mut Exponential<S, T>)
        ensures
            filter.value() == old(self).value(),
            filter.time_step() == dt,
            filter.time_constant() == old(self).time_constant(),
            *final(self) == *final(filter),
    {
        self.dt = dt;
        self
    }

    /// The last smoothed value.
    pub fn last(&self) -> (value: S)
        ensures
            value == self.value(),
    {
        self.last
    }

    /// The time between two values.
    pub fn step(&self) -> (dt: T)
        ensures
            dt == self.time_step(),
    {
        self.dt
    }

    /// The time constant of the decay.
    pub fn tau(&self) -> (tau: T)
        ensures
            tau == self.time_constant(),
    {
        self.tau
    }
}

impl<S: Copy + Add<Output = S> + Mul<T, Output = S>, T: Copy + Sub<Output = T>> Exponential<S, T> {
    /// The value that the filter holds once `value` came in with the weight
    /// that `alpha1` leaves: `alpha1` is the part of the old value that stays.
    pub open spec fn blended(&self, value: S, alpha1: T, one: T) -> S {
        value.mul_spec(one.sub_spec(alpha1)).add_spec(self.value().mul_spec(alpha1))
    }

    /// Takes `value` in: of the value held, the part `alpha1` stays, and
    /// `value` makes up the rest. The new value is handed back.
    pub fn blend(&mut self, value: S, alpha1: T, one: T) -> (smoothed: S)
        requires
            forall|a: S, b: S| #[trigger] a.add_req(b),
            forall|a: S, b: T| #[trigger] a.mul_req(b),
            forall|a: T, b: T| #[trigger] a.sub_req(b),
        ensures
            <S as AddSpec>::obeys_add_spec() && <S as MulSpec<T>>::obeys_mul_spec()
                && <T as SubSpec>::obeys_sub_spec() ==> smoothed == old(self).blended(
                value,
                alpha1,
                one,
            ),
            final(self).value() == smoothed,
            final(self).time_step() == old(self).time_step(),
            final(self).time_constant() == old(self).time_constant(),
    {
        self.last = value * (one - alpha1) + self.last * alpha1;
        self.last
    }
}

/// The four directions of the plane.
#[derive(Clone, Copy, Debug, PartialEq, Eq, Structural)]
pub enum Direction {
    Up,
    Down,
    Left,
    Right,
}

impl Direction {
    /// The step of length one in this direction, as its `x` and `y`.
    pub open spec fn unit_of(self) -> (int, int) {
        match self {
            Direction::Up => (0, 1),
            Direction::Down => (0, -1),
            Direction::Right => (1, 0),
            Direction::Left => (-1, 0),
        }
    }

    /// The step of length one in this direction, as its `x` and `y`.
    pub fn unit(self) -> (step: (i8, i8))
        ensures
            step.0 == self.unit_of().0,
            step.1 == self.unit_of().1,
    {
        match self {
            Direction::Up => (0, 1),
            Direction::Down => (0, -1),
            Direction::Right => (1, 0),
            Direction::Left => (-1, 0),
        }
    }
}

} // verus!
