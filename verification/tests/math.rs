use sfx_engine::math::{Direction, Exponential, MovingAverage, Smooth};
use std::ops::{Add, Div, Sub};

#[derive(Clone, Copy, Debug, PartialEq)]
struct Num(f64);

impl Add for Num {
    type Output = Num;
    fn add(self, other: Num) -> Num {
        Num(self.0 + other.0)
    }
}

impl Sub for Num {
    type Output = Num;
    fn sub(self, other: Num) -> Num {
        Num(self.0 - other.0)
    }
}

impl Div<usize> for Num {
    type Output = Num;
    fn div(self, count: usize) -> Num {
        Num(self.0 / count as f64)
    }
}

struct Passing;

impl Smooth<i32> for Passing {}

#[test]
fn a_moving_average_is_the_mean_of_its_window() {
    let mut average = MovingAverage::new(3, Num(0.0));
    assert_eq!(average.smooth(Num(3.0)), Num(3.0));
    assert_eq!(average.smooth(Num(6.0)), Num(4.5));
    assert_eq!(average.smooth(Num(9.0)), Num(6.0));
    assert_eq!(average.smooth(Num(12.0)), Num(9.0));
    assert_eq!(average.smooth(Num(0.0)), Num(7.0));
    assert_eq!(average.smooth(Num(0.0)), Num(4.0));
    assert_eq!(average.smooth(Num(0.0)), Num(0.0));
}

#[test]
fn a_window_of_one_hands_each_value_back() {
    let mut average = MovingAverage::new(1, Num(0.0));
    assert_eq!(average.smooth(Num(5.0)), Num(5.0));
    assert_eq!(average.smooth(Num(-2.0)), Num(-2.0));
}

#[test]
fn a_filter_that_says_nothing_else_hands_each_value_back() {
    let mut passing = Passing;
    assert_eq!(passing.smooth(7), 7);
    assert_eq!(passing.smooth(-1), -1);
}

#[test]
fn an_exponential_filter_keeps_what_it_is_given() {
    let mut filter = Exponential::new(1.5f64, 0.25f32, 2.0f32);
    assert_eq!((filter.last(), filter.step(), filter.tau()), (1.5, 0.25, 2.0));
    filter.reset(-4.0);
    assert_eq!((filter.last(), filter.step(), filter.tau()), (-4.0, 0.25, 2.0));
    filter.dt(0.5).reset(8.0);
    assert_eq!((filter.last(), filter.step(), filter.tau()), (8.0, 0.5, 2.0));
    let copy = filter;
    filter.dt(1.0);
    assert_eq!(copy.step(), 0.5);
    assert_eq!(filter.step(), 1.0);
}

#[test]
fn each_direction_has_its_unit_step() {
    assert_eq!(Direction::Up.unit(), (0, 1));
    assert_eq!(Direction::Down.unit(), (0, -1));
    assert_eq!(Direction::Right.unit(), (1, 0));
    assert_eq!(Direction::Left.unit(), (-1, 0));
}
