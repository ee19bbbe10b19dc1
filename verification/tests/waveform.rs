use sfx_engine::waveform::{Oscillator, Waveform};

fn plain(waveform: &Waveform<f64>, phase: f64) -> f64 {
    waveform.sample(phase, &Vec::new(), &Vec::new(), 0.0, 1.0)
}

#[test]
fn a_square_is_low_before_its_duty_cycle_and_high_after() {
    let square = Waveform::Square(0.5f64);
    assert_eq!(plain(&square, 0.4), -1.0);
    assert_eq!(plain(&square, 0.6), 1.0);
    assert_eq!(plain(&square, 0.0), -1.0);
}

#[test]
fn a_square_is_high_at_its_duty_cycle() {
    assert_eq!(plain(&Waveform::Square(0.5f64), 0.5), 1.0);
    assert_eq!(plain(&Waveform::Square(0.25f64), 0.25), 1.0);
}

#[test]
fn a_triangle_rises_to_its_slant_and_falls_back() {
    let triangle = Waveform::Triangle(0.5f64);
    assert_eq!(plain(&triangle, 0.0), -1.0);
    assert_eq!(plain(&triangle, 0.25), 0.0);
    assert_eq!(plain(&triangle, 0.5), 1.0);
    assert_eq!(plain(&triangle, 0.75), 0.0);
    assert_eq!(plain(&triangle, 1.0), -1.0);
    let skewed = Waveform::Triangle(0.25f64);
    assert_eq!(plain(&skewed, 0.125), 0.0);
    assert_eq!(plain(&skewed, 0.25), 1.0);
    assert_eq!(plain(&skewed, 0.625), 0.0);
}

#[test]
fn a_triangle_does_not_leave_its_range() {
    let triangle = Waveform::Triangle(0.5f64);
    assert_eq!(plain(&triangle, -3.0), -1.0);
    assert_eq!(plain(&triangle, 3.0), -1.0);
}

#[test]
fn silence_is_nothing() {
    assert_eq!(plain(&Waveform::Silence, 0.3), 0.0);
    assert_eq!(Waveform::<f64>::Silence.harmonics(), (0, 0));
}

#[test]
fn a_sine_is_the_first_sine() {
    let sine = Waveform::<f64>::Sin;
    assert_eq!(sine.harmonics(), (0, 1));
    assert_eq!(sine.sample(0.25, &vec![], &vec![0.75, -0.5], 0.0, 1.0), 0.75);
}

#[test]
fn harmonics_are_weighed_and_summed() {
    let waveform = Waveform::Harmonics(vec![0.0f64, 0.5, 0.0, 0.25], vec![0.5]);
    assert_eq!(waveform.harmonics(), (4, 1));
    let cosines = vec![1.0, 2.0, 4.0, 8.0, 16.0];
    let sines = vec![-3.0, 32.0];
    assert_eq!(waveform.sample(0.1, &cosines, &sines, 0.0, 1.0), (0.5 * 2.0 + 0.25 * 8.0) + 0.5 * -3.0);
    let none = Waveform::Harmonics(Vec::<f64>::new(), Vec::new());
    assert_eq!(none.harmonics(), (0, 0));
    assert_eq!(none.sample(0.1, &cosines, &sines, 0.0, 1.0), 0.0);
}

#[test]
fn an_oscillator_plays_its_waveform_at_its_amplitude() {
    let square = Oscillator::pwm(440.0f64, 2.0, 0.25, 0.5);
    assert_eq!(square.pitch(), 440.0);
    assert_eq!(square.duration(), 2.0);
    assert_eq!(square.sample(0.75, &vec![], &vec![], 0.0, 1.0), 0.25);
    assert_eq!(square.sample(0.25, &vec![], &vec![], 0.0, 1.0), -0.25);
    let sine = Oscillator::sin(440.0f64, 1.0, 0.5);
    assert_eq!(sine.sample(0.0, &vec![], &vec![0.5], 0.0, 1.0), 0.25);
    let triangle = Oscillator::triangle(1.0f64, 1.0, 2.0, 0.5);
    assert_eq!(triangle.sample(0.5, &vec![], &vec![], 0.0, 1.0), 2.0);
    let harmonics = Oscillator::harmonics(1.0f64, 1.0, 2.0, vec![1.0], vec![1.0]);
    assert_eq!(harmonics.sample(0.5, &vec![3.0], &vec![4.0], 0.0, 1.0), 14.0);
    let silence = Oscillator::silence(1.0f64);
    assert_eq!((silence.pitch(), silence.duration(), silence.tone.amplitude), (1.0, 1.0, 1.0));
    assert_eq!(silence.sample(0.5, &vec![], &vec![], 0.0, 1.0), 0.0);
}
