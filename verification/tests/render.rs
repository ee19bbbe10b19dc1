use sfx_engine::envelope::Envelope;
use sfx_engine::render::Instant;
use sfx_engine::signal::Signal;
use sfx_engine::waveform::Oscillator;

/// The timeline of `frames` frames at `rate` frames a second for a pitch.
fn timeline(frames: usize, rate: f32, pitch: f32, harmonics: (usize, usize)) -> Vec<Instant<f32>> {
    (0..frames)
        .map(|i| {
            let t = i as f32 / rate;
            let phase = (t * pitch).fract();
            let phi = (phase + phase) * std::f32::consts::PI;
            Instant {
                t,
                phase,
                cosines: (0..harmonics.0).map(|h| (phi * (h + 1) as f32).cos()).collect(),
                sines: (0..harmonics.1).map(|h| (phi * (h + 1) as f32).sin()).collect(),
            }
        })
        .collect()
}

#[test]
fn a_frame_holds_the_panned_value_of_its_instant() {
    let oscillator = Oscillator::pwm(1.0f32, 1.0, 0.5, 0.5);
    let envelope = Envelope::ramp_down(1.0f32, 0.0, 1.0);
    let instants = timeline(4, 4.0, 1.0, oscillator.waveform.harmonics());
    let signal = Signal::render(4.0, &oscillator, &envelope, 0.25, &instants, 0.0, 1.0);
    assert_eq!(signal.len(), 4);
    assert_eq!(signal.sample_rate(), 4.0);
    // values: -0.5 * 1, -0.5 * 0.75, 0.5 * 0.5, 0.5 * 0.25
    assert_eq!(
        signal.frames(),
        &vec![
            [-0.5 * 0.75, -0.5 * 0.25],
            [-0.375 * 0.75, -0.375 * 0.25],
            [0.25 * 0.75, 0.25 * 0.25],
            [0.125 * 0.75, 0.125 * 0.25],
        ]
    );
}

#[test]
fn the_pan_moves_the_sound_between_the_channels() {
    let oscillator = Oscillator::pwm(1.0f32, 1.0, 1.0, 0.0);
    let envelope = Envelope::flat(0.0f32, 1.0);
    let instants = timeline(1, 1.0, 1.0, (0, 0));
    let left = Signal::render(1.0, &oscillator, &envelope, 0.0, &instants, 0.0, 1.0);
    assert_eq!(left.frames(), &vec![[1.0, 0.0]]);
    let right = Signal::render(1.0, &oscillator, &envelope, 1.0, &instants, 0.0, 1.0);
    assert_eq!(right.frames(), &vec![[0.0, 1.0]]);
    let centre = Signal::render(1.0, &oscillator, &envelope, 0.5, &instants, 0.0, 1.0);
    assert_eq!(centre.frames(), &vec![[0.5, 0.5]]);
}

#[test]
fn an_empty_timeline_renders_no_frames() {
    let oscillator = Oscillator::sin(440.0f32, 0.0, 1.0);
    let envelope = Envelope::flat(0.0f32, 1.0);
    let signal = Signal::render(48000.0, &oscillator, &envelope, 0.5, &Vec::new(), 0.0, 1.0);
    assert_eq!(signal.len(), 0);
}

#[test]
fn a_sine_is_rendered_from_the_sines_of_its_timeline() {
    let rate = 48000.0f32;
    let oscillator = Oscillator::sin(440.0f32, 1.0, 0.1);
    let envelope = Envelope::ramp_down(1.0f32, 0.0, 1.0);
    let instants = timeline(48000, rate, 440.0, oscillator.waveform.harmonics());
    let signal = Signal::render(rate, &oscillator, &envelope, 0.5, &instants, 0.0, 1.0);
    assert_eq!(signal.len(), 48000);
    for (i, frame) in signal.frames().iter().enumerate() {
        let t = i as f32 / rate;
        let phase = (t * 440.0).fract();
        let sine = ((phase + phase) * std::f32::consts::PI).sin();
        let gain = 1.0 + (0.0 - 1.0) * ((t - 0.0) / (1.0 - 0.0)).min(1.0).max(0.0);
        let value = 0.1 * sine * gain;
        assert_eq!(*frame, [value * 0.5, value * 0.5]);
    }
    assert!((signal.frames()[27][0] - 0.05 * (2.0 * std::f32::consts::PI * 440.0 * 27.0 / 48000.0).sin()
        * (1.0 - 27.0 / 48000.0)).abs() < 1.0e-6);
}
