use sfx_engine::builder::SignalBuilder;
use sfx_engine::delay::Delay;
use sfx_engine::effect::SoundEffect;
use sfx_engine::envelope::Envelope;
use sfx_engine::multiplexer::WaveTable;
use sfx_engine::render::Instant;
use sfx_engine::signal::Signal;
use sfx_engine::waveform::{Oscillator, Waveform};

fn timeline(frames: usize, rate: f32, pitch: f32, harmonics: (usize, usize)) -> Vec<Instant<f32>> {
    (0..frames)
        .map(|i| {
            let t = i as f32 / rate;
            let phase = (t * pitch).fract();
            let phi = (phase + phase) * std::f32::consts::PI;
            Instant {
                t,
                phase,
                cosines: (0..harmonics.0).map(|h| (phi * (h + 1) as f32).cos()).collect(),
                sines: (0..harmonics.1).map(|h| (phi * (h + 1) as f32).sin()).collect(),
            }
        })
        .collect()
}

fn startup() -> SignalBuilder<f32> {
    SignalBuilder::new(
        Oscillator::harmonics(220.0f32, 0.25, 0.3, vec![0.0, 0.1, 0.0, 0.2], vec![0.6]),
        Envelope::adsr(0.01f32, 0.5, 0.5, 0.5),
        0.25,
        8000.0,
        Delay { time: 300, tail: 2400, wet_dry: 1.0, feedback: 0.5 },
    )
}

fn settings(builder: &SignalBuilder<f32>) -> (f32, f32, f32, (f32, f32, f32, f32), (usize, usize, f32, f32)) {
    (
        builder.oscillator.tone.pitch,
        builder.pan,
        builder.sample_rate,
        (builder.envelope.attack, builder.envelope.decay, builder.envelope.sustain, builder.envelope.release),
        (builder.delay.time, builder.delay.tail, builder.delay.wet_dry, builder.delay.feedback),
    )
}

#[test]
fn a_builder_holds_what_it_was_made_of() {
    let builder = startup();
    assert_eq!(
        settings(&builder),
        (220.0, 0.25, 8000.0, (0.01, 0.5, 0.5, 0.5), (300, 2400, 1.0, 0.5))
    );
    assert!(matches!(builder.oscillator.waveform, Waveform::Harmonics(_, _)));
}

#[test]
fn each_setting_is_replaced_alone() {
    let pan = startup().with_pan(0.75);
    assert_eq!(settings(&pan), (220.0, 0.75, 8000.0, (0.01, 0.5, 0.5, 0.5), (300, 2400, 1.0, 0.5)));
    let envelope = startup().with_envelope(Envelope::adsr(0.0, 0.0, 1.0, 0.125));
    assert_eq!(
        settings(&envelope),
        (220.0, 0.25, 8000.0, (0.0, 0.0, 1.0, 0.125), (300, 2400, 1.0, 0.5))
    );
    let delay = startup().with_delay(Delay { time: 7, tail: 9, wet_dry: 0.5, feedback: 0.25 });
    assert_eq!(settings(&delay), (220.0, 0.25, 8000.0, (0.01, 0.5, 0.5, 0.5), (7, 9, 0.5, 0.25)));
    let oscillator = startup().with_oscillator(Oscillator::pwm(440.0, 2.0, 0.1, 0.5));
    assert_eq!(
        settings(&oscillator),
        (440.0, 0.25, 8000.0, (0.01, 0.5, 0.5, 0.5), (300, 2400, 1.0, 0.5))
    );
    assert!(matches!(oscillator.oscillator.waveform, Waveform::Square(_)));
    let fading = oscillator.with_envelope_ramp_down(0.0, 1.0);
    assert_eq!(
        settings(&fading),
        (440.0, 0.25, 8000.0, (0.0, 0.0, 1.0, 2.0), (300, 2400, 1.0, 0.5))
    );
}

#[test]
fn a_copy_of_a_builder_stays_as_it_was() {
    let first = startup();
    let second = first.clone().with_pan(1.0).with_delay(Delay { time: 1, tail: 0, wet_dry: 1.0, feedback: 0.0 });
    assert_eq!(first.pan, 0.25);
    assert_eq!(first.delay.time, 300);
    assert_eq!(second.pan, 1.0);
    assert_eq!(second.delay.time, 1);
}

#[test]
fn a_signal_is_the_echo_of_what_is_rendered() {
    let builder = startup();
    let instants = timeline(2000, 8000.0, 220.0, builder.oscillator.waveform.harmonics());
    let built = builder.build(&instants, 0.0, 1.0).unwrap();
    let by_hand =
        Signal::render(8000.0, &builder.oscillator, &builder.envelope, 0.25, &instants, 0.0, 1.0)
            .with_delay(&builder.delay, 1.0, 0.0)
            .unwrap();
    assert_eq!(built.len(), 4400);
    assert_eq!(built.sample_rate(), 8000.0);
    assert_eq!(built.frames(), by_hand.frames());
    assert!(built.frames().iter().any(|frame| frame[0] != 0.0 && frame[1] != 0.0));
}

#[test]
fn the_same_builder_builds_the_same_signal() {
    let instants = timeline(2000, 8000.0, 220.0, (4, 1));
    let a = startup().build(&instants, 0.0, 1.0).unwrap();
    let b = startup().build(&instants, 0.0, 1.0).unwrap();
    assert_eq!(a.len(), b.len());
    for (x, y) in a.frames().iter().zip(b.frames().iter()) {
        assert_eq!(x[0].to_bits(), y[0].to_bits());
        assert_eq!(x[1].to_bits(), y[1].to_bits());
    }
}

#[test]
fn recording_appends_the_signal_and_hands_back_its_index() {
    let mut table = WaveTable::new();
    let builder = startup();
    let instants = timeline(100, 8000.0, 220.0, (4, 1));
    assert_eq!(builder.record(&mut table, SoundEffect::Startup, &instants, 0.0, 1.0), Some(0));
    assert_eq!(builder.record(&mut table, SoundEffect::NewSpore, &instants[..50].to_vec(), 0.0, 1.0), Some(1));
    assert_eq!(table.len(), 2);
    assert_eq!(table.effect(0), Some(SoundEffect::Startup));
    assert_eq!(table.effect(1), Some(SoundEffect::NewSpore));
    assert_eq!(table.signal(0).unwrap().len(), 2500);
    assert_eq!(table.signal(1).unwrap().len(), 2450);
    assert_eq!(table.signal(0).unwrap().frames(), builder.build(&instants, 0.0, 1.0).unwrap().frames());
}

#[test]
fn a_builder_without_a_delay_time_builds_the_sound_and_a_silent_tail() {
    let mut table = WaveTable::new();
    let builder = startup().with_delay(Delay { time: 0, tail: 10, wet_dry: 1.0, feedback: 0.5 });
    let instants = timeline(100, 8000.0, 220.0, (4, 1));
    let built = builder.build(&instants, 0.0, 1.0).unwrap();
    let rendered =
        Signal::render(8000.0, &builder.oscillator, &builder.envelope, 0.25, &instants, 0.0, 1.0);
    assert_eq!(built.len(), 110);
    for (i, frame) in built.frames().iter().enumerate() {
        if i < 100 {
            let dry = rendered.frames()[i];
            assert_eq!(*frame, [0.0 * dry[0] + (1.0 * dry[0] + 0.0), 0.0 * dry[1] + (1.0 * dry[1] + 0.0)]);
        } else {
            assert_eq!(*frame, [0.0, 0.0]);
        }
    }
    assert_eq!(builder.record(&mut table, SoundEffect::Startup, &instants, 0.0, 1.0), Some(0));
    assert_eq!(table.signal(0).unwrap().len(), 110);
}

#[test]
fn a_tail_beyond_all_counting_builds_nothing() {
    let mut table = WaveTable::new();
    let builder =
        startup().with_delay(Delay { time: 4, tail: usize::MAX, wet_dry: 1.0, feedback: 0.5 });
    let instants = timeline(3, 8000.0, 220.0, (4, 1));
    assert!(builder.build(&instants, 0.0, 1.0).is_none());
    assert_eq!(builder.record(&mut table, SoundEffect::Startup, &instants, 0.0, 1.0), None);
    assert_eq!(table.len(), 0);
}
