use sfx_engine::delay::Delay;
use sfx_engine::signal::Signal;

fn impulse(frames: usize) -> Signal<f32> {
    let mut source = vec![[0.0f32, 0.0]; frames];
    source[0] = [1.0, 0.0];
    Signal::new(48000.0, source)
}

#[test]
fn an_impulse_echoes_from_side_to_side() {
    let delay = Delay { time: 12000, tail: 48000, wet_dry: 1.0f32, feedback: 0.5 };
    let echoed = impulse(100).with_delay(&delay, 1.0, 0.0).unwrap();
    assert_eq!(echoed.len(), 48100);
    assert_eq!(echoed.sample_rate(), 48000.0);
    let out = echoed.frames();
    assert_eq!(out[0], [1.0, 0.0]);
    assert_eq!(out[12000], [0.0, 0.5]);
    assert_eq!(out[24000], [0.25, 0.0]);
    assert_eq!(out[36000], [0.0, 0.125]);
    assert_eq!(out[48000], [0.0625, 0.0]);
    for (i, frame) in out.iter().enumerate() {
        if i % 12000 != 0 {
            assert_eq!(*frame, [0.0, 0.0]);
        }
    }
}

#[test]
fn the_source_is_weighed_by_wet_and_dry() {
    let delay = Delay { time: 2, tail: 4, wet_dry: 0.5f32, feedback: 0.5 };
    let source = Signal::new(8.0f32, vec![[1.0, 2.0], [4.0, 8.0], [16.0, 32.0]]);
    let echoed = source.with_delay(&delay, 1.0, 0.0).unwrap();
    let out = echoed.frames();
    assert_eq!(out.len(), 7);
    // wet(0) = [0.5, 1], wet(1) = [2, 4]
    assert_eq!(out[0], [0.5 + 0.5, 1.0 + 1.0]);
    assert_eq!(out[1], [2.0 + 2.0, 4.0 + 4.0]);
    // wet(2) = 0.5 src + 0.5 swap(wet(0)) = [8 + 0.5, 16 + 0.25]
    assert_eq!(out[2], [8.0 + 8.5, 16.0 + 16.25]);
    // wet(3) = 0.5 swap(wet(1)) = [2, 1]
    assert_eq!(out[3], [2.0, 1.0]);
    // wet(4) = 0.5 swap(wet(2)) = [8.125, 4.25]
    assert_eq!(out[4], [8.125, 4.25]);
    assert_eq!(out[5], [0.5, 1.0]);
    assert_eq!(out[6], [2.125, 4.0625]);
}

#[test]
fn the_output_is_as_long_as_source_and_tail() {
    for time in [0usize, 1, 3, 50] {
        for (frames, tail) in [(0usize, 0usize), (0, 5), (7, 0), (7, 5)] {
            let delay = Delay { time, tail, wet_dry: 1.0f32, feedback: 0.5 };
            assert_eq!(delay.output_length(frames), Some(frames + tail));
            let source = Signal::new(1.0f32, vec![[1.0, 1.0]; frames]);
            assert_eq!(source.with_delay(&delay, 1.0, 0.0).unwrap().len(), frames + tail);
        }
    }
}

#[test]
fn a_line_without_delay_brings_nothing_back() {
    let delay = Delay { time: 0, tail: 3, wet_dry: 0.25f32, feedback: 0.5 };
    assert_eq!(delay.output_length(0), Some(3));
    assert_eq!(delay.output_length(2), Some(5));
    let source = Signal::new(8.0f32, vec![[1.0, 2.0], [4.0, 8.0]]);
    let echoed = source.with_delay(&delay, 1.0, 0.0).unwrap();
    assert_eq!(echoed.sample_rate(), 8.0);
    // each frame: (1 - 0.25) src + (0.25 src + 0)
    assert_eq!(
        echoed.frames(),
        &vec![[0.75 + 0.25, 1.5 + 0.5], [3.0 + 1.0, 6.0 + 2.0], [0.0, 0.0], [0.0, 0.0], [0.0, 0.0]]
    );
    let only_tail = Signal::new(1.0f32, Vec::new()).with_delay(&delay, 1.0, 0.0).unwrap();
    assert_eq!(only_tail.frames(), &vec![[0.0, 0.0]; 3]);
    let nothing = Delay { time: 0, tail: 0, wet_dry: 1.0f32, feedback: 0.5 };
    assert_eq!(nothing.output_length(0), Some(0));
    assert_eq!(Signal::new(1.0f32, Vec::new()).with_delay(&nothing, 1.0, 0.0).unwrap().len(), 0);
    let plain = Signal::new(1.0f32, vec![[1.0, -1.0]]).with_delay(&nothing, 1.0, 0.0).unwrap();
    assert_eq!(plain.frames(), &vec![[1.0, -1.0]]);
}

#[test]
fn a_tail_beyond_all_counting_is_refused() {
    let delay = Delay { time: 4, tail: usize::MAX, wet_dry: 1.0f32, feedback: 0.5 };
    assert_eq!(delay.output_length(0), Some(usize::MAX));
    assert_eq!(delay.output_length(1), None);
    assert!(Signal::new(1.0f32, vec![[1.0, 1.0]]).with_delay(&delay, 1.0, 0.0).is_none());
}

#[test]
fn a_delay_longer_than_the_output_leaves_the_source_alone() {
    let delay = Delay { time: 100, tail: 2, wet_dry: 1.0f32, feedback: 0.5 };
    let source = Signal::new(1.0f32, vec![[1.0, 2.0], [3.0, 4.0]]);
    let echoed = source.with_delay(&delay, 1.0, 0.0).unwrap();
    assert_eq!(echoed.frames(), &vec![[1.0, 2.0], [3.0, 4.0], [0.0, 0.0], [0.0, 0.0]]);
}

#[test]
fn feedback_above_one_grows_without_clipping() {
    let delay = Delay { time: 1, tail: 3, wet_dry: 1.0f32, feedback: 2.0 };
    let source = Signal::new(1.0f32, vec![[1.0, 0.0]]);
    let echoed = source.with_delay(&delay, 1.0, 0.0).unwrap();
    assert_eq!(echoed.frames(), &vec![[1.0, 0.0], [0.0, 2.0], [4.0, 0.0], [0.0, 8.0]]);
}
