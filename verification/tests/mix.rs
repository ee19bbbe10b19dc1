use sfx_engine::mix::{mix_segment, silence_all};
use sfx_engine::signal::Signal;

#[test]
fn silence_fills_the_whole_buffer() {
    let mut buffer = vec![[1.0f32, 2.0]; 3];
    silence_all(&mut buffer, 0.5);
    assert_eq!(buffer, vec![[0.5, 0.5]; 3]);
    let mut empty: Vec<[f32; 2]> = Vec::new();
    silence_all(&mut empty, 0.5);
    assert!(empty.is_empty());
}

#[test]
fn a_segment_is_added_to_the_start_of_the_buffer() {
    let frames = vec![[1.0f32, -1.0], [2.0, -2.0], [3.0, -3.0], [4.0, -4.0]];
    let mut buffer = vec![[10.0f32, 20.0]; 4];
    mix_segment(&mut buffer, &frames, 1, 2);
    assert_eq!(buffer, vec![[12.0, 18.0], [13.0, 17.0], [10.0, 20.0], [10.0, 20.0]]);
    mix_segment(&mut buffer, &frames, 4, 0);
    assert_eq!(buffer, vec![[12.0, 18.0], [13.0, 17.0], [10.0, 20.0], [10.0, 20.0]]);
    mix_segment(&mut buffer, &frames, 0, 4);
    assert_eq!(buffer, vec![[13.0, 17.0], [15.0, 15.0], [13.0, 17.0], [14.0, 16.0]]);
}

#[test]
fn a_signal_holds_its_frames_and_its_rate() {
    let signal = Signal::new(44100.0f64, vec![[0.25, 0.5], [0.75, 1.0]]);
    assert_eq!(signal.len(), 2);
    assert_eq!(signal.sample_rate(), 44100.0);
    assert_eq!(signal.frames(), &vec![[0.25, 0.5], [0.75, 1.0]]);
    let empty = Signal::new(1.0f32, Vec::new());
    assert_eq!(empty.len(), 0);
}
