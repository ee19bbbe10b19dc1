use sfx_engine::voice::Voice;

#[test]
fn a_new_voice_starts_at_frame_zero() {
    let voice = Voice::new(3, 100);
    assert_eq!(voice.signal, Some(3));
    assert_eq!(voice.length, 100);
    assert_eq!(voice.position, 0);
    assert_eq!(voice.remaining(), 100);
}

#[test]
fn the_default_voice_is_idle() {
    let voice = Voice::default();
    assert_eq!(voice.signal, None);
    assert_eq!(voice.length, 0);
    assert_eq!(voice.position, 0);
}

#[test]
fn advance_moves_the_cursor_and_reports_the_end() {
    let mut voice = Voice::new(0, 10);
    assert!(!voice.advance(4));
    assert_eq!(voice.position, 4);
    assert_eq!(voice.remaining(), 6);
    assert!(!voice.advance(5));
    assert_eq!(voice.position, 9);
    assert!(voice.advance(1));
    assert_eq!(voice.position, 10);
    assert_eq!(voice.remaining(), 0);
}

#[test]
fn advance_stops_at_the_end_of_the_signal() {
    let mut voice = Voice::new(0, 10);
    assert!(voice.advance(25));
    assert_eq!(voice.position, 10);
    let mut far = Voice::new(0, 10);
    assert!(far.advance(usize::MAX));
    assert_eq!(far.position, 10);
}

#[test]
fn a_voice_without_frames_is_at_its_end_at_once() {
    let mut voice = Voice::new(1, 0);
    assert_eq!(voice.remaining(), 0);
    assert!(voice.advance(0));
    assert_eq!(voice.position, 0);
}
