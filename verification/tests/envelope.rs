use sfx_engine::envelope::{lerp_clip, Envelope};

#[test]
fn lerp_clip_follows_the_line_between_its_ends() {
    assert_eq!(lerp_clip(0.0f64, 2.0, 10.0, 20.0, 0.0, 0.0, 1.0), 10.0);
    assert_eq!(lerp_clip(0.0f64, 2.0, 10.0, 20.0, 0.5, 0.0, 1.0), 12.5);
    assert_eq!(lerp_clip(0.0f64, 2.0, 10.0, 20.0, 2.0, 0.0, 1.0), 20.0);
    assert_eq!(lerp_clip(1.0f64, 3.0, 1.0, -1.0, 2.0, 0.0, 1.0), 0.0);
}

#[test]
fn lerp_clip_does_not_leave_its_range() {
    assert_eq!(lerp_clip(0.0f64, 2.0, 10.0, 20.0, -5.0, 0.0, 1.0), 10.0);
    assert_eq!(lerp_clip(0.0f64, 2.0, 10.0, 20.0, 7.0, 0.0, 1.0), 20.0);
    assert_eq!(lerp_clip(1.0f64, 3.0, 1.0, -1.0, 9.0, 0.0, 1.0), -1.0);
}

#[test]
fn lerp_clip_over_a_window_of_no_width_picks_an_end() {
    assert_eq!(lerp_clip(1.0f32, 1.0, 2.0, 4.0, 1.0, 0.0, 1.0), 4.0);
    assert_eq!(lerp_clip(1.0f32, 1.0, 2.0, 4.0, 0.5, 0.0, 1.0), 2.0);
    assert_eq!(lerp_clip(1.0f32, 1.0, 2.0, 4.0, 1.5, 0.0, 1.0), 4.0);
}

#[test]
fn the_gain_starts_at_nothing_where_there_is_an_attack() {
    let envelope = Envelope::adsr(0.25f64, 0.5, 0.5, 0.25);
    assert_eq!(envelope.gain(1.0, 0.0, 0.0, 1.0), 0.0);
    assert_eq!(envelope.gain(1.0, 0.125, 0.0, 1.0), 0.5);
}

#[test]
fn the_gain_falls_to_sustain_at_decay() {
    let envelope = Envelope::adsr(0.25f64, 0.5, 0.5, 0.25);
    assert_eq!(envelope.gain(1.0, 0.25, 0.0, 1.0), 1.0);
    assert_eq!(envelope.gain(1.0, 0.375, 0.0, 1.0), 0.75);
    assert_eq!(envelope.gain(1.0, 0.5, 0.0, 1.0), 0.5);
    assert_eq!(envelope.gain(1.0, 0.625, 0.0, 1.0), 0.5);
}

#[test]
fn the_gain_is_sustain_where_the_release_begins_at_decay() {
    let envelope = Envelope::adsr(0.25f64, 0.5, 0.75, 0.5);
    assert_eq!(envelope.gain(1.0, 0.5, 0.0, 1.0), 0.75);
    assert_eq!(envelope.gain(1.0, 0.75, 0.0, 1.0), 0.375);
}

#[test]
fn the_gain_is_released_to_nothing_at_the_end() {
    let envelope = Envelope::adsr(0.25f64, 0.5, 0.5, 0.25);
    assert_eq!(envelope.gain(1.0, 0.75, 0.0, 1.0), 0.5);
    assert_eq!(envelope.gain(1.0, 0.875, 0.0, 1.0), 0.25);
    assert_eq!(envelope.gain(1.0, 1.0, 0.0, 1.0), 0.0);
    assert_eq!(envelope.gain(1.0, 5.0, 0.0, 1.0), 0.0);
}

#[test]
fn a_ramp_down_fades_over_the_whole_sound() {
    let envelope = Envelope::ramp_down(2.0f32, 0.0, 1.0);
    assert_eq!((envelope.attack, envelope.decay, envelope.sustain, envelope.release), (0.0, 0.0, 1.0, 2.0));
    assert_eq!(envelope.gain(2.0, 0.0, 0.0, 1.0), 1.0);
    assert_eq!(envelope.gain(2.0, 0.5, 0.0, 1.0), 0.75);
    assert_eq!(envelope.gain(2.0, 1.0, 0.0, 1.0), 0.5);
    assert_eq!(envelope.gain(2.0, 2.0, 0.0, 1.0), 0.0);
}

#[test]
fn a_flat_envelope_holds_the_gain() {
    let envelope = Envelope::flat(0.0f32, 1.0);
    assert_eq!((envelope.attack, envelope.decay, envelope.sustain, envelope.release), (0.0, 0.0, 1.0, 0.0));
    assert_eq!(envelope.gain(1.0, 0.0, 0.0, 1.0), 1.0);
    assert_eq!(envelope.gain(1.0, 0.5, 0.0, 1.0), 1.0);
    assert_eq!(envelope.gain(1.0, 1.0, 0.0, 1.0), 0.0);
}

#[test]
fn windows_that_do_not_fit_the_sound_are_cut_short() {
    let envelope = Envelope::adsr(2.0f64, 3.0, 0.5, 0.5);
    assert_eq!(envelope.gain(1.0, 0.5, 0.0, 1.0), 0.25);
    assert_eq!(envelope.gain(1.0, 1.0, 0.0, 1.0), 0.5);
    let late = Envelope::adsr(0.0f64, 0.0, 1.0, 4.0);
    assert_eq!(late.gain(1.0, 0.0, 0.0, 1.0), 0.25);
    assert_eq!(late.gain(1.0, 0.5, 0.0, 1.0), 0.125);
    assert_eq!(late.gain(1.0, 1.0, 0.0, 1.0), 0.0);
}
