use audio_core::agc::{isqrt, soft_clip_exec, AutomaticGainControl, AGC_INITIAL_GAIN};

#[test]
fn integer_square_root() {
    assert_eq!(isqrt(0), 0);
    assert_eq!(isqrt(15), 3);
    assert_eq!(isqrt(16), 4);
    assert_eq!(isqrt(1_000_000_000_000), 1_000_000);
}

#[test]
fn soft_clip_knee_and_saturation() {
    assert_eq!(soft_clip_exec(1234), 1234);
    assert_eq!(soft_clip_exec(-29491), -29491);
    assert_eq!(soft_clip_exec(40000), 31988);
    assert_eq!(soft_clip_exec(-100000), -32621);
}

#[test]
fn agc_moves_gain_toward_target() {
    let mut agc = AutomaticGainControl::new();
    assert_eq!(agc.current_gain(), AGC_INITIAL_GAIN);
    let out = agc.process(&[1000, -1000, 1000, -1000]);
    assert_eq!(agc.current_gain(), 2473);
    assert_eq!(out, vec![9660, -9660, 9660, -9660]);
}

#[test]
fn agc_ignores_near_silence() {
    let mut agc = AutomaticGainControl::new();
    assert_eq!(agc.process(&[10, -10]), vec![100, -100]);
    assert_eq!(agc.current_gain(), AGC_INITIAL_GAIN);
    assert_eq!(agc.process(&[]), Vec::<i16>::new());
    assert_eq!(agc.current_gain(), AGC_INITIAL_GAIN);
}

#[test]
fn agc_soft_clips_loud_input() {
    let mut agc = AutomaticGainControl::new();
    let out = agc.process(&[20000, -30000]);
    assert_eq!(agc.current_gain(), 2444);
    assert_eq!(out, vec![32701, -32725]);
}

#[test]
fn wide_inputs_are_accepted() {
    assert_eq!(isqrt(u64::MAX), 4294967295);
    assert_eq!(soft_clip_exec(i64::MIN), -32766);
    assert_eq!(soft_clip_exec(i64::MAX), 32766);
}
