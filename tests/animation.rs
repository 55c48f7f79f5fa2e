use loopers_gui::animation::{
    playhead_stroke_width, Animation, AnimationFunction, BeatPulse, PROGRESS_ONE,
};

#[test]
fn easing_values() {
    let half = PROGRESS_ONE / 2;
    assert_eq!(AnimationFunction::Linear.value(half), 500_000);
    assert_eq!(AnimationFunction::EaseInQuad.value(half), 250_000);
    assert_eq!(AnimationFunction::EaseOutQuad.value(half), 750_000);
    assert_eq!(AnimationFunction::EaseInCubic.value(half), 125_000);
    assert_eq!(AnimationFunction::EaseOutCubic.value(half), 875_000);
    assert_eq!(AnimationFunction::EaseOutCubic.value(0), 0);
    assert_eq!(AnimationFunction::EaseOutCubic.value(PROGRESS_ONE), PROGRESS_ONE);
}

#[test]
fn pulse_progress_is_monotone_and_clamped() {
    let a = Animation::new(1_000, 500, AnimationFunction::EaseOutCubic);
    let mut prev = 0;
    for t in (900..=2_000).step_by(7) {
        let v = a.value(t);
        assert!(v <= PROGRESS_ONE);
        assert!(v >= prev);
        prev = v;
    }
    assert_eq!(a.value(0), 0);
    assert_eq!(a.value(1_500), PROGRESS_ONE);
    assert_eq!(a.value(100_000), PROGRESS_ONE);
    assert_eq!(a.value(1_250), 875_000);
}

#[test]
fn beat_pulse_starts_and_stops() {
    let mut p = BeatPulse::new();
    assert_eq!(p.update(0, 2_000), Some(0));
    assert!(p.animation.is_some());
    assert_eq!(p.update(0, 2_250), Some(875_000));
    assert_eq!(p.update(0, 9_000), Some(PROGRESS_ONE));
    assert_eq!(p.update(1, 9_100), None);
    assert!(p.animation.is_none());
    assert_eq!(p.update(0, -5), None);
    assert_eq!(p.update(0, 10_000), Some(0));
}

#[test]
fn stroke_width_narrows() {
    assert_eq!(playhead_stroke_width(None), 3_000);
    assert_eq!(playhead_stroke_width(Some(0)), 8_000);
    assert_eq!(playhead_stroke_width(Some(PROGRESS_ONE)), 3_000);
    assert_eq!(playhead_stroke_width(Some(875_000)), 3_625);
}
