use anim_timeline::driver::{
    apply_animation_properties, handle_animation_event, update_animations, AnimationComponent,
    AnimationEvent,
};
use anim_timeline::easing::Easing;
use anim_timeline::fixed::ONE;
use anim_timeline::keyframe::Keyframe;
use anim_timeline::property::{
    AnimatableProperty, ColorMaterial, LinearRgba, Transform2d, Vec2, Vec3,
};
use anim_timeline::timeline::{AnimationMode, AnimationState, AnimationTimeline};

/// A playing timeline of duration 2.0 moving from the origin to (2, 0).
fn two_second(mode: AnimationMode) -> AnimationTimeline {
    let mut tl = AnimationTimeline::new("move".to_string());
    tl.add_keyframe("position", Keyframe::position(0, Vec2::new(0, 0), Easing::Linear));
    tl.add_keyframe(
        "position",
        Keyframe::position(2 * ONE, Vec2::new(2 * ONE, 0), Easing::Linear),
    );
    tl.set_mode(mode);
    assert!(tl.play());
    tl
}

#[test]
fn once_finishes_exactly_once() {
    let mut tl = two_second(AnimationMode::Once);
    assert_eq!(tl.duration, 2 * ONE);
    assert!(!tl.update(ONE));
    assert_eq!(tl.state, AnimationState::Playing);
    assert!(tl.update(ONE));
    assert_eq!(tl.state, AnimationState::Finished);
    assert_eq!(tl.elapsed_time, 2 * ONE);
    assert!(tl.is_finished());
    assert!(!tl.update(ONE));
    assert!(!tl.update(5 * ONE));
    assert_eq!(tl.elapsed_time, 2 * ONE);
    assert_eq!(tl.progress(), ONE);
}

#[test]
fn loop_wraps_around() {
    let mut tl = two_second(AnimationMode::Loop);
    assert!(!tl.update(3 * ONE));
    assert_eq!(tl.elapsed_time, ONE);
    assert_eq!(tl.state, AnimationState::Playing);
    assert_eq!(tl.progress(), 5000);
}

#[test]
fn ping_pong_reverses_at_both_ends() {
    let mut tl = two_second(AnimationMode::PingPong);
    tl.update(25000);
    assert!(tl.reverse);
    assert_eq!(tl.elapsed_time, 2 * ONE);
    tl.update(ONE);
    assert!(tl.reverse);
    assert_eq!(tl.elapsed_time, ONE);
    assert_eq!(tl.repeat_count, 0);
    tl.update(ONE);
    assert!(!tl.reverse);
    assert_eq!(tl.elapsed_time, 0);
    assert_eq!(tl.repeat_count, 1);
    assert_eq!(tl.state, AnimationState::Playing);
}

#[test]
fn repeat_counts_passes_then_finishes() {
    let mut tl = two_second(AnimationMode::Repeat(2));
    assert!(!tl.update(25000));
    assert_eq!(tl.repeat_count, 1);
    assert_eq!(tl.elapsed_time, 5000);
    assert!(tl.update(2 * ONE));
    assert_eq!(tl.repeat_count, 2);
    assert_eq!(tl.elapsed_time, 2 * ONE);
    assert_eq!(tl.state, AnimationState::Finished);
}

#[test]
fn zero_duration_progress_is_zero() {
    let tl = AnimationTimeline::new("empty".to_string());
    assert_eq!(tl.duration, 0);
    assert_eq!(tl.progress(), 0);
    let mut looping = AnimationTimeline::new("empty".to_string());
    looping.set_mode(AnimationMode::Loop);
    looping.play();
    looping.update(ONE);
    assert_eq!(looping.elapsed_time, 0);
    assert_eq!(looping.progress(), 0);
    let mut once = AnimationTimeline::new("empty".to_string());
    once.play();
    assert!(once.update(0));
    assert_eq!(once.state, AnimationState::Finished);
}

#[test]
fn delay_is_consumed_before_moving() {
    let mut tl = two_second(AnimationMode::Once);
    tl.stop();
    tl.set_delay(ONE);
    tl.play();
    tl.update(5000);
    assert_eq!(tl.elapsed_time, 0);
    assert_eq!(tl.delay_elapsed, 5000);
    // The frame that crosses the delay keeps its excess.
    tl.update(7500);
    assert_eq!(tl.elapsed_time, 2500);
    tl.update(2500);
    assert_eq!(tl.elapsed_time, 5000);
}

#[test]
fn speed_scales_time() {
    let mut tl = two_second(AnimationMode::Once);
    tl.set_speed(2 * ONE);
    tl.update(5000);
    assert_eq!(tl.elapsed_time, ONE);
    tl.set_speed(-3);
    assert_eq!(tl.speed, 0);
    tl.update(ONE);
    assert_eq!(tl.elapsed_time, ONE);
}

#[test]
fn very_high_speeds_are_kept() {
    let mut tl = two_second(AnimationMode::Loop);
    tl.set_speed(1000 * ONE);
    assert_eq!(tl.speed, 1000 * ONE);
    tl.update(25);
    assert_eq!(tl.elapsed_time, 5000);
    tl.set_speed(i64::MAX);
    tl.update(ONE);
    assert!(tl.elapsed_time >= 0 && tl.elapsed_time < 2 * ONE);
    let mut once = two_second(AnimationMode::Once);
    once.set_speed(i64::MAX);
    assert!(once.update(1));
    assert_eq!(once.elapsed_time, 2 * ONE);
}

#[test]
fn pause_resume_stop_restart() {
    let mut tl = two_second(AnimationMode::Once);
    tl.update(5000);
    tl.pause();
    assert_eq!(tl.state, AnimationState::Paused);
    tl.update(5000);
    assert_eq!(tl.elapsed_time, 5000);
    assert!(!tl.play());
    assert!(tl.is_playing());
    assert_eq!(tl.elapsed_time, 5000);
    assert!(!tl.play());
    tl.stop();
    assert_eq!(tl.state, AnimationState::Idle);
    assert_eq!(tl.elapsed_time, 0);
    tl.play();
    tl.update(ONE);
    assert!(tl.restart());
    assert_eq!(tl.elapsed_time, 0);
    assert!(tl.is_playing());
    tl.pause();
    tl.pause();
    assert_eq!(tl.state, AnimationState::Paused);
}

#[test]
fn current_values_sample_every_track() {
    let mut tl = two_second(AnimationMode::Once);
    tl.add_keyframe("opacity", Keyframe::opacity(0, ONE, Easing::Linear));
    tl.add_keyframe("opacity", Keyframe::opacity(ONE, 0, Easing::Linear));
    tl.update(5000);
    let values = tl.get_current_values();
    assert_eq!(
        values,
        vec![
            ("position".to_string(), AnimatableProperty::Position(Vec2::new(5000, 0))),
            ("opacity".to_string(), AnimatableProperty::Opacity(5000)),
        ]
    );
}

#[test]
fn add_keyframes_adds_in_order() {
    let mut tl = AnimationTimeline::new("x".to_string());
    tl.add_keyframes(
        "rotation",
        vec![
            Keyframe::rotation(3 * ONE, 3, Easing::Linear),
            Keyframe::rotation(ONE, 1, Easing::Linear),
        ],
    );
    assert_eq!(tl.tracks.len(), 1);
    assert_eq!(tl.tracks[0].keyframes.len(), 2);
    assert_eq!(tl.tracks[0].keyframes[0].time, ONE);
    assert_eq!(tl.duration, 3 * ONE);
}

fn plain_transform() -> Transform2d {
    Transform2d {
        translation: Vec3 { x: 0, y: 0, z: 5 },
        rotation: 0,
        scale: Vec3 { x: ONE, y: ONE, z: ONE },
    }
}

#[test]
fn values_without_a_result_leave_the_target() {
    let mut tl = AnimationTimeline::new("mixed".to_string());
    tl.add_keyframe("odd", Keyframe::position(0, Vec2::new(0, 0), Easing::Linear));
    tl.add_keyframe("odd", Keyframe::rotation(2 * ONE, ONE, Easing::Linear));
    tl.play();
    tl.update(ONE);
    assert!(tl.get_current_values().is_empty());
    let component = AnimationComponent::new(tl);
    let mut t = plain_transform();
    let mut m = Some(ColorMaterial { color: LinearRgba::white() });
    apply_animation_properties(&component, &mut t, &mut m);
    assert_eq!(t, plain_transform());
    assert_eq!(m, Some(ColorMaterial { color: LinearRgba::white() }));
}

#[test]
fn opacity_wins_over_color_alpha() {
    let mut tl = AnimationTimeline::new("paint".to_string());
    tl.add_keyframe("opacity", Keyframe::opacity(0, 2500, Easing::Linear));
    tl.add_keyframe(
        "color",
        Keyframe::color(0, LinearRgba::new(ONE, 0, 0, ONE), Easing::Linear),
    );
    tl.add_keyframe("position", Keyframe::position(0, Vec2::new(3, 4), Easing::Linear));
    tl.play();
    let component = AnimationComponent::new(tl);
    let mut t = plain_transform();
    let mut m = Some(ColorMaterial { color: LinearRgba::white() });
    apply_animation_properties(&component, &mut t, &mut m);
    assert_eq!(m, Some(ColorMaterial { color: LinearRgba::new(ONE, 0, 0, 2500) }));
    assert_eq!(t.translation, Vec3 { x: 3, y: 4, z: 5 });
    let mut none: Option<ColorMaterial> = None;
    apply_animation_properties(&component, &mut t, &mut none);
    assert_eq!(none, None);
}

#[test]
fn paused_or_manual_components_do_not_write() {
    let mut tl = two_second(AnimationMode::Once);
    tl.update(ONE);
    let manual = AnimationComponent::with_auto_apply(tl, false);
    let mut t = plain_transform();
    let mut m = None;
    apply_animation_properties(&manual, &mut t, &mut m);
    assert_eq!(t, plain_transform());
    let mut auto = AnimationComponent::new(manual.timeline);
    handle_animation_event(&mut auto, AnimationEvent::Pause);
    apply_animation_properties(&auto, &mut t, &mut m);
    assert_eq!(t, plain_transform());
    handle_animation_event(&mut auto, AnimationEvent::Play);
    apply_animation_properties(&auto, &mut t, &mut m);
    assert_eq!(t.translation, Vec3 { x: ONE, y: 0, z: 5 });
}

#[test]
fn events_drive_the_state_machine() {
    let mut c = AnimationComponent::new(two_second(AnimationMode::Once));
    c.timeline.update(ONE);
    assert!(!handle_animation_event(&mut c, AnimationEvent::Stop));
    assert_eq!(c.timeline.state, AnimationState::Idle);
    assert!(handle_animation_event(&mut c, AnimationEvent::Play));
    c.timeline.update(ONE);
    assert!(handle_animation_event(&mut c, AnimationEvent::Restart));
    assert_eq!(c.timeline.elapsed_time, 0);
}

#[test]
fn frame_update_reports_finished_components() {
    let mut components = vec![
        AnimationComponent::new(two_second(AnimationMode::Once)),
        AnimationComponent::new(two_second(AnimationMode::Loop)),
    ];
    assert_eq!(update_animations(&mut components, ONE), vec![false, false]);
    assert_eq!(update_animations(&mut components, ONE), vec![true, false]);
    assert_eq!(components[0].timeline.state, AnimationState::Finished);
    assert_eq!(components[1].timeline.elapsed_time, 0);
}
