use anim_timeline::builder::AnimationBuilder;
use anim_timeline::easing::Easing;
use anim_timeline::fixed::ONE;
use anim_timeline::keyframe::Keyframe;
use anim_timeline::presets::{AnimationPresets, TAU};
use anim_timeline::property::{AnimatableProperty, LinearRgba, Vec2};
use anim_timeline::timeline::{AnimationMode, AnimationState};

#[test]
fn build_inserts_a_start_keyframe() {
    let v = Vec2::new(10 * ONE, 0);
    let w = Vec2::new(10 * ONE, 10 * ONE);
    let tl = AnimationBuilder::new("walk")
        .move_to(v, ONE, Easing::Linear)
        .move_to(w, ONE, Easing::Linear)
        .build();
    assert_eq!(tl.tracks.len(), 1);
    assert_eq!(tl.tracks[0].name, "position");
    assert_eq!(
        tl.tracks[0].keyframes,
        vec![
            Keyframe::position(0, Vec2::new(0, 0), Easing::Linear),
            Keyframe::position(ONE, v, Easing::Linear),
            Keyframe::position(2 * ONE, w, Easing::Linear),
        ]
    );
    assert_eq!(tl.duration, 2 * ONE);
    assert_eq!(tl.state, AnimationState::Idle);
}

#[test]
fn start_values_depend_on_the_kind() {
    let tl = AnimationBuilder::default()
        .scale_to(2 * ONE, ONE, Easing::Linear)
        .rotate_to(ONE, ONE, Easing::Linear)
        .color_to(LinearRgba::new(0, 0, 0, ONE), ONE, Easing::Linear)
        .fade_out(ONE, Easing::Linear)
        .add_keyframe("glow", ONE, AnimatableProperty::Custom("glow".to_string(), ONE), Easing::Linear)
        .build();
    assert_eq!(tl.name, "default_animation");
    let firsts: Vec<(String, AnimatableProperty)> = tl
        .tracks
        .iter()
        .map(|t| (t.name.clone(), t.keyframes[0].property.clone()))
        .collect();
    assert_eq!(
        firsts,
        vec![
            ("scale".to_string(), AnimatableProperty::Scale(Vec2::splat(ONE))),
            ("rotation".to_string(), AnimatableProperty::Rotation(0)),
            ("color".to_string(), AnimatableProperty::Color(LinearRgba::white())),
            ("opacity".to_string(), AnimatableProperty::Opacity(ONE)),
            ("glow".to_string(), AnimatableProperty::Custom("glow".to_string(), 0)),
        ]
    );
    assert_eq!(tl.duration, 4 * ONE);
}

#[test]
fn cursor_chains_calls_in_time() {
    let b = AnimationBuilder::new("seq")
        .move_to(Vec2::new(1, 1), ONE, Easing::Linear)
        .wait(5000)
        .fade_to(5 * ONE, ONE, Easing::Linear);
    assert_eq!(b.current_time, 25000);
    let opacity = &b.timeline.tracks[1];
    assert_eq!(opacity.keyframes[0].time, 25000);
    assert_eq!(opacity.keyframes[0].property, AnimatableProperty::Opacity(ONE));
    let b = b.add_keyframe("position", 5000, AnimatableProperty::Position(Vec2::new(2, 2)), Easing::Linear);
    assert_eq!(b.current_time, 25000);
    let b = b.add_keyframe("position", 4 * ONE, AnimatableProperty::Position(Vec2::new(3, 3)), Easing::Linear);
    assert_eq!(b.current_time, 4 * ONE);
    assert_eq!(b.timeline.tracks[0].keyframes.len(), 3);
    assert_eq!(b.timeline.tracks[0].keyframes[0].time, 5000);
}

#[test]
fn relative_moves_start_from_the_origin() {
    let tl = AnimationBuilder::new("rel")
        .move_by(Vec2::new(5, 5), ONE, Easing::Linear)
        .rotate_by(7, ONE, Easing::Linear)
        .build();
    assert_eq!(tl.tracks[0].keyframes.len(), 2);
    assert_eq!(tl.tracks[0].keyframes[0], Keyframe::position(0, Vec2::new(0, 0), Easing::Linear));
    assert_eq!(tl.tracks[1].keyframes.len(), 2);
    assert_eq!(tl.tracks[1].keyframes[0], Keyframe::rotation(0, 0, Easing::Linear));
    assert_eq!(tl.tracks[1].keyframes[1], Keyframe::rotation(2 * ONE, 7, Easing::Linear));
}

#[test]
fn configuration_calls() {
    let tl = AnimationBuilder::new("cfg")
        .fade_in(ONE, Easing::Linear)
        .with_delay(-4)
        .with_speed(3 * ONE)
        .ping_pong()
        .build_and_play();
    assert_eq!(tl.delay, 0);
    assert_eq!(tl.speed, 3 * ONE);
    assert_eq!(tl.mode, AnimationMode::PingPong);
    assert!(tl.is_playing());
    let tl = AnimationBuilder::new("cfg").with_delay(ONE).repeat_times(3).repeat().build();
    assert_eq!(tl.delay, ONE);
    assert_eq!(tl.mode, AnimationMode::Loop);
    let tl = AnimationBuilder::new("cfg").repeat_times(3).build();
    assert_eq!(tl.mode, AnimationMode::Repeat(3));
    let tl = AnimationBuilder::new("cfg").with_mode(AnimationMode::Once).build();
    assert_eq!(tl.mode, AnimationMode::Once);
}

#[test]
fn default_builder_is_an_idle_draft() {
    let b = AnimationBuilder::default();
    assert_eq!(b.current_time, 0);
    assert_eq!(b.timeline.name, "default_animation");
    assert_eq!(b.timeline.mode, AnimationMode::Once);
    assert_eq!(b.timeline.state, AnimationState::Idle);
    assert_eq!(b.timeline.speed, ONE);
    assert_eq!(b.timeline.delay, 0);
    assert!(b.timeline.tracks.is_empty());
}

#[test]
fn build_and_play_plays_the_built_timeline() {
    let tl = AnimationBuilder::new("fresh")
        .move_to(Vec2::new(ONE, 0), ONE, Easing::Linear)
        .build_and_play();
    assert_eq!(tl.state, AnimationState::Playing);
    assert_eq!(tl.elapsed_time, 0);
    assert_eq!(tl.tracks[0].keyframes.len(), 2);
    // A paused draft resumes where it was, as `play` does.
    let mut b = AnimationBuilder::new("draft").move_to(Vec2::new(ONE, 0), ONE, Easing::Linear);
    b.timeline.play();
    b.timeline.update(5000);
    b.timeline.pause();
    let tl = b.build_and_play();
    assert_eq!(tl.state, AnimationState::Playing);
    assert_eq!(tl.elapsed_time, 5000);
}

#[test]
fn bounce_preset() {
    let tl = AnimationPresets::bounce(3 * ONE, 2 * ONE);
    assert_eq!(tl.name, "bounce");
    assert_eq!(tl.mode, AnimationMode::Loop);
    assert_eq!(
        tl.tracks[0].keyframes,
        vec![
            Keyframe::position(0, Vec2::new(0, 0), Easing::Linear),
            Keyframe::position(ONE, Vec2::new(0, 3 * ONE), Easing::EaseOutQuad),
            Keyframe::position(2 * ONE, Vec2::new(0, 0), Easing::EaseInQuad),
        ]
    );
}

#[test]
fn spin_preset() {
    let tl = AnimationPresets::spin(2 * ONE);
    assert_eq!(tl.mode, AnimationMode::Loop);
    assert_eq!(
        tl.tracks[0].keyframes,
        vec![
            Keyframe::rotation(0, 0, Easing::Linear),
            Keyframe::rotation(5000, TAU, Easing::Linear),
        ]
    );
}

#[test]
fn pulse_preset() {
    let tl = AnimationPresets::pulse(15000, ONE);
    assert_eq!(
        tl.tracks[0].keyframes,
        vec![
            Keyframe::scale(0, Vec2::splat(ONE), Easing::Linear),
            Keyframe::scale(5000, Vec2::splat(15000), Easing::EaseInOut),
            Keyframe::scale(ONE, Vec2::splat(ONE), Easing::EaseInOut),
        ]
    );
}

#[test]
fn shake_preset() {
    let tl = AnimationPresets::shake(2 * ONE, ONE);
    assert_eq!(tl.mode, AnimationMode::Once);
    let kfs = &tl.tracks[0].keyframes;
    assert_eq!(kfs.len(), 12);
    assert_eq!(kfs[0], Keyframe::position(0, Vec2::new(0, 0), Easing::Linear));
    assert_eq!(kfs[1], Keyframe::position(1000, Vec2::new(2 * ONE, ONE), Easing::Linear));
    assert_eq!(kfs[2], Keyframe::position(2000, Vec2::new(-2 * ONE, -ONE), Easing::Linear));
    assert_eq!(kfs[4], Keyframe::position(4000, Vec2::new(-2 * ONE, ONE), Easing::Linear));
    assert_eq!(kfs[11], Keyframe::position(11000, Vec2::new(0, 0), Easing::EaseOut));
    assert_eq!(tl.duration, 11000);
}

#[test]
fn fade_presets() {
    let tl = AnimationPresets::fade_in(ONE);
    assert_eq!(
        tl.tracks[0].keyframes,
        vec![
            Keyframe::opacity(0, 0, Easing::Linear),
            Keyframe::opacity(ONE, ONE, Easing::EaseIn),
        ]
    );
    let tl = AnimationPresets::fade_out(ONE);
    assert_eq!(
        tl.tracks[0].keyframes,
        vec![
            Keyframe::opacity(0, ONE, Easing::Linear),
            Keyframe::opacity(ONE, 0, Easing::EaseOut),
        ]
    );
}
