use anim_timeline::easing::Easing;
use anim_timeline::fixed::ONE;
use anim_timeline::keyframe::{Keyframe, KeyframeTrack};
use anim_timeline::property::{
    AnimatableProperty, ColorMaterial, LinearRgba, Transform2d, Vec2, Vec3,
};

fn scale_track() -> KeyframeTrack {
    let mut track = KeyframeTrack::new("scale".to_string());
    track.add_keyframe(Keyframe::scale(0, Vec2::splat(ONE), Easing::Linear));
    track.add_keyframe(Keyframe::scale(ONE, Vec2::splat(2 * ONE), Easing::Linear));
    track.add_keyframe(Keyframe::scale(2 * ONE, Vec2::splat(ONE), Easing::Linear));
    track
}

#[test]
fn track_interpolates_and_clamps() {
    let track = scale_track();
    assert_eq!(
        track.get_value_at(5000),
        Some(AnimatableProperty::Scale(Vec2::splat(15000)))
    );
    assert_eq!(
        track.get_value_at(-ONE),
        Some(AnimatableProperty::Scale(Vec2::splat(ONE)))
    );
    assert_eq!(
        track.get_value_at(5 * ONE),
        Some(AnimatableProperty::Scale(Vec2::splat(ONE)))
    );
    assert_eq!(
        track.get_value_at(15000),
        Some(AnimatableProperty::Scale(Vec2::splat(15000)))
    );
    assert_eq!(track.duration(), 2 * ONE);
}

#[test]
fn empty_track_has_no_value_and_no_duration() {
    let track = KeyframeTrack::new("x".to_string());
    assert_eq!(track.get_value_at(0), None);
    assert_eq!(track.duration(), 0);
}

#[test]
fn keyframes_are_sorted_on_insertion() {
    let mut track = KeyframeTrack::new("rotation".to_string());
    track.add_keyframe(Keyframe::rotation(3 * ONE, 3, Easing::Linear));
    track.add_keyframe(Keyframe::rotation(ONE, 1, Easing::Linear));
    track.add_keyframe(Keyframe::rotation(2 * ONE, 2, Easing::Linear));
    let times: Vec<i64> = track.keyframes.iter().map(|k| k.time).collect();
    assert_eq!(times, vec![ONE, 2 * ONE, 3 * ONE]);
}

#[test]
fn equal_times_keep_insertion_order() {
    let mut track = KeyframeTrack::new("rotation".to_string());
    track.add_keyframe(Keyframe::rotation(ONE, 1, Easing::Linear));
    track.add_keyframe(Keyframe::rotation(ONE, 2, Easing::Linear));
    track.add_keyframe(Keyframe::rotation(0, 0, Easing::Linear));
    let values: Vec<AnimatableProperty> =
        track.keyframes.iter().map(|k| k.property.clone()).collect();
    assert_eq!(
        values,
        vec![
            AnimatableProperty::Rotation(0),
            AnimatableProperty::Rotation(1),
            AnimatableProperty::Rotation(2)
        ]
    );
    // At the shared time the value clamps to the last keyframe.
    assert_eq!(track.get_value_at(ONE), Some(AnimatableProperty::Rotation(2)));
}

#[test]
fn easing_of_the_later_keyframe_shapes_the_segment() {
    let mut track = KeyframeTrack::new("opacity".to_string());
    track.add_keyframe(Keyframe::opacity(0, 0, Easing::Linear));
    track.add_keyframe(Keyframe::opacity(2 * ONE, ONE, Easing::EaseInQuad));
    let mut tied = KeyframeTrack::new("opacity".to_string());
    tied.add_keyframe(Keyframe::opacity(0, 0, Easing::Linear));
    tied.add_keyframe(Keyframe::opacity(0, 1, Easing::Linear));
    tied.add_keyframe(Keyframe::opacity(ONE, 0, Easing::Linear));
    assert_eq!(tied.get_value_at(0), Some(AnimatableProperty::Opacity(0)));
    assert_eq!(track.get_value_at(ONE), Some(AnimatableProperty::Opacity(2500)));
}

#[test]
fn mismatched_kinds_do_not_interpolate() {
    let a = AnimatableProperty::Position(Vec2::new(0, 0));
    let b = AnimatableProperty::Rotation(ONE);
    assert_eq!(a.interpolate(&b, 5000, Easing::Linear), None);
    let c = AnimatableProperty::Custom("glow".to_string(), 0);
    let d = AnimatableProperty::Custom("blur".to_string(), ONE);
    assert_eq!(c.interpolate(&d, 5000, Easing::Linear), None);
    let e = AnimatableProperty::Custom("glow".to_string(), ONE);
    assert_eq!(
        c.interpolate(&e, 5000, Easing::Linear),
        Some(AnimatableProperty::Custom("glow".to_string(), 5000))
    );
}

#[test]
fn colors_interpolate_per_channel() {
    let a = AnimatableProperty::Color(LinearRgba::new(0, ONE, 0, ONE));
    let b = AnimatableProperty::Color(LinearRgba::new(ONE, 0, 2 * ONE, 0));
    assert_eq!(
        a.interpolate(&b, 2500, Easing::Linear),
        Some(AnimatableProperty::Color(LinearRgba::new(2500, 7500, 5000, 7500)))
    );
}

#[test]
fn writing_onto_a_transform_keeps_depth() {
    let mut t = Transform2d {
        translation: Vec3 { x: 1, y: 2, z: 7 },
        rotation: 0,
        scale: Vec3 { x: ONE, y: ONE, z: 3 },
    };
    AnimatableProperty::Position(Vec2::new(10, 20)).apply_to_transform(&mut t);
    assert_eq!(t.translation, Vec3 { x: 10, y: 20, z: 7 });
    AnimatableProperty::Scale(Vec2::new(2, 4)).apply_to_transform(&mut t);
    assert_eq!(t.scale, Vec3 { x: 2, y: 4, z: 3 });
    AnimatableProperty::Rotation(31416).apply_to_transform(&mut t);
    assert_eq!(t.rotation, 31416);
    let before = t;
    AnimatableProperty::Opacity(0).apply_to_transform(&mut t);
    AnimatableProperty::Color(LinearRgba::white()).apply_to_transform(&mut t);
    assert_eq!(t, before);
}

#[test]
fn opacity_is_clamped_when_written() {
    let mut m = ColorMaterial { color: LinearRgba::new(1, 2, 3, 4) };
    AnimatableProperty::Opacity(3 * ONE).apply_to_material(&mut m);
    assert_eq!(m.color, LinearRgba::new(1, 2, 3, ONE));
    AnimatableProperty::Opacity(-5).apply_to_material(&mut m);
    assert_eq!(m.color, LinearRgba::new(1, 2, 3, 0));
    AnimatableProperty::Color(LinearRgba::new(9, 9, 9, 9)).apply_to_material(&mut m);
    assert_eq!(m.color, LinearRgba::new(9, 9, 9, 9));
    AnimatableProperty::Position(Vec2::new(1, 1)).apply_to_material(&mut m);
    assert_eq!(m.color, LinearRgba::new(9, 9, 9, 9));
}

#[test]
fn interior_tie_gives_the_later_keyframe() {
    let mut track = KeyframeTrack::new("rotation".to_string());
    track.add_keyframe(Keyframe::rotation(0, 0, Easing::Linear));
    track.add_keyframe(Keyframe::rotation(ONE, 1, Easing::Linear));
    track.add_keyframe(Keyframe::rotation(ONE, 2, Easing::Linear));
    track.add_keyframe(Keyframe::rotation(2 * ONE, 3, Easing::Linear));
    assert_eq!(track.get_value_at(ONE), Some(AnimatableProperty::Rotation(2)));
    // Just before the tie the segment ends at the first tied keyframe;
    // just after it the segment starts from the last one.
    assert_eq!(track.get_value_at(5000), Some(AnimatableProperty::Rotation(0)));
    assert_eq!(track.get_value_at(9999), Some(AnimatableProperty::Rotation(0)));
    assert_eq!(track.get_value_at(15000), Some(AnimatableProperty::Rotation(2)));
}

#[test]
fn all_keyframes_tied_clamp_to_the_first_at_their_time() {
    let mut track = KeyframeTrack::new("opacity".to_string());
    track.add_keyframe(Keyframe::opacity(ONE, 1, Easing::Linear));
    track.add_keyframe(Keyframe::opacity(ONE, 2, Easing::Linear));
    track.add_keyframe(Keyframe::opacity(ONE, 3, Easing::Linear));
    assert_eq!(track.get_value_at(ONE), Some(AnimatableProperty::Opacity(1)));
    assert_eq!(track.get_value_at(2 * ONE), Some(AnimatableProperty::Opacity(3)));
    assert_eq!(track.get_value_at(0), Some(AnimatableProperty::Opacity(1)));
}

#[test]
fn tie_at_the_start_clamps_to_the_first_keyframe() {
    let mut track = KeyframeTrack::new("rotation".to_string());
    track.add_keyframe(Keyframe::rotation(0, 5, Easing::Linear));
    track.add_keyframe(Keyframe::rotation(0, 6, Easing::Linear));
    track.add_keyframe(Keyframe::rotation(ONE, 16, Easing::Linear));
    assert_eq!(track.get_value_at(0), Some(AnimatableProperty::Rotation(5)));
    assert_eq!(track.get_value_at(-1), Some(AnimatableProperty::Rotation(5)));
    // Past the first time the segment starts from the last tied keyframe.
    assert_eq!(track.get_value_at(5000), Some(AnimatableProperty::Rotation(11)));
}
