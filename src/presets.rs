//! Ready-made timelines composed from the builder's calls.
use vstd::prelude::*;
use crate::builder::{AnimationBuilder, with_start};
use crate::easing::{Easing, valid_component};
use crate::fixed::{ONE, div_floor};
use crate::keyframe::{Keyframe, MAX_TIME, TrackModel, first_after, lemma_first_after, sorted_insert};
use crate::property::{AnimatableProperty, Vec2};
use crate::timeline::{AnimationMode, AnimationState, AnimationTimeline, find_track, tracks_with};

verus! {

/// A full turn in radians, `2 pi`, in fixed point.
pub const TAU: i64 = 62832;

/// Adding the first keyframe of a channel to no tracks makes one track.
proof fn lemma_first_track(c: Seq<char>, k: Keyframe)
    ensures
        tracks_with(Seq::empty(), c, k) == seq![TrackModel { name: c, keyframes: seq![k] }],
{
    assert(find_track(Seq::<TrackModel>::empty(), c, 0) == 0);
    assert(first_after(Seq::<Keyframe>::empty(), k.time as int, 0) == 0);
    assert(sorted_insert(Seq::empty(), k) =~= seq![k]);
    assert(tracks_with(Seq::empty(), c, k) =~= seq![TrackModel { name: c, keyframes: seq![k] }]);
}

/// A keyframe no earlier than any other of the one track goes last.
proof fn lemma_append_last(c: Seq<char>, s: Seq<Keyframe>, k: Keyframe)
    requires
        forall|i: int| 0 <= i < s.len() ==> s[i].time <= k.time,
    ensures
        tracks_with(seq![TrackModel { name: c, keyframes: s }], c, k) == seq![
            TrackModel { name: c, keyframes: s.push(k) },
        ],
{
    let ts = seq![TrackModel { name: c, keyframes: s }];
    assert(find_track(ts, c, 0) == 0);
    lemma_first_after(s, k.time as int, 0);
    assert(first_after(s, k.time as int, 0) == s.len());
    assert(s.insert(s.len() as int, k) =~= s.push(k));
    assert(tracks_with(ts, c, k) =~= seq![TrackModel { name: c, keyframes: s.push(k) }]);
}

/// Two keyframes in time order on one channel, then `build`.
pub open spec fn two_step(c: Seq<char>, k1: Keyframe, k2: Keyframe) -> Seq<TrackModel> {
    seq![with_start(TrackModel { name: c, keyframes: seq![k1, k2] })]
}

proof fn lemma_two_step(c: Seq<char>, k1: Keyframe, k2: Keyframe)
    requires
        k1.time <= k2.time,
    ensures
        tracks_with(tracks_with(Seq::empty(), c, k1), c, k2).map_values(
            |m: TrackModel| with_start(m),
        ) == two_step(c, k1, k2),
{
    lemma_first_track(c, k1);
    lemma_append_last(c, seq![k1], k2);
    assert(seq![k1].push(k2) =~= seq![k1, k2]);
    assert(tracks_with(tracks_with(Seq::empty(), c, k1), c, k2).map_values(
        |m: TrackModel| with_start(m),
    ) =~= two_step(c, k1, k2));
}

/// The offset of step `i` of a shake: `x` alternates sign, `y` is half the
/// intensity, positive on every third step.
pub open spec fn shake_offset(intensity: int, i: int) -> Vec2 {
    Vec2 {
        x: if i % 2 == 0 {
            intensity
        } else {
            -intensity
        } as i64,
        y: if i % 3 == 0 {
            intensity / 2
        } else {
            -(intensity / 2)
        } as i64,
    }
}

pub open spec fn shake_keyframe(intensity: int, step: int, i: int) -> Keyframe {
    Keyframe {
        time: ((i + 1) * step) as i64,
        property: AnimatableProperty::Position(shake_offset(intensity, i)),
        easing: Easing::Linear,
    }
}

/// The tracks after the first `n` steps of a shake.
pub open spec fn shake_tracks(intensity: int, step: int, n: int) -> Seq<TrackModel> {
    if n <= 0 {
        Seq::empty()
    } else {
        seq![
            TrackModel {
                name: "position"@,
                keyframes: Seq::new(n as nat, |i: int| shake_keyframe(intensity, step, i)),
            },
        ]
    }
}

/// A timeline as a preset leaves it: named `name`, in mode `mode`, idle at
/// the start, at normal speed, with no delay.
pub open spec fn fresh(r: AnimationTimeline, name: Seq<char>, mode: AnimationMode) -> bool {
    &&& r.name@ == name
    &&& r.mode == mode
    &&& r.state == AnimationState::Idle
    &&& r.elapsed_time == 0
    &&& r.speed == ONE
    &&& r.repeat_count == 0
    &&& !r.reverse
    &&& r.delay == 0
    &&& r.delay_elapsed == 0
    &&& r.wf()
}

/// Builders for common animations.
pub struct AnimationPresets;

impl AnimationPresets {
    /// Up by `height` and back over `duration`, looping.
    pub fn bounce(height: i64, duration: i64) -> (r: AnimationTimeline)
        requires
            valid_component(height as int),
            0 <= duration <= MAX_TIME,
        ensures
            fresh(r, "bounce"@, AnimationMode::Loop),
            r.tracks_model() == two_step(
                "position"@,
                Keyframe {
                    time: (duration / 2) as i64,
                    property: AnimatableProperty::Position(Vec2 { x: 0, y: height }),
                    easing: Easing::EaseOutQuad,
                },
                Keyframe {
                    time: (2 * (duration / 2)) as i64,
                    property: AnimatableProperty::Position(Vec2 { x: 0, y: 0 }),
                    easing: Easing::EaseInQuad,
                },
            ),
    {
        let half = duration / 2;
        let r = AnimationBuilder::new("bounce").move_to(
            Vec2::new(0, height),
            half,
            Easing::EaseOutQuad,
        ).move_to(Vec2::new(0, 0), half, Easing::EaseInQuad).repeat().build();
        proof {
            lemma_two_step(
                "position"@,
                Keyframe {
                    time: half,
                    property: AnimatableProperty::Position(Vec2 { x: 0, y: height }),
                    easing: Easing::EaseOutQuad,
                },
                Keyframe {
                    time: (2 * half) as i64,
                    property: AnimatableProperty::Position(Vec2 { x: 0, y: 0 }),
                    easing: Easing::EaseInQuad,
                },
            );
        }
        r
    }

    /// A full turn every `ONE / speed` seconds, looping.
    pub fn spin(speed: i64) -> (r: AnimationTimeline)
        requires
            0 < speed,
        ensures
            fresh(r, "spin"@, AnimationMode::Loop),
            r.tracks_model() == seq![
                with_start(
                    TrackModel {
                        name: "rotation"@,
                        keyframes: seq![
                            Keyframe {
                                time: ((ONE * ONE) / (speed as int)) as i64,
                                property: AnimatableProperty::Rotation(TAU),
                                easing: Easing::Linear,
                            },
                        ],
                    },
                ),
            ],
    {
        let period = (div_floor(100000000, speed as i128)) as i64;
        proof {
            vstd::arithmetic::div_mod::lemma_div_is_ordered_by_denominator(100000000, 1, speed as int);
            vstd::arithmetic::div_mod::lemma_div_pos_is_pos(100000000, speed as int);
        }
        let r = AnimationBuilder::new("spin").rotate_to(TAU, period, Easing::Linear).repeat().build();
        proof {
            let k = Keyframe {
                time: period,
                property: AnimatableProperty::Rotation(TAU),
                easing: Easing::Linear,
            };
            lemma_first_track("rotation"@, k);
            assert(seq![TrackModel { name: "rotation"@, keyframes: seq![k] }].map_values(
                |m: TrackModel| with_start(m),
            ) =~= seq![with_start(TrackModel { name: "rotation"@, keyframes: seq![k] })]);
        }
        r
    }

    /// Scales to `scale` and back to one over `duration`, looping.
    pub fn pulse(scale: i64, duration: i64) -> (r: AnimationTimeline)
        requires
            valid_component(scale as int),
            0 <= duration <= MAX_TIME,
        ensures
            fresh(r, "pulse"@, AnimationMode::Loop),
            r.tracks_model() == two_step(
                "scale"@,
                Keyframe {
                    time: (duration / 2) as i64,
                    property: AnimatableProperty::Scale(Vec2 { x: scale, y: scale }),
                    easing: Easing::EaseInOut,
                },
                Keyframe {
                    time: (2 * (duration / 2)) as i64,
                    property: AnimatableProperty::Scale(Vec2 { x: ONE, y: ONE }),
                    easing: Easing::EaseInOut,
                },
            ),
    {
        let half = duration / 2;
        let r = AnimationBuilder::new("pulse").scale_to(scale, half, Easing::EaseInOut).scale_to(
            ONE,
            half,
            Easing::EaseInOut,
        ).repeat().build();
        proof {
            lemma_two_step(
                "scale"@,
                Keyframe {
                    time: half,
                    property: AnimatableProperty::Scale(Vec2 { x: scale, y: scale }),
                    easing: Easing::EaseInOut,
                },
                Keyframe {
                    time: (2 * half) as i64,
                    property: AnimatableProperty::Scale(Vec2 { x: ONE, y: ONE }),
                    easing: Easing::EaseInOut,
                },
            );
        }
        r
    }

    /// Ten alternating jolts of `intensity`, then back to the origin, each
    /// step a tenth of `duration`; plays once.
    pub fn shake(intensity: i64, duration: i64) -> (r: AnimationTimeline)
        requires
            valid_component(intensity as int),
            0 <= duration <= MAX_TIME / 2,
        ensures
            fresh(r, "shake"@, AnimationMode::Once),
            r.tracks_model() == seq![
                with_start(
                    TrackModel {
                        name: "position"@,
                        keyframes: Seq::new(
                            10,
                            |i: int| shake_keyframe(intensity as int, duration / 10, i),
                        ).push(
                            Keyframe {
                                time: (11 * (duration / 10)) as i64,
                                property: AnimatableProperty::Position(Vec2 { x: 0, y: 0 }),
                                easing: Easing::EaseOut,
                            },
                        ),
                    },
                ),
            ],
    {
        let step = duration / 10;
        let half = div_floor(intensity as i128, 2) as i64;
        let mut b = AnimationBuilder::new("shake");
        let mut i: i64 = 0;
        while i < 10
            invariant
                0 <= i <= 10,
                0 <= step <= MAX_TIME / 20,
                step == duration / 10,
                half == (intensity as int) / 2,
                valid_component(intensity as int),
                b.wf(),
                b.current_time == i * step,
                b.timeline.tracks_model() == shake_tracks(intensity as int, step as int, i as int),
                fresh(b.timeline, "shake"@, AnimationMode::Once),
            decreases 10 - i,
        {
            proof {
                assert(i * step <= 10 * step) by (nonlinear_arith)
                    requires
                        0 <= i <= 10,
                        0 <= step,
                ;
            }
            let x: i64 = if i % 2 == 0 {
                intensity
            } else {
                -intensity
            };
            let y: i64 = if i % 3 == 0 {
                half
            } else {
                -half
            };
            let ghost pre = b.timeline.tracks_model();
            b = b.move_to(Vec2::new(x, y), step, Easing::Linear);
            proof {
                let k = shake_keyframe(intensity as int, step as int, i as int);
                assert((i + 1) * step == i * step + step) by (nonlinear_arith);
                let next = Seq::new((i + 1) as nat, |j: int| shake_keyframe(intensity as int, step as int, j));
                if i == 0 {
                    lemma_first_track("position"@, k);
                    assert(seq![k] =~= next);
                } else {
                    let s = Seq::new(i as nat, |j: int| shake_keyframe(intensity as int, step as int, j));
                    assert forall|j: int| 0 <= j < s.len() implies s[j].time <= k.time by {
                        assert((j + 1) * step <= (i + 1) * step) by (nonlinear_arith)
                            requires
                                0 <= j < i,
                                0 <= step,
                        ;
                    }
                    lemma_append_last("position"@, s, k);
                    assert(s.push(k) =~= next);
                }
            }
            i = i + 1;
        }
        let ghost s = Seq::new(10, |j: int| shake_keyframe(intensity as int, step as int, j));
        assert(b.current_time == 10 * step);
        b = b.move_to(Vec2::new(0, 0), step, Easing::EaseOut);
        let r = b.build();
        proof {
            let k = Keyframe {
                time: (11 * step) as i64,
                property: AnimatableProperty::Position(Vec2 { x: 0, y: 0 }),
                easing: Easing::EaseOut,
            };
            assert forall|j: int| 0 <= j < s.len() implies s[j].time <= k.time by {
                assert((j + 1) * step <= 11 * step) by (nonlinear_arith)
                    requires
                        0 <= j < 10,
                        0 <= step,
                ;
            }
            lemma_append_last("position"@, s, k);
            assert(seq![TrackModel { name: "position"@, keyframes: s.push(k) }].map_values(
                |m: TrackModel| with_start(m),
            ) =~= seq![with_start(TrackModel { name: "position"@, keyframes: s.push(k) })]);
        }
        r
    }

    /// From transparent to opaque over `duration`, easing in; plays once.
    pub fn fade_in(duration: i64) -> (r: AnimationTimeline)
        requires
            0 <= duration <= MAX_TIME,
        ensures
            fresh(r, "fade_in"@, AnimationMode::Once),
            r.tracks_model() == two_step(
                "opacity"@,
                Keyframe {
                    time: 0,
                    property: AnimatableProperty::Opacity(0),
                    easing: Easing::Linear,
                },
                Keyframe {
                    time: duration,
                    property: AnimatableProperty::Opacity(ONE),
                    easing: Easing::EaseIn,
                },
            ),
    {
        let r = AnimationBuilder::new("fade_in").fade_to(0, 0, Easing::Linear).fade_to(
            ONE,
            duration,
            Easing::EaseIn,
        ).build();
        proof {
            lemma_two_step(
                "opacity"@,
                Keyframe {
                    time: 0,
                    property: AnimatableProperty::Opacity(0),
                    easing: Easing::Linear,
                },
                Keyframe {
                    time: duration,
                    property: AnimatableProperty::Opacity(ONE),
                    easing: Easing::EaseIn,
                },
            );
        }
        r
    }

    /// From opaque to transparent over `duration`, easing out; plays once.
    pub fn fade_out(duration: i64) -> (r: AnimationTimeline)
        requires
            0 <= duration <= MAX_TIME,
        ensures
            fresh(r, "fade_out"@, AnimationMode::Once),
            r.tracks_model() == two_step(
                "opacity"@,
                Keyframe {
                    time: 0,
                    property: AnimatableProperty::Opacity(ONE),
                    easing: Easing::Linear,
                },
                Keyframe {
                    time: duration,
                    property: AnimatableProperty::Opacity(0),
                    easing: Easing::EaseOut,
                },
            ),
    {
        let r = AnimationBuilder::new("fade_out").fade_to(ONE, 0, Easing::Linear).fade_to(
            0,
            duration,
            Easing::EaseOut,
        ).build();
        proof {
            lemma_two_step(
                "opacity"@,
                Keyframe {
                    time: 0,
                    property: AnimatableProperty::Opacity(ONE),
                    easing: Easing::Linear,
                },
                Keyframe {
                    time: duration,
                    property: AnimatableProperty::Opacity(0),
                    easing: Easing::EaseOut,
                },
            );
        }
        r
    }
}

} // verus!
