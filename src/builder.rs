//! A fluent builder that lays keyframes end to end along a time cursor.
use vstd::prelude::*;
use crate::easing::{Easing, valid_component};
use crate::fixed::ONE;
use crate::keyframe::{Keyframe, MAX_TIME, TrackModel, first_after, sorted_insert, track_wf};
use crate::property::{
    AnimatableProperty, LinearRgba, Vec2, clamp_opacity, valid_color, valid_vec2, white_spec,
};
use crate::timeline::{
    AnimationMode, AnimationState, AnimationTimeline, find_track,
    lemma_max_duration_bounds, played, tracks_wf, tracks_with,
};

verus! {

/// Builds a timeline; each sequential call adds a keyframe at the cursor
/// plus its duration and moves the cursor there.
pub struct AnimationBuilder {
    pub timeline: AnimationTimeline,
    /// Where the next sequential call starts.
    pub current_time: i64,
}

/// `r` is `b` with keyframe `k` added to channel `channel` and the cursor at `cursor`.
pub open spec fn appended(
    b: AnimationBuilder,
    r: AnimationBuilder,
    channel: Seq<char>,
    k: Keyframe,
    cursor: int,
) -> bool {
    appended_onto(b, r, b.timeline.tracks_model(), channel, k, cursor)
}

/// `r` is `b` with its tracks first set to `base`, then keyframe `k` added
/// to channel `channel`, and the cursor at `cursor`.
pub open spec fn appended_onto(
    b: AnimationBuilder,
    r: AnimationBuilder,
    base: Seq<TrackModel>,
    channel: Seq<char>,
    k: Keyframe,
    cursor: int,
) -> bool {
    &&& r.timeline.tracks_model() == tracks_with(base, channel, k)
    &&& r.timeline == (AnimationTimeline {
        tracks: r.timeline.tracks,
        duration: r.timeline.duration,
        ..b.timeline
    })
    &&& r.current_time == cursor
    &&& r.wf()
}

/// A builder as `new` makes it: an empty, idle timeline named `name` in once
/// mode at normal speed with no delay, and the cursor at zero.
pub open spec fn fresh_draft(r: AnimationBuilder, name: Seq<char>) -> bool {
    &&& r.timeline.name@ == name
    &&& r.timeline.tracks@.len() == 0
    &&& r.timeline.mode == AnimationMode::Once
    &&& r.timeline.state == AnimationState::Idle
    &&& r.timeline.elapsed_time == 0
    &&& r.timeline.speed == ONE
    &&& r.timeline.repeat_count == 0
    &&& !r.timeline.reverse
    &&& r.timeline.delay == 0
    &&& r.timeline.delay_elapsed == 0
    &&& r.current_time == 0
    &&& r.wf()
}

/// `r` is `b` with only its timeline's settings changed, to `tl`.
pub open spec fn configured(b: AnimationBuilder, r: AnimationBuilder, tl: AnimationTimeline) -> bool {
    &&& r.timeline == tl
    &&& r.current_time == b.current_time
    &&& r.wf()
}

/// The start value that `build` gives a channel whose first keyframe holds `p`.
pub open spec fn default_property(p: AnimatableProperty) -> AnimatableProperty {
    match p {
        AnimatableProperty::Position(_) => AnimatableProperty::Position(Vec2 { x: 0, y: 0 }),
        AnimatableProperty::Rotation(_) => AnimatableProperty::Rotation(0),
        AnimatableProperty::Scale(_) => AnimatableProperty::Scale(Vec2 { x: ONE, y: ONE }),
        AnimatableProperty::Color(_) => AnimatableProperty::Color(white_spec()),
        AnimatableProperty::Opacity(_) => AnimatableProperty::Opacity(ONE),
        AnimatableProperty::Custom(n, _) => AnimatableProperty::Custom(n, 0),
    }
}

/// A track as `build` leaves it: one whose first keyframe lies after time
/// zero gets a linear keyframe at zero holding the default value.
pub open spec fn with_start(m: TrackModel) -> TrackModel {
    if m.keyframes.len() > 0 && m.keyframes[0].time > 0 {
        TrackModel {
            name: m.name,
            keyframes: seq![
                Keyframe {
                    time: 0,
                    property: default_property(m.keyframes[0].property),
                    easing: Easing::Linear,
                },
            ] + m.keyframes,
        }
    } else {
        m
    }
}

impl AnimationBuilder {
    /// A well-formed timeline and a cursor within `[0, MAX_TIME]`.
    pub open spec fn wf(&self) -> bool {
        self.timeline.wf() && 0 <= self.current_time <= MAX_TIME
    }

    /// A builder for an empty timeline named `name`, cursor at zero.
    pub fn new(name: &str) -> (r: AnimationBuilder)
        ensures
            fresh_draft(r, name@),
    {
        AnimationBuilder { timeline: AnimationTimeline::new(name.to_owned()), current_time: 0 }
    }

    /// A builder for a timeline named `default_animation`.
    pub fn default() -> (r: AnimationBuilder)
        ensures
            fresh_draft(r, "default_animation"@),
    {
        Self::new("default_animation")
    }

    fn append(self, channel: &str, property: AnimatableProperty, duration: i64, easing: Easing) -> (r:
        AnimationBuilder)
        requires
            self.wf(),
            property.valid(),
            0 <= duration,
            self.current_time + duration <= MAX_TIME,
        ensures
            appended(
                self,
                r,
                channel@,
                Keyframe { time: (self.current_time + duration) as i64, property, easing },
                self.current_time + duration,
            ),
    {
        let mut b = self;
        let end = b.current_time + duration;
        b.current_time = end;
        b.timeline.add_keyframe(channel, Keyframe::new(end, property, easing));
        b
    }

    /// Moves to `position` over `duration`.
    pub fn move_to(self, position: Vec2, duration: i64, easing: Easing) -> (r: AnimationBuilder)
        requires
            self.wf(),
            valid_vec2(position),
            0 <= duration,
            self.current_time + duration <= MAX_TIME,
        ensures
            appended(
                self,
                r,
                "position"@,
                Keyframe {
                    time: (self.current_time + duration) as i64,
                    property: AnimatableProperty::Position(position),
                    easing,
                },
                self.current_time + duration,
            ),
    {
        self.append("position", AnimatableProperty::Position(position), duration, easing)
    }

    /// Like `move_to`; when the cursor is at zero it first puts a linear
    /// keyframe at the origin at time zero.
    pub fn move_by(self, delta: Vec2, duration: i64, easing: Easing) -> (r: AnimationBuilder)
        requires
            self.wf(),
            valid_vec2(delta),
            0 <= duration,
            self.current_time + duration <= MAX_TIME,
        ensures
            appended_onto(
                self,
                r,
                if self.current_time == 0 {
                    tracks_with(
                        self.timeline.tracks_model(),
                        "position"@,
                        Keyframe {
                            time: 0,
                            property: AnimatableProperty::Position(Vec2 { x: 0, y: 0 }),
                            easing: Easing::Linear,
                        },
                    )
                } else {
                    self.timeline.tracks_model()
                },
                "position"@,
                Keyframe {
                    time: (self.current_time + duration) as i64,
                    property: AnimatableProperty::Position(delta),
                    easing,
                },
                self.current_time + duration,
            ),
    {
        let mut b = self;
        if b.current_time == 0 {
            b.timeline.add_keyframe(
                "position",
                Keyframe::position(0, Vec2::new(0, 0), Easing::Linear),
            );
        }
        b.append("position", AnimatableProperty::Position(delta), duration, easing)
    }

    /// Rotates to `angle` over `duration`.
    pub fn rotate_to(self, angle: i64, duration: i64, easing: Easing) -> (r: AnimationBuilder)
        requires
            self.wf(),
            valid_component(angle as int),
            0 <= duration,
            self.current_time + duration <= MAX_TIME,
        ensures
            appended(
                self,
                r,
                "rotation"@,
                Keyframe {
                    time: (self.current_time + duration) as i64,
                    property: AnimatableProperty::Rotation(angle),
                    easing,
                },
                self.current_time + duration,
            ),
    {
        self.append("rotation", AnimatableProperty::Rotation(angle), duration, easing)
    }

    /// Like `rotate_to`; when the cursor is at zero it first puts a linear
    /// keyframe at angle zero at time zero.
    pub fn rotate_by(self, delta_angle: i64, duration: i64, easing: Easing) -> (r: AnimationBuilder)
        requires
            self.wf(),
            valid_component(delta_angle as int),
            0 <= duration,
            self.current_time + duration <= MAX_TIME,
        ensures
            appended_onto(
                self,
                r,
                if self.current_time == 0 {
                    tracks_with(
                        self.timeline.tracks_model(),
                        "rotation"@,
                        Keyframe {
                            time: 0,
                            property: AnimatableProperty::Rotation(0),
                            easing: Easing::Linear,
                        },
                    )
                } else {
                    self.timeline.tracks_model()
                },
                "rotation"@,
                Keyframe {
                    time: (self.current_time + duration) as i64,
                    property: AnimatableProperty::Rotation(delta_angle),
                    easing,
                },
                self.current_time + duration,
            ),
    {
        let mut b = self;
        if b.current_time == 0 {
            b.timeline.add_keyframe("rotation", Keyframe::rotation(0, 0, Easing::Linear));
        }
        b.append("rotation", AnimatableProperty::Rotation(delta_angle), duration, easing)
    }

    /// Scales uniformly to `scale` over `duration`.
    pub fn scale_to(self, scale: i64, duration: i64, easing: Easing) -> (r: AnimationBuilder)
        requires
            self.wf(),
            valid_component(scale as int),
            0 <= duration,
            self.current_time + duration <= MAX_TIME,
        ensures
            appended(
                self,
                r,
                "scale"@,
                Keyframe {
                    time: (self.current_time + duration) as i64,
                    property: AnimatableProperty::Scale(Vec2 { x: scale, y: scale }),
                    easing,
                },
                self.current_time + duration,
            ),
    {
        self.scale_to_xy(Vec2::splat(scale), duration, easing)
    }

    /// Scales to `scale` over `duration`.
    pub fn scale_to_xy(self, scale: Vec2, duration: i64, easing: Easing) -> (r: AnimationBuilder)
        requires
            self.wf(),
            valid_vec2(scale),
            0 <= duration,
            self.current_time + duration <= MAX_TIME,
        ensures
            appended(
                self,
                r,
                "scale"@,
                Keyframe {
                    time: (self.current_time + duration) as i64,
                    property: AnimatableProperty::Scale(scale),
                    easing,
                },
                self.current_time + duration,
            ),
    {
        self.append("scale", AnimatableProperty::Scale(scale), duration, easing)
    }

    /// Changes colour to `color` over `duration`.
    pub fn color_to(self, color: LinearRgba, duration: i64, easing: Easing) -> (r: AnimationBuilder)
        requires
            self.wf(),
            valid_color(color),
            0 <= duration,
            self.current_time + duration <= MAX_TIME,
        ensures
            appended(
                self,
                r,
                "color"@,
                Keyframe {
                    time: (self.current_time + duration) as i64,
                    property: AnimatableProperty::Color(color),
                    easing,
                },
                self.current_time + duration,
            ),
    {
        self.append("color", AnimatableProperty::Color(color), duration, easing)
    }

    /// Fades to `opacity`, clamped into `[0, ONE]`, over `duration`.
    pub fn fade_to(self, opacity: i64, duration: i64, easing: Easing) -> (r: AnimationBuilder)
        requires
            self.wf(),
            0 <= duration,
            self.current_time + duration <= MAX_TIME,
        ensures
            appended(
                self,
                r,
                "opacity"@,
                Keyframe {
                    time: (self.current_time + duration) as i64,
                    property: AnimatableProperty::Opacity(clamp_opacity(opacity as int) as i64),
                    easing,
                },
                self.current_time + duration,
            ),
    {
        let o: i64 = if opacity < 0 {
            0
        } else if opacity > ONE {
            ONE
        } else {
            opacity
        };
        self.append("opacity", AnimatableProperty::Opacity(o), duration, easing)
    }

    /// Fades to fully opaque over `duration`.
    pub fn fade_in(self, duration: i64, easing: Easing) -> (r: AnimationBuilder)
        requires
            self.wf(),
            0 <= duration,
            self.current_time + duration <= MAX_TIME,
        ensures
            appended(
                self,
                r,
                "opacity"@,
                Keyframe {
                    time: (self.current_time + duration) as i64,
                    property: AnimatableProperty::Opacity(ONE),
                    easing,
                },
                self.current_time + duration,
            ),
    {
        self.fade_to(ONE, duration, easing)
    }

    /// Fades to fully transparent over `duration`.
    pub fn fade_out(self, duration: i64, easing: Easing) -> (r: AnimationBuilder)
        requires
            self.wf(),
            0 <= duration,
            self.current_time + duration <= MAX_TIME,
        ensures
            appended(
                self,
                r,
                "opacity"@,
                Keyframe {
                    time: (self.current_time + duration) as i64,
                    property: AnimatableProperty::Opacity(0),
                    easing,
                },
                self.current_time + duration,
            ),
    {
        self.fade_to(0, duration, easing)
    }

    /// Moves the cursor on by `duration`, leaving a gap.
    pub fn wait(self, duration: i64) -> (r: AnimationBuilder)
        requires
            self.wf(),
            0 <= duration,
            self.current_time + duration <= MAX_TIME,
        ensures
            r.timeline == self.timeline,
            r.current_time == self.current_time + duration,
            r.wf(),
    {
        let mut b = self;
        b.current_time = b.current_time + duration;
        b
    }

    /// Waits `delay` after `play` before moving; a negative delay becomes `0`.
    pub fn with_delay(self, delay: i64) -> (r: AnimationBuilder)
        requires
            self.wf(),
            delay <= MAX_TIME,
        ensures
            configured(
                self,
                r,
                AnimationTimeline {
                    delay: if delay < 0 {
                        0
                    } else {
                        delay
                    },
                    ..self.timeline
                },
            ),
    {
        let mut b = self;
        b.timeline.set_delay(delay);
        b
    }

    pub fn with_mode(self, mode: AnimationMode) -> (r: AnimationBuilder)
        requires
            self.wf(),
        ensures
            configured(self, r, AnimationTimeline { mode, ..self.timeline }),
    {
        let mut b = self;
        b.timeline.set_mode(mode);
        b
    }

    /// Loops forever.
    pub fn repeat(self) -> (r: AnimationBuilder)
        requires
            self.wf(),
        ensures
            configured(self, r, AnimationTimeline { mode: AnimationMode::Loop, ..self.timeline }),
    {
        self.with_mode(AnimationMode::Loop)
    }

    /// Plays `times` passes, then finishes.
    pub fn repeat_times(self, times: u32) -> (r: AnimationBuilder)
        requires
            self.wf(),
        ensures
            configured(
                self,
                r,
                AnimationTimeline { mode: AnimationMode::Repeat(times), ..self.timeline },
            ),
    {
        self.with_mode(AnimationMode::Repeat(times))
    }

    /// Runs forward and back forever.
    pub fn ping_pong(self) -> (r: AnimationBuilder)
        requires
            self.wf(),
        ensures
            configured(
                self,
                r,
                AnimationTimeline { mode: AnimationMode::PingPong, ..self.timeline },
            ),
    {
        self.with_mode(AnimationMode::PingPong)
    }

    /// Sets the playback speed; a negative speed becomes `0`.
    pub fn with_speed(self, speed: i64) -> (r: AnimationBuilder)
        requires
            self.wf(),
        ensures
            configured(
                self,
                r,
                AnimationTimeline {
                    speed: if speed < 0 {
                        0
                    } else {
                        speed
                    },
                    ..self.timeline
                },
            ),
    {
        let mut b = self;
        b.timeline.set_speed(speed);
        b
    }

    /// Puts a keyframe at an absolute `time` on any channel; the cursor moves
    /// to `time` if that lies later.
    pub fn add_keyframe(
        self,
        track_name: &str,
        time: i64,
        property: AnimatableProperty,
        easing: Easing,
    ) -> (r: AnimationBuilder)
        requires
            self.wf(),
            0 <= time <= MAX_TIME,
            property.valid(),
        ensures
            appended(
                self,
                r,
                track_name@,
                Keyframe { time, property, easing },
                if time > self.current_time {
                    time as int
                } else {
                    self.current_time as int
                },
            ),
    {
        let mut b = self;
        b.timeline.add_keyframe(track_name, Keyframe::new(time, property, easing));
        if time > b.current_time {
            b.current_time = time;
        }
        b
    }
}

fn default_for(p: &AnimatableProperty) -> (r: AnimatableProperty)
    ensures
        r == default_property(*p),
{
    match p {
        AnimatableProperty::Position(_) => AnimatableProperty::Position(Vec2 { x: 0, y: 0 }),
        AnimatableProperty::Rotation(_) => AnimatableProperty::Rotation(0),
        AnimatableProperty::Scale(_) => AnimatableProperty::Scale(Vec2 { x: ONE, y: ONE }),
        AnimatableProperty::Color(_) => AnimatableProperty::Color(LinearRgba::white()),
        AnimatableProperty::Opacity(_) => AnimatableProperty::Opacity(ONE),
        AnimatableProperty::Custom(n, _) => AnimatableProperty::Custom(n.clone(), 0),
    }
}

/// A track stays well formed when `build` gives it a start keyframe.
proof fn lemma_with_start_wf(m: TrackModel)
    requires
        track_wf(m),
    ensures
        track_wf(with_start(m)),
        with_start(m).name == m.name,
{
    if m.keyframes.len() > 0 && m.keyframes[0].time > 0 {
        let r = with_start(m);
        assert(m.keyframes[0].valid());
        assert forall|i: int| 0 <= i < r.keyframes.len() implies (#[trigger] r.keyframes[i]).valid() by {
            if i > 0 {
                assert(r.keyframes[i] == m.keyframes[i - 1]);
            }
        }
        assert forall|i: int, j: int| 0 <= i < j < r.keyframes.len() implies r.keyframes[i].time
            <= r.keyframes[j].time by {
            assert(r.keyframes[j] == m.keyframes[j - 1]);
            assert(m.keyframes[j - 1].valid());
            if i > 0 {
                assert(r.keyframes[i] == m.keyframes[i - 1]);
            }
        }
    }
}

impl AnimationBuilder {
    /// The finished timeline: every channel whose first keyframe lies after
    /// time zero gets a start keyframe at zero holding its default value.
    pub fn build(self) -> (r: AnimationTimeline)
        requires
            self.wf(),
        ensures
            r.tracks_model() == self.timeline.tracks_model().map_values(
                |m: TrackModel| with_start(m),
            ),
            r == (AnimationTimeline { tracks: r.tracks, duration: r.duration, ..self.timeline }),
            r.wf(),
    {
        let mut tl = self.timeline;
        let ghost orig = tl.tracks_model();
        let ghost target = orig.map_values(|m: TrackModel| with_start(m));
        let ghost before = tl;
        let mut i: usize = 0;
        while i < tl.tracks.len()
            invariant
                0 <= i <= orig.len(),
                tl.tracks@.len() == orig.len(),
                target == orig.map_values(|m: TrackModel| with_start(m)),
                tracks_wf(orig),
                forall|k: int| 0 <= k < i ==> (#[trigger] tl.tracks_model()[k]) == target[k],
                forall|k: int| i <= k < orig.len() ==> (#[trigger] tl.tracks_model()[k]) == orig[k],
                tl == (AnimationTimeline { tracks: tl.tracks, ..before }),
            decreases orig.len() - i,
        {
            let ghost pre = tl.tracks@;
            let ghost pre_model = tl.tracks_model();
            proof {
                assert(pre_model[i as int] == orig[i as int]);
                assert(pre_model[i as int] == pre[i as int]@);
            }
            let mut t = tl.tracks.remove(i);
            proof {
                assert(t@ == orig[i as int]);
                lemma_with_start_wf(orig[i as int]);
            }
            if t.keyframes.len() > 0 && t.keyframes[0].time > 0 {
                let p = default_for(&t.keyframes[0].property);
                t.keyframes.insert(0, Keyframe::new(0, p, Easing::Linear));
            }
            proof {
                assert(t@.keyframes =~= with_start(orig[i as int]).keyframes);
            }
            tl.tracks.insert(i, t);
            proof {
                assert forall|k: int| 0 <= k < orig.len() && k != i implies tl.tracks@[k] == pre[k] by {
                }
                assert forall|k: int| 0 <= k < i + 1 implies (#[trigger] tl.tracks_model()[k])
                    == target[k] by {
                    if k < i {
                        assert(pre_model[k] == pre[k]@);
                        assert(tl.tracks_model()[k] == tl.tracks@[k]@);
                    } else {
                        assert(tl.tracks_model()[k] == t@);
                    }
                }
                assert forall|k: int| i + 1 <= k < orig.len() implies (#[trigger] tl.tracks_model()[k])
                    == orig[k] by {
                    assert(pre_model[k] == pre[k]@);
                    assert(tl.tracks_model()[k] == tl.tracks@[k]@);
                }
            }
            i = i + 1;
        }
        proof {
            assert(tl.tracks_model() =~= target);
            assert forall|k: int| 0 <= k < target.len() implies track_wf(#[trigger] target[k]) by {
                lemma_with_start_wf(orig[k]);
            }
            assert forall|a: int, b: int| 0 <= a < b < target.len() implies (#[trigger] target[a]).name
                != (#[trigger] target[b]).name by {
                lemma_with_start_wf(orig[a]);
                lemma_with_start_wf(orig[b]);
            }
        }
        tl.update_duration();
        proof {
            lemma_max_duration_bounds(target);
        }
        tl
    }

    /// `build`, then `play`. Playback starts from the beginning (the moment
    /// a start handler is due) exactly when the draft timeline is idle.
    pub fn build_and_play(self) -> (r: AnimationTimeline)
        requires
            self.wf(),
        ensures
            r.tracks_model() == self.timeline.tracks_model().map_values(
                |m: TrackModel| with_start(m),
            ),
            r == played(
                AnimationTimeline { tracks: r.tracks, duration: r.duration, ..self.timeline },
            ).0,
            r.wf(),
    {
        let mut tl = self.build();
        tl.play();
        tl
    }
}

/// Two moves from an empty builder, the first of positive duration, build
/// into one position track that starts with a linear keyframe at zero
/// holding the zero vector.
pub proof fn lemma_build_adds_start_keyframe(
    v: Vec2,
    w: Vec2,
    d1: i64,
    d2: i64,
    e1: Easing,
    e2: Easing,
)
    requires
        0 < d1,
        0 <= d2,
        d1 + d2 <= MAX_TIME,
    ensures
        ({
            let k1 = Keyframe { time: d1, property: AnimatableProperty::Position(v), easing: e1 };
            let k2 = Keyframe {
                time: (d1 + d2) as i64,
                property: AnimatableProperty::Position(w),
                easing: e2,
            };
            let k0 = Keyframe {
                time: 0,
                property: AnimatableProperty::Position(Vec2 { x: 0, y: 0 }),
                easing: Easing::Linear,
            };
            tracks_with(tracks_with(Seq::empty(), "position"@, k1), "position"@, k2).map_values(
                |m: TrackModel| with_start(m),
            ) == seq![TrackModel { name: "position"@, keyframes: seq![k0, k1, k2] }]
        }),
{
    let k1 = Keyframe { time: d1, property: AnimatableProperty::Position(v), easing: e1 };
    let k2 = Keyframe { time: (d1 + d2) as i64, property: AnimatableProperty::Position(w), easing: e2 };
    let k0 = Keyframe {
        time: 0,
        property: AnimatableProperty::Position(Vec2 { x: 0, y: 0 }),
        easing: Easing::Linear,
    };
    let e: Seq<TrackModel> = Seq::empty();
    assert(find_track(e, "position"@, 0) == 0);
    let s1 = seq![k1];
    assert(first_after(Seq::<Keyframe>::empty(), d1 as int, 0) == 0);
    assert(sorted_insert(Seq::empty(), k1) =~= s1);
    let t1 = tracks_with(e, "position"@, k1);
    assert(t1 =~= seq![TrackModel { name: "position"@, keyframes: s1 }]);
    assert(find_track(t1, "position"@, 0) == 0);
    assert(first_after(s1, k2.time as int, 1) == 1);
    assert(first_after(s1, k2.time as int, 0) == 1);
    assert(sorted_insert(s1, k2) =~= seq![k1, k2]);
    let t2 = tracks_with(t1, "position"@, k2);
    assert(t2 =~= seq![TrackModel { name: "position"@, keyframes: seq![k1, k2] }]);
    assert(seq![k0] + seq![k1, k2] =~= seq![k0, k1, k2]);
    assert(t2.map_values(|m: TrackModel| with_start(m)) =~= seq![
        TrackModel { name: "position"@, keyframes: seq![k0, k1, k2] },
    ]);
}

} // verus!
