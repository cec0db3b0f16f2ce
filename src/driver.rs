//! Per-frame playback: advancing a set of animated objects and writing their
//! sampled values onto each object's transform and material.
use vstd::prelude::*;
use crate::easing::Easing;
use crate::keyframe::{MAX_TIME, TrackModel, value_at};
use crate::property::{
    AnimatableProperty, ColorMaterial, Transform2d, Vec2, interpolation, material_after,
    transform_after,
};
use crate::timeline::{
    AnimationState, AnimationTimeline, current_values, paused, played, rewound, updated,
};

verus! {

/// A timeline attached to one scene object.
pub struct AnimationComponent {
    pub timeline: AnimationTimeline,
    /// Whether sampled values are written onto the object each frame.
    pub auto_apply: bool,
}

impl AnimationComponent {
    pub fn new(timeline: AnimationTimeline) -> (r: AnimationComponent)
        ensures
            r.timeline == timeline,
            r.auto_apply,
    {
        AnimationComponent { timeline, auto_apply: true }
    }

    pub fn with_auto_apply(timeline: AnimationTimeline, auto_apply: bool) -> (r: AnimationComponent)
        ensures
            r.timeline == timeline,
            r.auto_apply == auto_apply,
    {
        AnimationComponent { timeline, auto_apply }
    }
}

/// A playback command addressed to one animated object.
#[derive(Clone, Copy, Debug, PartialEq, Eq, Structural)]
pub enum AnimationEvent {
    Play,
    Pause,
    Stop,
    Restart,
}

/// The transform after each sampled value is written onto it in order.
pub open spec fn transform_after_all(vals: Seq<(Seq<char>, AnimatableProperty)>, t: Transform2d) -> Transform2d
    decreases vals.len(),
{
    if vals.len() == 0 {
        t
    } else {
        transform_after(vals.last().1, transform_after_all(vals.drop_last(), t))
    }
}

/// The material after the sampled values of kind `opacity` (or of every
/// other kind) are written onto it in order.
pub open spec fn material_after_kind(
    vals: Seq<(Seq<char>, AnimatableProperty)>,
    m: ColorMaterial,
    opacity: bool,
) -> ColorMaterial
    decreases vals.len(),
{
    if vals.len() == 0 {
        m
    } else {
        let before = material_after_kind(vals.drop_last(), m, opacity);
        if (vals.last().1 is Opacity) == opacity {
            material_after(vals.last().1, before)
        } else {
            before
        }
    }
}

/// The material after all sampled values: colours first, then opacities, so
/// an opacity always sets the final alpha.
pub open spec fn material_after_all(vals: Seq<(Seq<char>, AnimatableProperty)>, m: ColorMaterial) -> ColorMaterial {
    material_after_kind(vals, material_after_kind(vals, m, false), true)
}

/// Whether a component writes its values this frame.
pub open spec fn applies(c: AnimationComponent) -> bool {
    c.auto_apply && c.timeline.state == AnimationState::Playing
}

/// The timeline after `event`, with whether playback has just started.
pub open spec fn handled(tl: AnimationTimeline, event: AnimationEvent) -> (AnimationTimeline, bool) {
    match event {
        AnimationEvent::Play => played(tl),
        AnimationEvent::Pause => (paused(tl), false),
        AnimationEvent::Stop => (rewound(tl, AnimationState::Idle), false),
        AnimationEvent::Restart => played(rewound(tl, AnimationState::Idle)),
    }
}

fn apply_to_transform_all(vals: &Vec<(String, AnimatableProperty)>, transform: &mut Transform2d)
    ensures
        *final(transform) == transform_after_all(
            vals@.map_values(|p: (String, AnimatableProperty)| (p.0@, p.1)),
            *old(transform),
        ),
{
    let ghost v = vals@.map_values(|p: (String, AnimatableProperty)| (p.0@, p.1));
    let ghost start = *transform;
    let mut i: usize = 0;
    while i < vals.len()
        invariant
            v == vals@.map_values(|p: (String, AnimatableProperty)| (p.0@, p.1)),
            0 <= i <= v.len(),
            *transform == transform_after_all(v.take(i as int), start),
        decreases v.len() - i,
    {
        proof {
            assert(v.take(i + 1).drop_last() =~= v.take(i as int));
            assert(v.take(i + 1).last() == v[i as int]);
        }
        vals[i].1.apply_to_transform(transform);
        i = i + 1;
    }
    proof {
        assert(v.take(v.len() as int) =~= v);
    }
}

fn apply_to_material_kind(
    vals: &Vec<(String, AnimatableProperty)>,
    material: &mut ColorMaterial,
    opacity: bool,
)
    ensures
        *final(material) == material_after_kind(
            vals@.map_values(|p: (String, AnimatableProperty)| (p.0@, p.1)),
            *old(material),
            opacity,
        ),
{
    let ghost v = vals@.map_values(|p: (String, AnimatableProperty)| (p.0@, p.1));
    let ghost start = *material;
    let mut i: usize = 0;
    while i < vals.len()
        invariant
            v == vals@.map_values(|p: (String, AnimatableProperty)| (p.0@, p.1)),
            0 <= i <= v.len(),
            *material == material_after_kind(v.take(i as int), start, opacity),
        decreases v.len() - i,
    {
        proof {
            assert(v.take(i + 1).drop_last() =~= v.take(i as int));
            assert(v.take(i + 1).last() == v[i as int]);
        }
        let is_opacity = match &vals[i].1 {
            AnimatableProperty::Opacity(_) => true,
            _ => false,
        };
        if is_opacity == opacity {
            vals[i].1.apply_to_material(material);
        }
        i = i + 1;
    }
    proof {
        assert(v.take(v.len() as int) =~= v);
    }
}

/// Writes a playing, auto-applying component's current values onto its
/// object: every value onto the transform, and, where the object has a
/// material, colours and then opacities onto it. Otherwise nothing changes.
pub fn apply_animation_properties(
    component: &AnimationComponent,
    transform: &mut Transform2d,
    material: &mut Option<ColorMaterial>,
)
    requires
        component.timeline.wf(),
    ensures
        ({
            let vals = current_values(
                component.timeline.tracks_model(),
                component.timeline.elapsed_time as int,
            );
            &&& *final(transform) == if applies(*component) {
                transform_after_all(vals, *old(transform))
            } else {
                *old(transform)
            }
            &&& *final(material) == if applies(*component) {
                match *old(material) {
                    Some(m) => Some(material_after_all(vals, m)),
                    None => None,
                }
            } else {
                *old(material)
            }
        }),
{
    if !component.auto_apply || !component.timeline.is_playing() {
        return;
    }
    let values = component.timeline.get_current_values();
    apply_to_transform_all(&values, transform);
    match material {
        Some(m) => {
            apply_to_material_kind(&values, m, false);
            apply_to_material_kind(&values, m, true);
        },
        None => {},
    }
}

/// Applies a playback command to a component. Returns `true` when playback
/// starts from the beginning.
pub fn handle_animation_event(component: &mut AnimationComponent, event: AnimationEvent) -> (started:
    bool)
    ensures
        final(component).auto_apply == old(component).auto_apply,
        (final(component).timeline, started) == handled(old(component).timeline, event),
{
    match event {
        AnimationEvent::Play => component.timeline.play(),
        AnimationEvent::Pause => {
            component.timeline.pause();
            false
        },
        AnimationEvent::Stop => {
            component.timeline.stop();
            false
        },
        AnimationEvent::Restart => component.timeline.restart(),
    }
}

/// Advances every component's timeline by `delta`. Entry `i` of the result
/// says whether component `i` finished on this frame.
pub fn update_animations(components: &mut Vec<AnimationComponent>, delta: i64) -> (finished: Vec<
    bool,
>)
    requires
        forall|i: int| 0 <= i < old(components)@.len() ==> (#[trigger] old(components)@[i]).timeline.wf(),
        0 <= delta <= MAX_TIME,
    ensures
        final(components)@.len() == old(components)@.len(),
        finished@.len() == old(components)@.len(),
        forall|i: int|
            0 <= i < old(components)@.len() ==> {
                &&& (#[trigger] final(components)@[i]).auto_apply == old(components)@[i].auto_apply
                &&& (final(components)@[i].timeline, finished@[i]) == updated(
                    old(components)@[i].timeline,
                    delta as int,
                )
                &&& final(components)@[i].timeline.wf()
            },
{
    let ghost orig = components@;
    let mut finished: Vec<bool> = Vec::new();
    let mut i: usize = 0;
    while i < components.len()
        invariant
            components@.len() == orig.len(),
            finished@.len() == i,
            0 <= i <= orig.len(),
            0 <= delta <= MAX_TIME,
            forall|k: int| 0 <= k < orig.len() ==> (#[trigger] orig[k]).timeline.wf(),
            forall|k: int|
                0 <= k < i ==> {
                    &&& (#[trigger] components@[k]).auto_apply == orig[k].auto_apply
                    &&& (components@[k].timeline, finished@[k]) == updated(
                        orig[k].timeline,
                        delta as int,
                    )
                    &&& components@[k].timeline.wf()
                },
            forall|k: int| i <= k < orig.len() ==> #[trigger] components@[k] == orig[k],
        decreases orig.len() - i,
    {
        let ghost pre = components@;
        let mut c = components.remove(i);
        let f = c.timeline.update(delta);
        components.insert(i, c);
        finished.push(f);
        proof {
            assert forall|k: int| 0 <= k < orig.len() && k != i implies components@[k] == pre[k] by {}
        }
        i = i + 1;
    }
    finished
}

/// Interpolating values of different kinds gives no value, and a channel
/// without a value leaves the object's transform and material as they were.
pub proof fn lemma_mismatch_leaves_target(
    a: Vec2,
    b: i64,
    u: int,
    easing: Easing,
    track: TrackModel,
    time: int,
    transform: Transform2d,
    material: ColorMaterial,
)
    requires
        value_at(track.keyframes, time) is None,
    ensures
        interpolation(AnimatableProperty::Position(a), AnimatableProperty::Rotation(b), u, easing)
            is None,
        transform_after_all(current_values(seq![track], time), transform) == transform,
        material_after_all(current_values(seq![track], time), material) == material,
{
    assert(seq![track].drop_last() =~= Seq::<TrackModel>::empty());
    assert(seq![track].last() == track);
    assert(current_values(Seq::<TrackModel>::empty(), time) =~= Seq::empty());
    assert(current_values(seq![track], time) =~= Seq::<(Seq<char>, AnimatableProperty)>::empty());
}

/// A track with no value at `time`, wherever it stands among the tracks,
/// changes nothing in what is sampled: the other tracks' values are the
/// same, in the same order, as without it.
pub proof fn lemma_valueless_track_is_skipped(
    a: Seq<TrackModel>,
    m: TrackModel,
    b: Seq<TrackModel>,
    time: int,
)
    requires
        value_at(m.keyframes, time) is None,
    ensures
        current_values(a + seq![m] + b, time) == current_values(a + b, time),
    decreases b.len(),
{
    let x = a + seq![m] + b;
    let y = a + b;
    if b.len() == 0 {
        assert(x.drop_last() =~= a);
        assert(x.last() == m);
        assert(y =~= a);
    } else {
        assert(x.drop_last() =~= a + seq![m] + b.drop_last());
        assert(y.drop_last() =~= a + b.drop_last());
        assert(x.last() == b.last());
        assert(y.last() == b.last());
        lemma_valueless_track_is_skipped(a, m, b.drop_last(), time);
    }
}

/// Where no track has a value at `time`, nothing is sampled, and writing
/// the samples leaves the object's transform and material as they were.
pub proof fn lemma_no_values_leave_target(
    ts: Seq<TrackModel>,
    time: int,
    transform: Transform2d,
    material: ColorMaterial,
)
    requires
        forall|i: int| 0 <= i < ts.len() ==> value_at((#[trigger] ts[i]).keyframes, time) is None,
    ensures
        current_values(ts, time) == Seq::<(Seq<char>, AnimatableProperty)>::empty(),
        transform_after_all(current_values(ts, time), transform) == transform,
        material_after_all(current_values(ts, time), material) == material,
    decreases ts.len(),
{
    if ts.len() > 0 {
        let rest = ts.drop_last();
        assert forall|i: int| 0 <= i < rest.len() implies value_at(
            (#[trigger] rest[i]).keyframes,
            time,
        ) is None by {
            assert(rest[i] == ts[i]);
        }
        lemma_no_values_leave_target(rest, time, transform, material);
        assert(value_at(ts[ts.len() - 1].keyframes, time) is None);
    }
    assert(current_values(ts, time) =~= Seq::<(Seq<char>, AnimatableProperty)>::empty());
}

} // verus!
