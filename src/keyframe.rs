//! Keyframes and the time-ordered tracks that hold them.
use vstd::prelude::*;
use crate::easing::Easing;
use crate::fixed::{ONE, div_floor};
use crate::property::{AnimatableProperty, LinearRgba, Vec2, interpolation};

verus! {

/// The latest time a keyframe may stand at.
pub const MAX_TIME: i64 = 1000000000000;

/// A target value to reach at `time`, approached from the previous keyframe
/// of its track along `easing`.
#[derive(Debug, PartialEq)]
pub struct Keyframe {
    /// Time since the start of the animation, in fixed-point seconds.
    pub time: i64,
    pub property: AnimatableProperty,
    pub easing: Easing,
}

impl Clone for Keyframe {
    fn clone(&self) -> (r: Self)
        ensures
            r == *self,
    {
        Keyframe { time: self.time, property: self.property.clone(), easing: self.easing }
    }
}

impl Keyframe {
    /// A time in `[0, MAX_TIME]` and a value whose components interpolate safely.
    pub open spec fn valid(&self) -> bool {
        0 <= self.time <= MAX_TIME && self.property.valid()
    }

    pub fn new(time: i64, property: AnimatableProperty, easing: Easing) -> (r: Keyframe)
        ensures
            r == (Keyframe { time, property, easing }),
    {
        Keyframe { time, property, easing }
    }

    pub fn position(time: i64, position: Vec2, easing: Easing) -> (r: Keyframe)
        ensures
            r == (Keyframe { time, property: AnimatableProperty::Position(position), easing }),
    {
        Self::new(time, AnimatableProperty::Position(position), easing)
    }

    pub fn rotation(time: i64, rotation: i64, easing: Easing) -> (r: Keyframe)
        ensures
            r == (Keyframe { time, property: AnimatableProperty::Rotation(rotation), easing }),
    {
        Self::new(time, AnimatableProperty::Rotation(rotation), easing)
    }

    pub fn scale(time: i64, scale: Vec2, easing: Easing) -> (r: Keyframe)
        ensures
            r == (Keyframe { time, property: AnimatableProperty::Scale(scale), easing }),
    {
        Self::new(time, AnimatableProperty::Scale(scale), easing)
    }

    pub fn color(time: i64, color: LinearRgba, easing: Easing) -> (r: Keyframe)
        ensures
            r == (Keyframe { time, property: AnimatableProperty::Color(color), easing }),
    {
        Self::new(time, AnimatableProperty::Color(color), easing)
    }

    pub fn opacity(time: i64, opacity: i64, easing: Easing) -> (r: Keyframe)
        ensures
            r == (Keyframe { time, property: AnimatableProperty::Opacity(opacity), easing }),
    {
        Self::new(time, AnimatableProperty::Opacity(opacity), easing)
    }
}

/// Keyframes in ascending order of time.
pub open spec fn sorted_by_time(s: Seq<Keyframe>) -> bool {
    forall|i: int, j: int| 0 <= i < j < s.len() ==> s[i].time <= s[j].time
}

pub open spec fn all_valid(s: Seq<Keyframe>) -> bool {
    forall|i: int| 0 <= i < s.len() ==> (#[trigger] s[i]).valid()
}

/// The first index from `i` on whose keyframe lies after `time`, or the length.
pub open spec fn first_after(s: Seq<Keyframe>, time: int, i: int) -> int
    decreases s.len() - i,
{
    if i < 0 || i >= s.len() {
        s.len() as int
    } else if s[i].time > time {
        i
    } else {
        first_after(s, time, i + 1)
    }
}

/// `s` with `k` inserted after every keyframe at or before its time: a stable
/// sort of `s` with `k` appended.
pub open spec fn sorted_insert(s: Seq<Keyframe>, k: Keyframe) -> Seq<Keyframe> {
    s.insert(first_after(s, k.time as int, 0), k)
}

/// The time of the last keyframe, or `0` for none.
pub open spec fn track_duration(s: Seq<Keyframe>) -> int {
    if s.len() == 0 {
        0
    } else {
        s.last().time as int
    }
}

/// The value at `time` on the segment from `prev` to `next`, where
/// `prev.time <= time < next.time`: the earlier keyframe's value when it
/// stands at `time`, else the interpolation along the later keyframe's curve.
pub open spec fn segment_at(prev: Keyframe, next: Keyframe, time: int) -> Option<
    AnimatableProperty,
> {
    if prev.time == time {
        Some(prev.property)
    } else {
        interpolation(
            prev.property,
            next.property,
            ((time - prev.time) * ONE) / ((next.time - prev.time) as int),
            next.easing,
        )
    }
}

/// The value on the first segment from index `i` on with
/// `s[i].time <= time < s[i + 1].time`.
pub open spec fn segment_value(s: Seq<Keyframe>, time: int, i: int) -> Option<AnimatableProperty>
    decreases s.len() - i,
{
    if i < 0 || i + 1 >= s.len() {
        None
    } else if s[i].time <= time < s[i + 1].time {
        segment_at(s[i], s[i + 1], time)
    } else {
        segment_value(s, time, i + 1)
    }
}

/// The value of a track at `time`: the first keyframe's at or before the
/// first time, the last keyframe's at or after the last time; strictly in
/// between, the value of the last keyframe standing exactly at `time`, or
/// else the interpolation between the keyframes around it.
pub open spec fn value_at(s: Seq<Keyframe>, time: int) -> Option<AnimatableProperty> {
    if s.len() == 0 {
        None
    } else if time <= s[0].time {
        Some(s[0].property)
    } else if time >= s.last().time {
        Some(s.last().property)
    } else {
        segment_value(s, time, 0)
    }
}

proof fn lemma_segment_value_tie(s: Seq<Keyframe>, time: int, i: int, j: int)
    requires
        sorted_by_time(s),
        0 <= i <= j,
        j + 1 < s.len(),
        s[j].time == time,
        s[j + 1].time > time,
    ensures
        segment_value(s, time, i) == Some(s[j].property),
    decreases j - i,
{
    if i < j {
        assert(s[i + 1].time <= s[j].time);
        lemma_segment_value_tie(s, time, i + 1, j);
    }
}

/// Where keyframes stand exactly at a `time` after the first keyframe's, a
/// sorted track gives the value of the last of them.
pub proof fn lemma_value_at_tie(s: Seq<Keyframe>, time: int, j: int)
    requires
        sorted_by_time(s),
        0 <= j < s.len(),
        s[0].time < time,
        s[j].time == time,
        j + 1 == s.len() || s[j + 1].time > time,
    ensures
        value_at(s, time) == Some(s[j].property),
{
    assert(s[0].time <= s[j].time);
    if j + 1 < s.len() {
        assert(s[j + 1].time <= s[s.len() - 1].time);
        lemma_segment_value_tie(s, time, 0, j);
    }
}

pub proof fn lemma_first_after(s: Seq<Keyframe>, time: int, i: int)
    requires
        0 <= i <= s.len(),
    ensures
        i <= first_after(s, time, i) <= s.len(),
        forall|j: int| i <= j < first_after(s, time, i) ==> s[j].time <= time,
        first_after(s, time, i) < s.len() ==> s[first_after(s, time, i)].time > time,
    decreases s.len() - i,
{
    if i < s.len() && s[i].time <= time {
        lemma_first_after(s, time, i + 1);
    }
}

/// Inserting keeps a sorted sequence of valid keyframes sorted and valid.
pub proof fn lemma_sorted_insert(s: Seq<Keyframe>, k: Keyframe)
    requires
        sorted_by_time(s),
        all_valid(s),
        k.valid(),
    ensures
        sorted_by_time(sorted_insert(s, k)),
        all_valid(sorted_insert(s, k)),
        sorted_insert(s, k).len() == s.len() + 1,
{
    let p = first_after(s, k.time as int, 0);
    lemma_first_after(s, k.time as int, 0);
    let r = sorted_insert(s, k);
    assert forall|i: int, j: int| 0 <= i < j < r.len() implies r[i].time <= r[j].time by {
        if j < p {
        } else if j == p {
        } else if i < p {
        } else if i == p {
            assert(s[p].time > k.time);
            assert(s[p].time <= s[j - 1].time);
        } else {
        }
    }
    assert forall|i: int| 0 <= i < r.len() implies (#[trigger] r[i]).valid() by {
        if i < p {
        } else if i == p {
        } else {
            assert(r[i] == s[i - 1]);
        }
    }
}

/// A named, time-ordered sequence of keyframes for one channel.
#[derive(Debug, PartialEq)]
pub struct KeyframeTrack {
    pub name: String,
    pub keyframes: Vec<Keyframe>,
}

/// What a track holds: its name and its keyframes in order.
pub struct TrackModel {
    pub name: Seq<char>,
    pub keyframes: Seq<Keyframe>,
}

impl View for KeyframeTrack {
    type V = TrackModel;

    open spec fn view(&self) -> TrackModel {
        TrackModel { name: self.name@, keyframes: self.keyframes@ }
    }
}

/// A track's keyframes are sorted by time and each is valid.
pub open spec fn track_wf(m: TrackModel) -> bool {
    sorted_by_time(m.keyframes) && all_valid(m.keyframes)
}

impl KeyframeTrack {
    pub open spec fn wf(&self) -> bool {
        track_wf(self@)
    }

    pub fn new(name: String) -> (r: KeyframeTrack)
        ensures
            r@ == (TrackModel { name: name@, keyframes: Seq::empty() }),
            r.wf(),
    {
        KeyframeTrack { name, keyframes: Vec::new() }
    }

    /// Adds `keyframe` after all keyframes at or before its time.
    pub fn add_keyframe(&mut self, keyframe: Keyframe)
        requires
            old(self).wf(),
            keyframe.valid(),
        ensures
            final(self)@ == (TrackModel {
                name: old(self)@.name,
                keyframes: sorted_insert(old(self)@.keyframes, keyframe),
            }),
            final(self).wf(),
    {
        let ghost s = self.keyframes@;
        let mut i: usize = 0;
        while i < self.keyframes.len() && self.keyframes[i].time <= keyframe.time
            invariant
                self.keyframes@ == s,
                0 <= i <= s.len(),
                first_after(s, keyframe.time as int, 0) == first_after(
                    s,
                    keyframe.time as int,
                    i as int,
                ),
            decreases s.len() - i,
        {
            i = i + 1;
        }
        proof {
            lemma_sorted_insert(s, keyframe);
        }
        self.keyframes.insert(i, keyframe);
    }

    /// The track's value at `time`.
    pub fn get_value_at(&self, time: i64) -> (r: Option<AnimatableProperty>)
        requires
            self.wf(),
        ensures
            r == value_at(self.keyframes@, time as int),
    {
        let n = self.keyframes.len();
        if n == 0 {
            return None;
        }
        if time <= self.keyframes[0].time {
            return Some(self.keyframes[0].property.clone());
        }
        if time >= self.keyframes[n - 1].time {
            return Some(self.keyframes[n - 1].property.clone());
        }
        let ghost s = self.keyframes@;
        let mut i: usize = 0;
        while i + 1 < n
            invariant
                s == self.keyframes@,
                n == s.len(),
                self.wf(),
                0 <= i < n,
                s[0].time < time < s[n - 1].time,
                segment_value(s, time as int, 0) == segment_value(s, time as int, i as int),
            decreases n - i,
        {
            let current = &self.keyframes[i];
            let next = &self.keyframes[i + 1];
            if current.time <= time && time < next.time {
                if current.time == time {
                    return Some(current.property.clone());
                }
                let num: i128 = (time as i128 - current.time as i128) * (ONE as i128);
                let u = div_floor(num, next.time as i128 - current.time as i128);
                proof {
                    vstd::arithmetic::div_mod::lemma_div_is_ordered(
                        num as int,
                        (next.time - current.time) * ONE,
                        (next.time - current.time) as int,
                    );
                    vstd::arithmetic::div_mod::lemma_div_multiples_vanish(
                        ONE as int,
                        (next.time - current.time) as int,
                    );
                    vstd::arithmetic::div_mod::lemma_div_pos_is_pos(
                        num as int,
                        (next.time - current.time) as int,
                    );
                    assert(s[i as int].valid() && s[i + 1].valid());
                }
                return current.property.interpolate(&next.property, u as i64, next.easing);
            }
            i = i + 1;
        }
        None
    }

    /// The time of the last keyframe, or `0` for an empty track.
    pub fn duration(&self) -> (r: i64)
        ensures
            r == track_duration(self.keyframes@),
    {
        let n = self.keyframes.len();
        if n == 0 {
            0
        } else {
            self.keyframes[n - 1].time
        }
    }
}

} // verus!
