//! A timeline: named tracks plus a playback state machine.
use vstd::prelude::*;
use crate::fixed::{ONE, div_floor, lemma_div_bounds, lemma_mul_bounds};
use crate::keyframe::{
    lemma_sorted_insert, Keyframe, KeyframeTrack, MAX_TIME, TrackModel, all_valid, sorted_insert, track_duration,
    track_wf, value_at,
};
use crate::property::AnimatableProperty;

verus! {

/// Where a timeline is in its life.
#[derive(Clone, Copy, Debug, PartialEq, Eq, Structural)]
pub enum AnimationState {
    Idle,
    Playing,
    Paused,
    Finished,
}

/// What a timeline does when it reaches an end.
#[derive(Clone, Copy, Debug, PartialEq, Eq, Structural)]
pub enum AnimationMode {
    /// Play once and finish.
    Once,
    /// Wrap around forever.
    Loop,
    /// Run forward, then backward, forever.
    PingPong,
    /// Wrap around until the given number of passes is done, then finish.
    Repeat(u32),
}

/// The index of the first track from `i` on named `name`, or the length.
pub open spec fn find_track(ts: Seq<TrackModel>, name: Seq<char>, i: int) -> int
    decreases ts.len() - i,
{
    if i < 0 || i >= ts.len() {
        ts.len() as int
    } else if ts[i].name == name {
        i
    } else {
        find_track(ts, name, i + 1)
    }
}

/// The tracks after `k` is added to the track named `name`, which is
/// created at the end if there is none.
pub open spec fn tracks_with(ts: Seq<TrackModel>, name: Seq<char>, k: Keyframe) -> Seq<TrackModel> {
    let j = find_track(ts, name, 0);
    if j < ts.len() {
        ts.update(j, TrackModel { name: ts[j].name, keyframes: sorted_insert(ts[j].keyframes, k) })
    } else {
        ts.push(TrackModel { name, keyframes: sorted_insert(Seq::empty(), k) })
    }
}

/// The longest track's duration, or `0` for none.
pub open spec fn max_duration(ts: Seq<TrackModel>) -> int
    decreases ts.len(),
{
    if ts.len() == 0 {
        0
    } else {
        let rest = max_duration(ts.drop_last());
        let d = track_duration(ts.last().keyframes);
        if d > rest {
            d
        } else {
            rest
        }
    }
}

/// The sampled value of each track that gives one, in track order.
pub open spec fn current_values(ts: Seq<TrackModel>, time: int) -> Seq<(Seq<char>, AnimatableProperty)>
    decreases ts.len(),
{
    if ts.len() == 0 {
        Seq::empty()
    } else {
        let rest = current_values(ts.drop_last(), time);
        match value_at(ts.last().keyframes, time) {
            Some(v) => rest.push((ts.last().name, v)),
            None => rest,
        }
    }
}

/// Every track is well formed and no two share a name.
pub open spec fn tracks_wf(ts: Seq<TrackModel>) -> bool {
    &&& forall|i: int| 0 <= i < ts.len() ==> track_wf(#[trigger] ts[i])
    &&& forall|i: int, j: int|
        0 <= i < j < ts.len() ==> (#[trigger] ts[i]).name != (#[trigger] ts[j]).name
}

/// `x` clamped into `[0, hi]`.
pub open spec fn clamp_to(x: int, hi: int) -> int {
    if x < 0 {
        0
    } else if x > hi {
        hi
    } else {
        x
    }
}

/// `x` wrapped into `[0, d)`; a zero duration wraps to `0`.
pub open spec fn wrap(x: int, d: int) -> int {
    if d <= 0 {
        0
    } else {
        x % d
    }
}

/// One more, stopping at the largest `u32`.
pub open spec fn bump(c: u32) -> u32 {
    if c == u32::MAX {
        c
    } else {
        (c + 1) as u32
    }
}

/// A delta scaled by a fixed-point speed.
pub open spec fn scaled(delta: int, speed: int) -> int {
    (delta * speed) / (ONE as int)
}

pub struct AnimationTimeline {
    pub name: String,
    /// One track per channel, in the order the channels were first used.
    pub tracks: Vec<KeyframeTrack>,
    /// The longest track's duration.
    pub duration: i64,
    pub mode: AnimationMode,
    pub state: AnimationState,
    pub elapsed_time: i64,
    /// Playback speed in fixed point: `ONE` is normal speed.
    pub speed: i64,
    pub repeat_count: u32,
    /// Whether playback runs backwards (ping-pong only).
    pub reverse: bool,
    /// Time to wait after `play` before the animation moves.
    pub delay: i64,
    pub delay_elapsed: i64,
}

/// The timeline after its position moves by `d` and the mode's boundary
/// rule applies, with whether it has just finished.
pub open spec fn advanced(tl: AnimationTimeline, d: int) -> (AnimationTimeline, bool) {
    let moved = if tl.reverse {
        tl.elapsed_time - d
    } else {
        tl.elapsed_time + d
    };
    let dur = tl.duration as int;
    let rest = AnimationTimeline { elapsed_time: clamp_to(moved, dur) as i64, ..tl };
    match tl.mode {
        AnimationMode::Once => if moved >= dur {
            (
                AnimationTimeline {
                    elapsed_time: tl.duration,
                    state: AnimationState::Finished,
                    ..tl
                },
                true,
            )
        } else {
            (rest, false)
        },
        AnimationMode::Loop => if moved >= dur {
            (AnimationTimeline { elapsed_time: wrap(moved, dur) as i64, ..tl }, false)
        } else {
            (rest, false)
        },
        AnimationMode::PingPong => if !tl.reverse && moved >= dur {
            (AnimationTimeline { elapsed_time: tl.duration, reverse: true, ..tl }, false)
        } else if tl.reverse && moved <= 0 {
            (
                AnimationTimeline {
                    elapsed_time: 0,
                    reverse: false,
                    repeat_count: bump(tl.repeat_count),
                    ..tl
                },
                false,
            )
        } else {
            (rest, false)
        },
        AnimationMode::Repeat(n) => if moved >= dur {
            let c = bump(tl.repeat_count);
            if c >= n {
                (
                    AnimationTimeline {
                        elapsed_time: tl.duration,
                        state: AnimationState::Finished,
                        repeat_count: c,
                        ..tl
                    },
                    true,
                )
            } else {
                (
                    AnimationTimeline {
                        elapsed_time: wrap(moved, dur) as i64,
                        repeat_count: c,
                        ..tl
                    },
                    false,
                )
            }
        } else {
            (rest, false)
        },
    }
}

/// The timeline after a frame of `delta`, with whether it has just finished:
/// the delay is consumed first and any excess moves the animation in the same frame.
pub open spec fn updated(tl: AnimationTimeline, delta: int) -> (AnimationTimeline, bool) {
    if tl.state != AnimationState::Playing {
        (tl, false)
    } else if tl.delay_elapsed < tl.delay {
        let de = tl.delay_elapsed + delta;
        let waited = AnimationTimeline { delay_elapsed: de as i64, ..tl };
        if de < tl.delay {
            (waited, false)
        } else {
            advanced(waited, scaled(de - tl.delay, tl.speed as int))
        }
    } else {
        advanced(tl, scaled(delta, tl.speed as int))
    }
}

/// Playback state reset to the start.
pub open spec fn rewound(tl: AnimationTimeline, state: AnimationState) -> AnimationTimeline {
    AnimationTimeline {
        state,
        elapsed_time: 0,
        delay_elapsed: 0,
        repeat_count: 0,
        reverse: false,
        ..tl
    }
}

/// The tracks after each of `ks` is added in turn to the track named `name`.
pub open spec fn tracks_with_all(ts: Seq<TrackModel>, name: Seq<char>, ks: Seq<Keyframe>) -> Seq<
    TrackModel,
>
    decreases ks.len(),
{
    if ks.len() == 0 {
        ts
    } else {
        tracks_with(tracks_with_all(ts, name, ks.drop_last()), name, ks.last())
    }
}

/// The timeline after `play`, with whether it has just started: an idle
/// timeline starts from the beginning, a paused one resumes, others stay.
pub open spec fn played(tl: AnimationTimeline) -> (AnimationTimeline, bool) {
    if tl.state == AnimationState::Idle {
        (rewound(tl, AnimationState::Playing), true)
    } else if tl.state == AnimationState::Paused {
        (AnimationTimeline { state: AnimationState::Playing, ..tl }, false)
    } else {
        (tl, false)
    }
}

/// The timeline after `pause`: only a playing timeline pauses.
pub open spec fn paused(tl: AnimationTimeline) -> AnimationTimeline {
    if tl.state == AnimationState::Playing {
        AnimationTimeline { state: AnimationState::Paused, ..tl }
    } else {
        tl
    }
}

/// `elapsed / duration` in fixed point, clamped into `[0, ONE]`; `0` for a
/// timeline of no duration.
pub open spec fn progress_of(elapsed: int, duration: int) -> int {
    if duration > 0 {
        clamp_to((elapsed * ONE) / duration, ONE as int)
    } else {
        0
    }
}

impl AnimationTimeline {
    /// The tracks as names and keyframe sequences.
    pub open spec fn tracks_model(&self) -> Seq<TrackModel> {
        self.tracks@.map_values(|t: KeyframeTrack| t@)
    }

    /// Tracks well formed with distinct names, the duration that of the
    /// longest track, and every time and rate within its bound.
    pub open spec fn wf(&self) -> bool {
        &&& tracks_wf(self.tracks_model())
        &&& self.duration == max_duration(self.tracks_model())
        &&& 0 <= self.elapsed_time <= MAX_TIME
        &&& 0 <= self.speed
        &&& 0 <= self.delay <= MAX_TIME
        &&& 0 <= self.delay_elapsed <= 2 * MAX_TIME
    }
}

proof fn lemma_find_track(ts: Seq<TrackModel>, name: Seq<char>, i: int)
    requires
        0 <= i <= ts.len(),
    ensures
        i <= find_track(ts, name, i) <= ts.len(),
        find_track(ts, name, i) < ts.len() ==> ts[find_track(ts, name, i)].name == name,
        forall|j: int| i <= j < find_track(ts, name, i) ==> ts[j].name != name,
    decreases ts.len() - i,
{
    if i < ts.len() && ts[i].name != name {
        lemma_find_track(ts, name, i + 1);
    }
}

pub proof fn lemma_max_duration_bounds(ts: Seq<TrackModel>)
    requires
        forall|i: int| 0 <= i < ts.len() ==> track_wf(#[trigger] ts[i]),
    ensures
        0 <= max_duration(ts) <= MAX_TIME,
    decreases ts.len(),
{
    if ts.len() > 0 {
        let rest = ts.drop_last();
        assert forall|i: int| 0 <= i < rest.len() implies track_wf(#[trigger] rest[i]) by {
            assert(rest[i] == ts[i]);
        }
        lemma_max_duration_bounds(rest);
        let last = ts.last();
        assert(track_wf(ts[ts.len() - 1]));
        if last.keyframes.len() > 0 {
            assert(last.keyframes[last.keyframes.len() - 1].valid());
        }
    }
}

/// Adding a keyframe keeps the tracks well formed.
pub proof fn lemma_tracks_with(ts: Seq<TrackModel>, name: Seq<char>, k: Keyframe)
    requires
        tracks_wf(ts),
        k.valid(),
    ensures
        tracks_wf(tracks_with(ts, name, k)),
{
    let j = find_track(ts, name, 0);
    lemma_find_track(ts, name, 0);
    let r = tracks_with(ts, name, k);
    if j < ts.len() {
        lemma_sorted_insert(ts[j].keyframes, k);
        assert forall|a: int, b: int| 0 <= a < b < r.len() implies (#[trigger] r[a]).name != (
        #[trigger] r[b]).name by {
            assert(ts[a].name != ts[b].name);
        }
    } else {
        lemma_sorted_insert(Seq::empty(), k);
        assert forall|a: int, b: int| 0 <= a < b < r.len() implies (#[trigger] r[a]).name != (
        #[trigger] r[b]).name by {
            if b == ts.len() {
                assert(ts[a].name != name);
            } else {
                assert(ts[a].name != ts[b].name);
            }
        }
    }
}

impl AnimationTimeline {
    /// An empty, idle timeline: no tracks, once mode, normal speed, no delay.
    pub fn new(name: String) -> (r: AnimationTimeline)
        ensures
            r.name == name,
            r.tracks@.len() == 0,
            r.duration == 0,
            r.mode == AnimationMode::Once,
            r.state == AnimationState::Idle,
            r.elapsed_time == 0,
            r.speed == ONE,
            r.repeat_count == 0,
            !r.reverse,
            r.delay == 0,
            r.delay_elapsed == 0,
            r.wf(),
    {
        let r = AnimationTimeline {
            name,
            tracks: Vec::new(),
            duration: 0,
            mode: AnimationMode::Once,
            state: AnimationState::Idle,
            elapsed_time: 0,
            speed: ONE,
            repeat_count: 0,
            reverse: false,
            delay: 0,
            delay_elapsed: 0,
        };
        assert(r.tracks_model() =~= Seq::empty());
        r
    }

    /// Sets `duration` to the longest track's duration.
    pub(crate) fn update_duration(&mut self)
        requires
            tracks_wf(old(self).tracks_model()),
        ensures
            *final(self) == (AnimationTimeline {
                duration: max_duration(old(self).tracks_model()) as i64,
                ..*old(self)
            }),
            0 <= max_duration(old(self).tracks_model()) <= MAX_TIME,
    {
        let ghost m = self.tracks_model();
        let mut d: i64 = 0;
        let mut i: usize = 0;
        while i < self.tracks.len()
            invariant
                m == self.tracks_model(),
                tracks_wf(m),
                0 <= i <= m.len(),
                d == max_duration(m.take(i as int)),
                0 <= d <= MAX_TIME,
            decreases m.len() - i,
        {
            proof {
                assert(m.take(i + 1).drop_last() =~= m.take(i as int));
                assert(m.take(i + 1).last() == m[i as int]);
                assert(self.tracks@[i as int]@ == m[i as int]);
                assert forall|k: int| 0 <= k < m.take(i + 1).len() implies track_wf(
                    #[trigger] m.take(i + 1)[k],
                ) by {
                    assert(m.take(i + 1)[k] == m[k]);
                }
                lemma_max_duration_bounds(m.take(i + 1));
            }
            let td = self.tracks[i].duration();
            if td > d {
                d = td;
            }
            i = i + 1;
        }
        proof {
            assert(m.take(m.len() as int) =~= m);
        }
        self.duration = d;
    }

    /// Adds `keyframe` to the track named `track_name`, creating the track
    /// if needed, and recomputes the duration.
    pub fn add_keyframe(&mut self, track_name: &str, keyframe: Keyframe)
        requires
            old(self).wf(),
            keyframe.valid(),
        ensures
            final(self).tracks_model() == tracks_with(
                old(self).tracks_model(),
                track_name@,
                keyframe,
            ),
            *final(self) == (AnimationTimeline {
                tracks: final(self).tracks,
                duration: final(self).duration,
                ..*old(self)
            }),
            final(self).wf(),
    {
        let ghost m = self.tracks_model();
        let owned = track_name.to_owned();
        let mut j: usize = 0;
        while j < self.tracks.len() && !self.tracks[j].name.eq(&owned)
            invariant
                m == self.tracks_model(),
                owned@ == track_name@,
                0 <= j <= m.len(),
                find_track(m, track_name@, 0) == find_track(m, track_name@, j as int),
            decreases m.len() - j,
        {
            proof {
                assert(self.tracks@[j as int]@ == m[j as int]);
            }
            j = j + 1;
        }
        proof {
            lemma_find_track(m, track_name@, 0);
            if j < m.len() {
                assert(self.tracks@[j as int]@ == m[j as int]);
            }
            lemma_tracks_with(m, track_name@, keyframe);
        }
        if j < self.tracks.len() {
            let mut t = self.tracks.remove(j);
            proof {
                assert(t@ == m[j as int]);
            }
            t.add_keyframe(keyframe);
            self.tracks.insert(j, t);
        } else {
            let mut t = KeyframeTrack::new(owned);
            t.add_keyframe(keyframe);
            self.tracks.push(t);
        }
        proof {
            assert(self.tracks_model() =~= tracks_with(m, track_name@, keyframe));
        }
        self.update_duration();
    }
}

fn wrap_exec(x: i128, d: i64) -> (r: i64)
    requires
        0 <= x <= 0x1_0000_0000_0000_0000_0000_0000,
        0 <= d,
    ensures
        r == wrap(x as int, d as int),
        d > 0 ==> 0 <= r < d,
        d <= 0 ==> r == 0,
{
    if d <= 0 {
        0
    } else {
        let q = div_floor(x, d as i128);
        proof {
            vstd::arithmetic::div_mod::lemma_fundamental_div_mod(x as int, d as int);
            vstd::arithmetic::div_mod::lemma_mod_bound(x as int, d as int);
            vstd::arithmetic::div_mod::lemma_div_pos_is_pos(x as int, d as int);
            vstd::arithmetic::div_mod::lemma_div_is_ordered_by_denominator(x as int, 1, d as int);
        }
        (x - q * d as i128) as i64
    }
}

impl AnimationTimeline {
    /// Adds each of `keyframes`, in order, to the track named `track_name`.
    pub fn add_keyframes(&mut self, track_name: &str, keyframes: Vec<Keyframe>)
        requires
            old(self).wf(),
            all_valid(keyframes@),
        ensures
            final(self).tracks_model() == tracks_with_all(
                old(self).tracks_model(),
                track_name@,
                keyframes@,
            ),
            *final(self) == (AnimationTimeline {
                tracks: final(self).tracks,
                duration: final(self).duration,
                ..*old(self)
            }),
            final(self).wf(),
    {
        let ghost m = self.tracks_model();
        let ghost before = *self;
        let mut i: usize = 0;
        while i < keyframes.len()
            invariant
                self.wf(),
                all_valid(keyframes@),
                0 <= i <= keyframes@.len(),
                self.tracks_model() == tracks_with_all(m, track_name@, keyframes@.take(i as int)),
                *self == (AnimationTimeline {
                    tracks: self.tracks,
                    duration: self.duration,
                    ..before
                }),
            decreases keyframes@.len() - i,
        {
            proof {
                assert(keyframes@.take(i + 1).drop_last() =~= keyframes@.take(i as int));
                assert(keyframes@.take(i + 1).last() == keyframes@[i as int]);
                assert(keyframes@[i as int].valid());
            }
            let k = keyframes[i].clone();
            self.add_keyframe(track_name, k);
            i = i + 1;
        }
        proof {
            assert(keyframes@.take(keyframes@.len() as int) =~= keyframes@);
        }
    }

    pub fn set_mode(&mut self, mode: AnimationMode)
        ensures
            *final(self) == (AnimationTimeline { mode, ..*old(self) }),
    {
        self.mode = mode;
    }

    /// Sets the speed; a negative speed becomes `0`.
    pub fn set_speed(&mut self, speed: i64)
        ensures
            *final(self) == (AnimationTimeline {
                speed: if speed < 0 {
                    0
                } else {
                    speed
                },
                ..*old(self)
            }),
    {
        self.speed = if speed < 0 {
            0
        } else {
            speed
        };
    }

    /// Sets the delay before the animation moves; a negative delay becomes `0`.
    pub fn set_delay(&mut self, delay: i64)
        requires
            delay <= MAX_TIME,
        ensures
            *final(self) == (AnimationTimeline {
                delay: if delay < 0 {
                    0
                } else {
                    delay
                },
                ..*old(self)
            }),
    {
        self.delay = if delay < 0 {
            0
        } else {
            delay
        };
    }

    /// Starts or resumes playback. Returns `true` when playback starts from
    /// the beginning, the moment at which a start handler is due.
    pub fn play(&mut self) -> (started: bool)
        ensures
            (*final(self), started) == played(*old(self)),
    {
        if self.state == AnimationState::Idle {
            self.state = AnimationState::Playing;
            self.elapsed_time = 0;
            self.delay_elapsed = 0;
            self.repeat_count = 0;
            self.reverse = false;
            true
        } else if self.state == AnimationState::Paused {
            self.state = AnimationState::Playing;
            false
        } else {
            false
        }
    }

    pub fn pause(&mut self)
        ensures
            *final(self) == paused(*old(self)),
    {
        if self.state == AnimationState::Playing {
            self.state = AnimationState::Paused;
        }
    }

    /// Stops playback and rewinds to the start.
    pub fn stop(&mut self)
        ensures
            *final(self) == rewound(*old(self), AnimationState::Idle),
    {
        self.state = AnimationState::Idle;
        self.elapsed_time = 0;
        self.delay_elapsed = 0;
        self.repeat_count = 0;
        self.reverse = false;
    }

    /// Stops, then plays from the beginning; returns `true` as `play` does.
    pub fn restart(&mut self) -> (started: bool)
        ensures
            (*final(self), started) == played(rewound(*old(self), AnimationState::Idle)),
            started,
    {
        self.stop();
        self.play()
    }

    fn update_animation(&mut self, delta: i64) -> (finished: bool)
        requires
            old(self).wf(),
            0 <= delta <= MAX_TIME,
        ensures
            (*final(self), finished) == advanced(*old(self), scaled(delta as int, old(self).speed as int)),
            final(self).wf(),
            0 <= final(self).elapsed_time <= final(self).duration,
    {
        proof {
            lemma_max_duration_bounds(self.tracks_model());
            lemma_mul_bounds(
                delta as int,
                self.speed as int,
                MAX_TIME as int,
                0x7fff_ffff_ffff_ffff,
            );
            lemma_div_bounds(delta * self.speed, ONE as int, 1_000_000_000_000_000_000_000_000_000);
        }
        let adj: i128 = div_floor(delta as i128 * self.speed as i128, ONE as i128);
        let moved: i128 = if self.reverse {
            self.elapsed_time as i128 - adj
        } else {
            self.elapsed_time as i128 + adj
        };
        let dur = self.duration;
        let clamped: i64 = if moved < 0 {
            0
        } else if moved > dur as i128 {
            dur
        } else {
            moved as i64
        };
        match self.mode {
            AnimationMode::Once => {
                if moved >= dur as i128 {
                    self.elapsed_time = dur;
                    self.state = AnimationState::Finished;
                    true
                } else {
                    self.elapsed_time = clamped;
                    false
                }
            },
            AnimationMode::Loop => {
                if moved >= dur as i128 {
                    self.elapsed_time = wrap_exec(moved, dur);
                } else {
                    self.elapsed_time = clamped;
                }
                false
            },
            AnimationMode::PingPong => {
                if !self.reverse && moved >= dur as i128 {
                    self.elapsed_time = dur;
                    self.reverse = true;
                } else if self.reverse && moved <= 0 {
                    self.elapsed_time = 0;
                    self.reverse = false;
                    self.repeat_count = if self.repeat_count == u32::MAX {
                        self.repeat_count
                    } else {
                        self.repeat_count + 1
                    };
                } else {
                    self.elapsed_time = clamped;
                }
                false
            },
            AnimationMode::Repeat(n) => {
                if moved >= dur as i128 {
                    let c: u32 = if self.repeat_count == u32::MAX {
                        self.repeat_count
                    } else {
                        self.repeat_count + 1
                    };
                    self.repeat_count = c;
                    if c >= n {
                        self.elapsed_time = dur;
                        self.state = AnimationState::Finished;
                        true
                    } else {
                        self.elapsed_time = wrap_exec(moved, dur);
                        false
                    }
                } else {
                    self.elapsed_time = clamped;
                    false
                }
            },
        }
    }

    /// Advances a playing timeline by a frame of `delta`. Returns `true` on
    /// the frame the timeline finishes, the moment a completion handler is due.
    pub fn update(&mut self, delta: i64) -> (finished: bool)
        requires
            old(self).wf(),
            0 <= delta <= MAX_TIME,
        ensures
            (*final(self), finished) == updated(*old(self), delta as int),
            final(self).wf(),
            old(self).state == AnimationState::Playing && old(self).delay_elapsed + delta
                >= old(self).delay ==> 0 <= final(self).elapsed_time <= final(self).duration,
    {
        if self.state != AnimationState::Playing {
            return false;
        }
        if self.delay_elapsed < self.delay {
            self.delay_elapsed = self.delay_elapsed + delta;
            if self.delay_elapsed < self.delay {
                return false;
            }
            let overflow = self.delay_elapsed - self.delay;
            self.update_animation(overflow)
        } else {
            self.update_animation(delta)
        }
    }

    /// The value of every track at the current time, for the tracks that give one.
    pub fn get_current_values(&self) -> (r: Vec<(String, AnimatableProperty)>)
        requires
            self.wf(),
        ensures
            r@.map_values(|p: (String, AnimatableProperty)| (p.0@, p.1)) == current_values(
                self.tracks_model(),
                self.elapsed_time as int,
            ),
    {
        let ghost m = self.tracks_model();
        let t = self.elapsed_time;
        let mut values: Vec<(String, AnimatableProperty)> = Vec::new();
        let mut i: usize = 0;
        while i < self.tracks.len()
            invariant
                m == self.tracks_model(),
                tracks_wf(m),
                0 <= i <= m.len(),
                t == self.elapsed_time,
                values@.map_values(|p: (String, AnimatableProperty)| (p.0@, p.1)) == current_values(
                    m.take(i as int),
                    t as int,
                ),
            decreases m.len() - i,
        {
            proof {
                assert(m.take(i + 1).drop_last() =~= m.take(i as int));
                assert(m.take(i + 1).last() == m[i as int]);
                assert(self.tracks@[i as int]@ == m[i as int]);
                assert(track_wf(m[i as int]));
            }
            let track = &self.tracks[i];
            match track.get_value_at(t) {
                Some(v) => {
                    let ghost before = values@;
                    values.push((track.name.clone(), v));
                    proof {
                        assert(values@.map_values(|p: (String, AnimatableProperty)| (p.0@, p.1))
                            =~= before.map_values(|p: (String, AnimatableProperty)| (p.0@, p.1)).push(
                            (m[i as int].name, v),
                        ));
                    }
                },
                None => {},
            }
            i = i + 1;
        }
        proof {
            assert(m.take(m.len() as int) =~= m);
        }
        values
    }

    /// How far playback has come, in fixed point within `[0, ONE]`.
    pub fn progress(&self) -> (r: i64)
        requires
            self.wf(),
        ensures
            r == progress_of(self.elapsed_time as int, self.duration as int),
            self.duration == 0 ==> r == 0,
    {
        if self.duration > 0 {
            let q = div_floor(self.elapsed_time as i128 * ONE as i128, self.duration as i128);
            if q < 0 {
                0
            } else if q > ONE as i128 {
                ONE
            } else {
                q as i64
            }
        } else {
            0
        }
    }

    pub fn is_playing(&self) -> (r: bool)
        ensures
            r == (self.state == AnimationState::Playing),
    {
        self.state == AnimationState::Playing
    }

    pub fn is_finished(&self) -> (r: bool)
        ensures
            r == (self.state == AnimationState::Finished),
    {
        self.state == AnimationState::Finished
    }
}

/// A finished timeline is finished for good: a further frame changes
/// nothing and reports no second completion.
pub proof fn lemma_finished_is_final(tl: AnimationTimeline, delta: int)
    requires
        tl.state == AnimationState::Finished,
    ensures
        updated(tl, delta) == (tl, false),
{
}

/// In once and repeat modes, the frame that finishes leaves the timeline at
/// its end; loop and ping-pong never finish on their own.
pub proof fn lemma_finish_at_end(tl: AnimationTimeline, delta: int)
    requires
        tl.state == AnimationState::Playing,
    ensures
        updated(tl, delta).1 ==> updated(tl, delta).0.state == AnimationState::Finished
            && updated(tl, delta).0.elapsed_time == tl.duration,
        (tl.mode == AnimationMode::Loop || tl.mode == AnimationMode::PingPong) ==> !updated(
            tl,
            delta,
        ).1 && updated(tl, delta).0.state == AnimationState::Playing,
{
}

} // verus!
