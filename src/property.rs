//! Animatable values, how two of them interpolate, and how one is written
//! onto a target's transform or material.
use vstd::prelude::*;
use crate::easing::{Easing, eased, lerp, lerp_with_easing, valid_component};
use crate::fixed::ONE;

verus! {

/// A 2D vector in fixed point.
#[derive(Clone, Copy, Debug, PartialEq, Eq, Structural)]
pub struct Vec2 {
    pub x: i64,
    pub y: i64,
}

/// A 3D vector in fixed point; `z` is the depth (draw order) axis.
#[derive(Clone, Copy, Debug, PartialEq, Eq, Structural)]
pub struct Vec3 {
    pub x: i64,
    pub y: i64,
    pub z: i64,
}

/// A colour in linear (not gamma-corrected) RGBA, each channel in fixed point.
#[derive(Clone, Copy, Debug, PartialEq, Eq, Structural)]
pub struct LinearRgba {
    pub red: i64,
    pub green: i64,
    pub blue: i64,
    pub alpha: i64,
}

impl Vec2 {
    pub fn new(x: i64, y: i64) -> (r: Vec2)
        ensures
            r == (Vec2 { x, y }),
    {
        Vec2 { x, y }
    }

    /// Both components equal to `v`.
    pub fn splat(v: i64) -> (r: Vec2)
        ensures
            r == (Vec2 { x: v, y: v }),
    {
        Vec2 { x: v, y: v }
    }
}

impl LinearRgba {
    pub fn new(red: i64, green: i64, blue: i64, alpha: i64) -> (r: LinearRgba)
        ensures
            r == (LinearRgba { red, green, blue, alpha }),
    {
        LinearRgba { red, green, blue, alpha }
    }

    /// Opaque white.
    pub fn white() -> (r: LinearRgba)
        ensures
            r == white_spec(),
    {
        LinearRgba { red: ONE, green: ONE, blue: ONE, alpha: ONE }
    }
}

pub open spec fn white_spec() -> LinearRgba {
    LinearRgba { red: ONE, green: ONE, blue: ONE, alpha: ONE }
}

/// A value that a keyframe can animate.
#[derive(Debug, PartialEq)]
pub enum AnimatableProperty {
    Position(Vec2),
    /// An angle in radians, in fixed point.
    Rotation(i64),
    Scale(Vec2),
    Color(LinearRgba),
    /// Opacity; `ONE` is fully opaque.
    Opacity(i64),
    /// A named scalar.
    Custom(String, i64),
}

impl Clone for AnimatableProperty {
    fn clone(&self) -> (r: Self)
        ensures
            r == *self,
    {
        match self {
            AnimatableProperty::Position(v) => AnimatableProperty::Position(*v),
            AnimatableProperty::Rotation(a) => AnimatableProperty::Rotation(*a),
            AnimatableProperty::Scale(v) => AnimatableProperty::Scale(*v),
            AnimatableProperty::Color(c) => AnimatableProperty::Color(*c),
            AnimatableProperty::Opacity(o) => AnimatableProperty::Opacity(*o),
            AnimatableProperty::Custom(n, v) => AnimatableProperty::Custom(n.clone(), *v),
        }
    }
}

pub open spec fn valid_vec2(v: Vec2) -> bool {
    valid_component(v.x as int) && valid_component(v.y as int)
}

pub open spec fn valid_color(c: LinearRgba) -> bool {
    valid_component(c.red as int) && valid_component(c.green as int) && valid_component(
        c.blue as int,
    ) && valid_component(c.alpha as int)
}

impl AnimatableProperty {
    /// Every component lies within `MAX_COMPONENT`.
    pub open spec fn valid(&self) -> bool {
        match *self {
            AnimatableProperty::Position(v) => valid_vec2(v),
            AnimatableProperty::Rotation(a) => valid_component(a as int),
            AnimatableProperty::Scale(v) => valid_vec2(v),
            AnimatableProperty::Color(c) => valid_color(c),
            AnimatableProperty::Opacity(o) => valid_component(o as int),
            AnimatableProperty::Custom(_, v) => valid_component(v as int),
        }
    }
}

pub open spec fn lerp_vec2(a: Vec2, b: Vec2, p: int) -> Vec2 {
    Vec2 { x: lerp(a.x as int, b.x as int, p) as i64, y: lerp(a.y as int, b.y as int, p) as i64 }
}

pub open spec fn lerp_color(a: LinearRgba, b: LinearRgba, p: int) -> LinearRgba {
    LinearRgba {
        red: lerp(a.red as int, b.red as int, p) as i64,
        green: lerp(a.green as int, b.green as int, p) as i64,
        blue: lerp(a.blue as int, b.blue as int, p) as i64,
        alpha: lerp(a.alpha as int, b.alpha as int, p) as i64,
    }
}

/// The value between `a` and `b` at time `t`: defined only when both are
/// of one kind (and, for custom values, of one name).
pub open spec fn interpolation(
    a: AnimatableProperty,
    b: AnimatableProperty,
    t: int,
    easing: Easing,
) -> Option<AnimatableProperty> {
    let p = eased(easing, t);
    match a {
        AnimatableProperty::Position(u) => match b {
            AnimatableProperty::Position(v) => Some(AnimatableProperty::Position(lerp_vec2(u, v, p))),
            _ => None,
        },
        AnimatableProperty::Rotation(u) => match b {
            AnimatableProperty::Rotation(v) => Some(
                AnimatableProperty::Rotation(lerp(u as int, v as int, p) as i64),
            ),
            _ => None,
        },
        AnimatableProperty::Scale(u) => match b {
            AnimatableProperty::Scale(v) => Some(AnimatableProperty::Scale(lerp_vec2(u, v, p))),
            _ => None,
        },
        AnimatableProperty::Color(u) => match b {
            AnimatableProperty::Color(v) => Some(AnimatableProperty::Color(lerp_color(u, v, p))),
            _ => None,
        },
        AnimatableProperty::Opacity(u) => match b {
            AnimatableProperty::Opacity(v) => Some(
                AnimatableProperty::Opacity(lerp(u as int, v as int, p) as i64),
            ),
            _ => None,
        },
        AnimatableProperty::Custom(na, u) => match b {
            AnimatableProperty::Custom(nb, v) => if na@ == nb@ {
                Some(AnimatableProperty::Custom(na, lerp(u as int, v as int, p) as i64))
            } else {
                None
            },
            _ => None,
        },
    }
}

fn lerp_vec2_exec(a: Vec2, b: Vec2, t: i64, easing: Easing) -> (r: Vec2)
    requires
        valid_vec2(a),
        valid_vec2(b),
    ensures
        r == lerp_vec2(a, b, eased(easing, t as int)),
{
    Vec2 {
        x: lerp_with_easing(a.x, b.x, t, easing),
        y: lerp_with_easing(a.y, b.y, t, easing),
    }
}

impl AnimatableProperty {
    /// The value between `self` and `other` at time `t` in `[0, ONE]`, or
    /// `None` where the two are of different kinds or names.
    pub fn interpolate(&self, other: &Self, t: i64, easing: Easing) -> (r: Option<
        AnimatableProperty,
    >)
        requires
            self.valid(),
            other.valid(),
        ensures
            r == interpolation(*self, *other, t as int, easing),
    {
        match self {
            AnimatableProperty::Position(a) => match other {
                AnimatableProperty::Position(b) => {
                    let v = lerp_vec2_exec(*a, *b, t, easing);
                    Some(AnimatableProperty::Position(v))
                },
                _ => None,
            },
            AnimatableProperty::Rotation(a) => match other {
                AnimatableProperty::Rotation(b) => {
                    let v = lerp_with_easing(*a, *b, t, easing);
                    Some(AnimatableProperty::Rotation(v))
                },
                _ => None,
            },
            AnimatableProperty::Scale(a) => match other {
                AnimatableProperty::Scale(b) => Some(
                    AnimatableProperty::Scale(lerp_vec2_exec(*a, *b, t, easing)),
                ),
                _ => None,
            },
            AnimatableProperty::Color(a) => match other {
                AnimatableProperty::Color(b) => {
                    let c = LinearRgba {
                        red: lerp_with_easing(a.red, b.red, t, easing),
                        green: lerp_with_easing(a.green, b.green, t, easing),
                        blue: lerp_with_easing(a.blue, b.blue, t, easing),
                        alpha: lerp_with_easing(a.alpha, b.alpha, t, easing),
                    };
                    Some(AnimatableProperty::Color(c))
                },
                _ => None,
            },
            AnimatableProperty::Opacity(a) => match other {
                AnimatableProperty::Opacity(b) => {
                    let v = lerp_with_easing(*a, *b, t, easing);
                    Some(AnimatableProperty::Opacity(v))
                },
                _ => None,
            },
            AnimatableProperty::Custom(na, a) => match other {
                AnimatableProperty::Custom(nb, b) => {
                    if na.eq(nb) {
                        Some(
                            AnimatableProperty::Custom(
                                na.clone(),
                                lerp_with_easing(*a, *b, t, easing),
                            ),
                        )
                    } else {
                        None
                    }
                },
                _ => None,
            },
        }
    }
}

/// The part of a scene object's transform that animation writes: a
/// translation and scale with a depth axis, and a rotation about the axis
/// perpendicular to the plane.
#[derive(Clone, Copy, Debug, PartialEq, Eq, Structural)]
pub struct Transform2d {
    pub translation: Vec3,
    /// Radians about the perpendicular axis, in fixed point.
    pub rotation: i64,
    pub scale: Vec3,
}

/// A flat-colour material.
#[derive(Clone, Copy, Debug, PartialEq, Eq, Structural)]
pub struct ColorMaterial {
    pub color: LinearRgba,
}

/// `v` clamped into `[0, ONE]`.
pub open spec fn clamp_opacity(v: int) -> int {
    if v < 0 {
        0
    } else if v > ONE {
        ONE as int
    } else {
        v
    }
}

/// The transform after `p` is written onto `t`: position and scale keep
/// the depth axis, rotation is replaced, other kinds leave it as it was.
pub open spec fn transform_after(p: AnimatableProperty, t: Transform2d) -> Transform2d {
    match p {
        AnimatableProperty::Position(v) => Transform2d {
            translation: Vec3 { x: v.x, y: v.y, z: t.translation.z },
            ..t
        },
        AnimatableProperty::Rotation(a) => Transform2d { rotation: a, ..t },
        AnimatableProperty::Scale(v) => Transform2d {
            scale: Vec3 { x: v.x, y: v.y, z: t.scale.z },
            ..t
        },
        _ => t,
    }
}

/// The material after `p` is written onto `m`: a colour replaces the colour,
/// an opacity (clamped into `[0, ONE]`) replaces the alpha channel.
pub open spec fn material_after(p: AnimatableProperty, m: ColorMaterial) -> ColorMaterial {
    match p {
        AnimatableProperty::Color(c) => ColorMaterial { color: c },
        AnimatableProperty::Opacity(o) => ColorMaterial {
            color: LinearRgba { alpha: clamp_opacity(o as int) as i64, ..m.color },
        },
        _ => m,
    }
}

impl AnimatableProperty {
    /// Writes a position, rotation or scale onto `transform`.
    pub fn apply_to_transform(&self, transform: &mut Transform2d)
        ensures
            *final(transform) == transform_after(*self, *old(transform)),
    {
        match self {
            AnimatableProperty::Position(v) => {
                transform.translation.x = v.x;
                transform.translation.y = v.y;
            },
            AnimatableProperty::Rotation(a) => {
                transform.rotation = *a;
            },
            AnimatableProperty::Scale(v) => {
                transform.scale.x = v.x;
                transform.scale.y = v.y;
            },
            _ => {},
        }
    }

    /// Writes a colour or an opacity onto `material`.
    pub fn apply_to_material(&self, material: &mut ColorMaterial)
        ensures
            *final(material) == material_after(*self, *old(material)),
    {
        match self {
            AnimatableProperty::Color(c) => {
                material.color = *c;
            },
            AnimatableProperty::Opacity(o) => {
                let a: i64 = if *o < 0 {
                    0
                } else if *o > ONE {
                    ONE
                } else {
                    *o
                };
                material.color.alpha = a;
            },
            _ => {},
        }
    }
}

} // verus!
