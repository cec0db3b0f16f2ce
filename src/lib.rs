//! A keyframe animation core: easing curves, animatable properties, keyframe
//! tracks, a timeline playback state machine and a fluent builder.
//!
//! All quantities are fixed point: an `i64` counts units of `1 / fixed::ONE`,
//! so times are in ten-thousandths of a second and `ONE` stands for `1.0`.
use vstd::prelude::*;

pub mod fixed;
pub mod easing;
pub mod property;
pub mod keyframe;
pub mod timeline;
pub mod builder;
pub mod presets;
pub mod driver;

verus! {

} // verus!
