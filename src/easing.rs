//! Easing curves: maps from normalised time to normalised progress, in
//! fixed point (`ONE` stands for `1.0`).
use vstd::prelude::*;
use crate::fixed::{ONE, div_floor, isqrt, isqrt_exec, lemma_mul_bounds, lemma_div_bounds, lemma_isqrt_unique};

verus! {

/// A named easing curve.
#[derive(Clone, Copy, Debug, PartialEq, Eq, Structural)]
pub enum Easing {
    Linear,
    EaseIn,
    EaseOut,
    EaseInOut,
    EaseInQuad,
    EaseOutQuad,
    EaseInOutQuad,
    EaseInCubic,
    EaseOutCubic,
    EaseInOutCubic,
    EaseInQuart,
    EaseOutQuart,
    EaseInOutQuart,
    EaseInElastic,
    EaseOutElastic,
    EaseInOutElastic,
    EaseInBounce,
    EaseOutBounce,
    EaseInOutBounce,
    EaseInBack,
    EaseOutBack,
    EaseInOutBack,
    EaseInCirc,
    EaseOutCirc,
    EaseInOutCirc,
}

/// `t` clamped into `[0, ONE]`.
pub open spec fn clamp_unit(t: int) -> int {
    if t < 0 {
        0
    } else if t > ONE {
        ONE as int
    } else {
        t
    }
}

pub open spec fn in_quad(t: int) -> int {
    (t * t) / (ONE as int)
}

pub open spec fn out_quad(t: int) -> int {
    (t * (2 * ONE - t)) / (ONE as int)
}

pub open spec fn in_out_quad(t: int) -> int {
    let n = ONE as int;
    if 2 * t < n {
        (2 * t * t) / n
    } else {
        (n * n - 2 * (n - t) * (n - t)) / n
    }
}

pub open spec fn in_cubic(t: int) -> int {
    let n = ONE as int;
    (t * t * t) / (n * n)
}

pub open spec fn out_cubic(t: int) -> int {
    let n = ONE as int;
    (n * n * n - (n - t) * (n - t) * (n - t)) / (n * n)
}

pub open spec fn in_out_cubic(t: int) -> int {
    let n = ONE as int;
    if 2 * t < n {
        (4 * t * t * t) / (n * n)
    } else {
        (n * n * n - 4 * (n - t) * (n - t) * (n - t)) / (n * n)
    }
}

pub open spec fn in_quart(t: int) -> int {
    let n = ONE as int;
    (t * t * t * t) / (n * n * n)
}

pub open spec fn out_quart(t: int) -> int {
    let n = ONE as int;
    (n * n * n * n - (n - t) * (n - t) * (n - t) * (n - t)) / (n * n * n)
}

pub open spec fn in_out_quart(t: int) -> int {
    let n = ONE as int;
    if 2 * t < n {
        (8 * t * t * t * t) / (n * n * n)
    } else {
        (n * n * n * n - 8 * (n - t) * (n - t) * (n - t) * (n - t)) / (n * n * n)
    }
}

/// The out-bounce curve: four parabolic arcs of curvature 7.5625, split at
/// `t = 1/2.75, 2/2.75, 2.5/2.75`, each written over one common denominator.
pub open spec fn out_bounce(t: int) -> int {
    let n = ONE as int;
    if 11 * t < 4 * n {
        (121 * t * t) / (16 * n)
    } else if 11 * t < 8 * n {
        let v = 11 * t - 6 * n;
        (v * v + 12 * n * n) / (16 * n)
    } else if 11 * t < 10 * n {
        let v = 11 * t - 9 * n;
        (v * v + 15 * n * n) / (16 * n)
    } else {
        let v = 22 * t - 21 * n;
        (v * v + 63 * n * n) / (64 * n)
    }
}

/// The in-bounce curve is the out-bounce curve reflected through the centre.
pub open spec fn in_bounce(t: int) -> int {
    ONE - out_bounce(ONE - t)
}

pub open spec fn in_out_bounce(t: int) -> int {
    let n = ONE as int;
    if 2 * t < n {
        in_bounce(2 * t) / 2
    } else {
        (out_bounce(2 * t - n) + n) / 2
    }
}

/// Back curves overshoot by `s = 1.70158` (written `170158 / 100000`); the
/// in-out curve by `s * 1.525 = 2.5949095` (written `259490950 / 100000000`).
pub open spec fn in_back(t: int) -> int {
    let n = ONE as int;
    (t * t * (270158 * t - 170158 * n)) / (100000 * n * n)
}

pub open spec fn out_back(t: int) -> int {
    let n = ONE as int;
    let u = t - n;
    (u * u * (270158 * u + 170158 * n) + 100000 * n * n * n) / (100000 * n * n)
}

pub open spec fn in_out_back(t: int) -> int {
    let n = ONE as int;
    let w = 2 * t;
    if w < n {
        (w * w * (359490950 * w - 259490950 * n)) / (2 * 100000000 * n * n)
    } else {
        let u = w - 2 * n;
        (u * u * (359490950 * u + 259490950 * n) + 2 * 100000000 * n * n * n) / (2
            * 100000000 * n * n)
    }
}

pub open spec fn in_circ(t: int) -> int {
    let n = ONE as int;
    n - isqrt(n * n - t * t)
}

pub open spec fn out_circ(t: int) -> int {
    let n = ONE as int;
    isqrt(n * n - (t - n) * (t - n))
}

pub open spec fn in_out_circ(t: int) -> int {
    let n = ONE as int;
    let w = 2 * t;
    if w < n {
        (n - isqrt(n * n - w * w)) / 2
    } else {
        let u = w - 2 * n;
        (isqrt(n * n - u * u) + n) / 2
    }
}

/// `ONE * 2^(-f / ONE)` for `0 <= f < ONE`, by the quadratic
/// `1 - 0.6565 x + 0.1565 x^2` (exact at `x = 0` and `x = 1`), written out
/// for `ONE = 10000`.
pub open spec fn approx_exp2_frac(f: int) -> int {
    (1000000000000 - 65650000 * f + 1565 * f * f) / 100000000
}

/// `v` halved `k` times, rounding down each time.
pub open spec fn halve_times(v: int, k: nat) -> int
    decreases k,
{
    if k == 0 {
        v
    } else {
        halve_times(v / 2, (k - 1) as nat)
    }
}

/// `ONE * 2^(-x / ONE)` for `x >= 0`.
pub open spec fn approx_exp2_neg(x: int) -> int {
    halve_times(approx_exp2_frac(x % (ONE as int)), (x / (ONE as int)) as nat)
}

/// `ONE * sin(2 pi a / ONE)`: the angle is counted in turns. Each half turn
/// uses Bhaskara's rational approximation, exact at multiples of a quarter
/// turn; written out for `ONE = 10000`.
pub open spec fn approx_sin_turns(a: int) -> int {
    let r = a % 10000;
    let h = if 2 * r < 10000 { r } else { r - 5000 };
    let q = h * (5000 - h);
    let m = (160000 * q) / (125000000 - 4 * q);
    if 2 * r < 10000 { m } else { -m }
}

/// Elastic curves with period `0.3` (`0.45` for in-out) and a quarter-period phase.
pub open spec fn in_elastic(t: int) -> int {
    let n = ONE as int;
    if t == 0 || t == n {
        t
    } else {
        let u = n - t;
        (-(approx_exp2_neg(10 * u) * approx_sin_turns((-40 * u - 3 * n) / 12))) / n
    }
}

pub open spec fn out_elastic(t: int) -> int {
    let n = ONE as int;
    if t == 0 || t == n {
        t
    } else {
        (approx_exp2_neg(10 * t) * approx_sin_turns((40 * t - 3 * n) / 12)) / n + n
    }
}

pub open spec fn in_out_elastic(t: int) -> int {
    let n = ONE as int;
    if t == 0 || t == n {
        t
    } else if 2 * t < n {
        let u = n - 2 * t;
        (-(approx_exp2_neg(10 * u) * approx_sin_turns((-80 * u - 9 * n) / 36))) / (2 * n)
    } else {
        let u = 2 * t - n;
        (approx_exp2_neg(10 * u) * approx_sin_turns((80 * u - 9 * n) / 36)) / (2 * n) + n
    }
}

/// The progress that curve `e` gives at time `t`, for `0 <= t <= ONE`.
pub open spec fn ease(e: Easing, t: int) -> int {
    match e {
        Easing::Linear => t,
        Easing::EaseIn => in_quad(t),
        Easing::EaseOut => out_quad(t),
        Easing::EaseInOut => in_out_quad(t),
        Easing::EaseInQuad => in_quad(t),
        Easing::EaseOutQuad => out_quad(t),
        Easing::EaseInOutQuad => in_out_quad(t),
        Easing::EaseInCubic => in_cubic(t),
        Easing::EaseOutCubic => out_cubic(t),
        Easing::EaseInOutCubic => in_out_cubic(t),
        Easing::EaseInQuart => in_quart(t),
        Easing::EaseOutQuart => out_quart(t),
        Easing::EaseInOutQuart => in_out_quart(t),
        Easing::EaseInElastic => in_elastic(t),
        Easing::EaseOutElastic => out_elastic(t),
        Easing::EaseInOutElastic => in_out_elastic(t),
        Easing::EaseInBounce => in_bounce(t),
        Easing::EaseOutBounce => out_bounce(t),
        Easing::EaseInOutBounce => in_out_bounce(t),
        Easing::EaseInBack => in_back(t),
        Easing::EaseOutBack => out_back(t),
        Easing::EaseInOutBack => in_out_back(t),
        Easing::EaseInCirc => in_circ(t),
        Easing::EaseOutCirc => out_circ(t),
        Easing::EaseInOutCirc => in_out_circ(t),
    }
}

/// What `Easing::apply` returns: the curve at `t` clamped into `[0, ONE]`.
pub open spec fn eased(e: Easing, t: int) -> int {
    ease(e, clamp_unit(t))
}

/// Progress stays within four units of either end.
pub open spec fn progress_bounded(p: int) -> bool {
    -4 * ONE <= p <= 4 * ONE
}

fn in_quad_exec(t: i128) -> (r: i128)
    requires
        0 <= t <= ONE,
    ensures
        r == in_quad(t as int),
        progress_bounded(r as int),
{
    proof {
        lemma_mul_bounds(t as int, t as int, 10000, 10000);
        lemma_div_bounds(t * t, 10000, 40000);
    }
    div_floor(t * t, 10000)
}

fn out_quad_exec(t: i128) -> (r: i128)
    requires
        0 <= t <= ONE,
    ensures
        r == out_quad(t as int),
        progress_bounded(r as int),
{
    let w: i128 = 20000 - t;
    proof {
        lemma_mul_bounds(t as int, w as int, 10000, 20000);
        lemma_div_bounds(t * w, 10000, 40000);
    }
    div_floor(t * w, 10000)
}

fn in_out_quad_exec(t: i128) -> (r: i128)
    requires
        0 <= t <= ONE,
    ensures
        r == in_out_quad(t as int),
        progress_bounded(r as int),
{
    if 2 * t < 10000 {
        proof {
            lemma_mul_bounds(t as int, t as int, 10000, 10000);
            assert(2 * t * t == 2 * (t * t)) by (nonlinear_arith);
            lemma_div_bounds(2 * t * t, 10000, 40000);
        }
        div_floor(2 * t * t, 10000)
    } else {
        let d: i128 = 10000 - t;
        proof {
            lemma_mul_bounds(d as int, d as int, 10000, 10000);
            assert(2 * d * d == 2 * (d * d)) by (nonlinear_arith);
            lemma_div_bounds(100000000 - 2 * d * d, 10000, 40000);
        }
        div_floor(100000000 - 2 * d * d, 10000)
    }
}

/// `x^3`, for `|x| <= 20000`.
fn cube(x: i128) -> (r: i128)
    requires
        -20000 <= x <= 20000,
    ensures
        r == x * x * x,
        -8000000000000 <= r <= 8000000000000,
{
    proof {
        lemma_mul_bounds(x as int, x as int, 20000, 20000);
        lemma_mul_bounds(x * x, x as int, 400000000, 20000);
    }
    x * x * x
}

/// `x^4`, for `|x| <= 20000`.
fn fourth(x: i128) -> (r: i128)
    requires
        -20000 <= x <= 20000,
    ensures
        r == x * x * x * x,
        0 <= r <= 160000000000000000,
{
    proof {
        lemma_mul_bounds(x as int, x as int, 20000, 20000);
        lemma_mul_bounds(x * x, x as int, 400000000, 20000);
        lemma_mul_bounds(x * x * x, x as int, 8000000000000, 20000);
        assert(x * x * x * x == (x * x) * (x * x)) by (nonlinear_arith);
        assert(0 <= (x * x) * (x * x)) by (nonlinear_arith);
    }
    x * x * x * x
}

proof fn lemma_pow_nonneg(x: int)
    requires
        0 <= x <= 10000,
    ensures
        0 <= x * x * x,
        0 <= x * x * x * x,
        x * x * x <= 1000000000000,
        x * x * x * x <= 10000000000000000,
{
    lemma_mul_bounds(x, x, 10000, 10000);
    lemma_mul_bounds(x * x, x, 100000000, 10000);
    lemma_mul_bounds(x * x * x, x, 1000000000000, 10000);
    assert(0 <= x * x * x) by (nonlinear_arith)
        requires
            0 <= x,
    ;
    assert(0 <= x * x * x * x) by (nonlinear_arith)
        requires
            0 <= x,
    ;
}

proof fn lemma_half_pow(x: int)
    requires
        0 <= x <= 5000,
    ensures
        x * x * x <= 125000000000,
        x * x * x * x <= 625000000000000,
{
    lemma_mul_bounds(x, x, 5000, 5000);
    lemma_mul_bounds(x * x, x, 25000000, 5000);
    lemma_mul_bounds(x * x * x, x, 125000000000, 5000);
}

fn in_cubic_exec(t: i128) -> (r: i128)
    requires
        0 <= t <= ONE,
    ensures
        r == in_cubic(t as int),
        progress_bounded(r as int),
{
    proof {
        lemma_pow_nonneg(t as int);
        lemma_div_bounds(t * t * t, 100000000, 40000);
    }
    div_floor(cube(t), 100000000)
}

fn out_cubic_exec(t: i128) -> (r: i128)
    requires
        0 <= t <= ONE,
    ensures
        r == out_cubic(t as int),
        progress_bounded(r as int),
{
    let d: i128 = 10000 - t;
    proof {
        lemma_pow_nonneg(d as int);
        lemma_div_bounds(1000000000000 - d * d * d, 100000000, 40000);
    }
    div_floor(1000000000000 - cube(d), 100000000)
}

fn in_out_cubic_exec(t: i128) -> (r: i128)
    requires
        0 <= t <= ONE,
    ensures
        r == in_out_cubic(t as int),
        progress_bounded(r as int),
{
    if 2 * t < 10000 {
        proof {
            lemma_pow_nonneg(t as int);
            lemma_half_pow(t as int);
            assert(4 * t * t * t == 4 * (t * t * t)) by (nonlinear_arith);
            lemma_div_bounds(4 * t * t * t, 100000000, 40000);
        }
        div_floor(4 * cube(t), 100000000)
    } else {
        let d: i128 = 10000 - t;
        proof {
            lemma_pow_nonneg(d as int);
            lemma_half_pow(d as int);
            assert(4 * d * d * d == 4 * (d * d * d)) by (nonlinear_arith);
            lemma_div_bounds(1000000000000 - 4 * d * d * d, 100000000, 40000);
        }
        div_floor(1000000000000 - 4 * cube(d), 100000000)
    }
}

fn in_quart_exec(t: i128) -> (r: i128)
    requires
        0 <= t <= ONE,
    ensures
        r == in_quart(t as int),
        progress_bounded(r as int),
{
    proof {
        lemma_pow_nonneg(t as int);
        lemma_mul_bounds(t as int, t as int, 10000, 10000);
        lemma_mul_bounds(t * t, t as int, 100000000, 10000);
        lemma_mul_bounds(t * t * t, t as int, 1000000000000, 10000);
        lemma_div_bounds(t * t * t * t, 1000000000000, 40000);
    }
    div_floor(fourth(t), 1000000000000)
}

fn out_quart_exec(t: i128) -> (r: i128)
    requires
        0 <= t <= ONE,
    ensures
        r == out_quart(t as int),
        progress_bounded(r as int),
{
    let d: i128 = 10000 - t;
    proof {
        lemma_pow_nonneg(d as int);
        lemma_mul_bounds(d as int, d as int, 10000, 10000);
        lemma_mul_bounds(d * d, d as int, 100000000, 10000);
        lemma_mul_bounds(d * d * d, d as int, 1000000000000, 10000);
        lemma_div_bounds(10000000000000000 - d * d * d * d, 1000000000000, 40000);
    }
    div_floor(10000000000000000 - fourth(d), 1000000000000)
}

fn in_out_quart_exec(t: i128) -> (r: i128)
    requires
        0 <= t <= ONE,
    ensures
        r == in_out_quart(t as int),
        progress_bounded(r as int),
{
    if 2 * t < 10000 {
        proof {
            lemma_pow_nonneg(t as int);
            lemma_half_pow(t as int);
            assert(8 * t * t * t * t == 8 * (t * t * t * t)) by (nonlinear_arith);
            lemma_div_bounds(8 * t * t * t * t, 1000000000000, 40000);
        }
        div_floor(8 * fourth(t), 1000000000000)
    } else {
        let d: i128 = 10000 - t;
        proof {
            lemma_pow_nonneg(d as int);
            lemma_half_pow(d as int);
            assert(8 * d * d * d * d == 8 * (d * d * d * d)) by (nonlinear_arith);
            lemma_div_bounds(10000000000000000 - 8 * d * d * d * d, 1000000000000, 40000);
        }
        div_floor(10000000000000000 - 8 * fourth(d), 1000000000000)
    }
}

fn out_bounce_exec(t: i128) -> (r: i128)
    requires
        0 <= t <= ONE,
    ensures
        r == out_bounce(t as int),
        -2 * ONE <= r <= 2 * ONE,
{
    if 11 * t < 40000 {
        proof {
            lemma_mul_bounds(t as int, t as int, 4000, 4000);
            assert(121 * t * t == 121 * (t * t)) by (nonlinear_arith);
            lemma_div_bounds(121 * t * t, 160000, 20000);
        }
        div_floor(121 * t * t, 160000)
    } else if 11 * t < 80000 {
        let v: i128 = 11 * t - 60000;
        proof {
            lemma_mul_bounds(v as int, v as int, 20000, 20000);
            lemma_div_bounds(v * v + 1200000000, 160000, 20000);
        }
        div_floor(v * v + 1200000000, 160000)
    } else if 11 * t < 100000 {
        let v: i128 = 11 * t - 90000;
        proof {
            lemma_mul_bounds(v as int, v as int, 10000, 10000);
            lemma_div_bounds(v * v + 1500000000, 160000, 20000);
        }
        div_floor(v * v + 1500000000, 160000)
    } else {
        let v: i128 = 22 * t - 210000;
        proof {
            lemma_mul_bounds(v as int, v as int, 10000, 10000);
            lemma_div_bounds(v * v + 6300000000, 640000, 20000);
        }
        div_floor(v * v + 6300000000, 640000)
    }
}

fn in_bounce_exec(t: i128) -> (r: i128)
    requires
        0 <= t <= ONE,
    ensures
        r == in_bounce(t as int),
        -ONE <= r <= 3 * ONE,
{
    10000 - out_bounce_exec(10000 - t)
}

fn in_out_bounce_exec(t: i128) -> (r: i128)
    requires
        0 <= t <= ONE,
    ensures
        r == in_out_bounce(t as int),
        progress_bounded(r as int),
{
    if 2 * t < 10000 {
        let b = in_bounce_exec(2 * t);
        proof {
            lemma_div_bounds(b as int, 2, 20000);
        }
        div_floor(b, 2)
    } else {
        let b = out_bounce_exec(2 * t - 10000);
        proof {
            lemma_div_bounds(b + 10000, 2, 20000);
        }
        div_floor(b + 10000, 2)
    }
}

fn in_back_exec(t: i128) -> (r: i128)
    requires
        0 <= t <= ONE,
    ensures
        r == in_back(t as int),
        progress_bounded(r as int),
{
    let k: i128 = 270158 * t - 170158 * 10000;
    proof {
        lemma_mul_bounds(t as int, t as int, 10000, 10000);
        lemma_mul_bounds(t * t, k as int, 100000000, 2000000000);
        lemma_div_bounds(t * t * k, 10000000000000, 40000);
    }
    div_floor(t * t * k, 10000000000000)
}

fn out_back_exec(t: i128) -> (r: i128)
    requires
        0 <= t <= ONE,
    ensures
        r == out_back(t as int),
        progress_bounded(r as int),
{
    let u: i128 = t - 10000;
    let k: i128 = 270158 * u + 170158 * 10000;
    proof {
        lemma_mul_bounds(u as int, u as int, 10000, 10000);
        lemma_mul_bounds(u * u, k as int, 100000000, 2000000000);
        lemma_div_bounds(u * u * k + 100000000000000000, 10000000000000, 40000);
    }
    div_floor(u * u * k + 100000000000000000, 10000000000000)
}

fn in_out_back_exec(t: i128) -> (r: i128)
    requires
        0 <= t <= ONE,
    ensures
        r == in_out_back(t as int),
        progress_bounded(r as int),
{
    let w: i128 = 2 * t;
    if w < 10000 {
        let k: i128 = 359490950 * w - 259490950 * 10000;
        proof {
            lemma_mul_bounds(w as int, w as int, 10000, 10000);
            lemma_mul_bounds(w * w, k as int, 100000000, 3000000000000);
            lemma_div_bounds(w * w * k, 20000000000000000, 40000);
        }
        div_floor(w * w * k, 20000000000000000)
    } else {
        let u: i128 = w - 20000;
        let k: i128 = 359490950 * u + 259490950 * 10000;
        proof {
            lemma_mul_bounds(u as int, u as int, 10000, 10000);
            lemma_mul_bounds(u * u, k as int, 100000000, 3000000000000);
            lemma_div_bounds(u * u * k + 200000000000000000000, 20000000000000000, 40000);
        }
        div_floor(u * u * k + 200000000000000000000, 20000000000000000)
    }
}

fn in_circ_exec(t: i128) -> (r: i128)
    requires
        0 <= t <= ONE,
    ensures
        r == in_circ(t as int),
        progress_bounded(r as int),
{
    proof {
        lemma_mul_bounds(t as int, t as int, 10000, 10000);
        assert(0 <= t * t) by (nonlinear_arith);
    }
    let s = isqrt_exec((100000000 - t * t) as i64);
    10000 - s as i128
}

fn out_circ_exec(t: i128) -> (r: i128)
    requires
        0 <= t <= ONE,
    ensures
        r == out_circ(t as int),
        progress_bounded(r as int),
{
    let u: i128 = t - 10000;
    proof {
        lemma_mul_bounds(u as int, u as int, 10000, 10000);
        assert(0 <= u * u) by (nonlinear_arith);
    }
    let s = isqrt_exec((100000000 - u * u) as i64);
    s as i128
}

fn in_out_circ_exec(t: i128) -> (r: i128)
    requires
        0 <= t <= ONE,
    ensures
        r == in_out_circ(t as int),
        progress_bounded(r as int),
{
    let w: i128 = 2 * t;
    if w < 10000 {
        proof {
            lemma_mul_bounds(w as int, w as int, 10000, 10000);
            assert(0 <= w * w) by (nonlinear_arith);
        }
        let s = isqrt_exec((100000000 - w * w) as i64);
        div_floor(10000 - s as i128, 2)
    } else {
        let u: i128 = w - 20000;
        proof {
            lemma_mul_bounds(u as int, u as int, 10000, 10000);
            assert(0 <= u * u) by (nonlinear_arith);
        }
        let s = isqrt_exec((100000000 - u * u) as i64);
        div_floor(s as i128 + 10000, 2)
    }
}

fn approx_exp2_frac_exec(f: i128) -> (r: i128)
    requires
        0 <= f < ONE,
    ensures
        r == approx_exp2_frac(f as int),
        0 <= r <= ONE,
{
    proof {
        lemma_mul_bounds(f as int, f as int, 10000, 10000);
    }
    let ff: i128 = f * f;
    let num: i128 = 1000000000000 - 65650000 * f + 1565 * ff;
    proof {
        assert(1565 * f * f == 1565 * (f * f)) by (nonlinear_arith);
        assert(0 <= num <= 1000000000000) by (nonlinear_arith)
            requires
                0 <= f <= 10000,
                num == 1000000000000 - 65650000 * f + 1565 * (f * f),
        ;
        lemma_div_bounds(num as int, 100000000, 10000);
    }
    div_floor(num, 100000000)
}

fn approx_exp2_neg_exec(x: i128) -> (r: i128)
    requires
        0 <= x <= 10 * ONE,
    ensures
        r == approx_exp2_neg(x as int),
        0 <= r <= ONE,
{
    let k: i128 = div_floor(x, 10000);
    let f: i128 = x - k * 10000;
    proof {
        vstd::arithmetic::div_mod::lemma_fundamental_div_mod(x as int, 10000);
        assert(f == (x as int) % 10000);
    }
    let mut v = approx_exp2_frac_exec(f);
    let mut i: i128 = 0;
    while i < k
        invariant
            0 <= i <= k <= 10,
            0 <= v <= ONE,
            halve_times(v as int, (k - i) as nat) == approx_exp2_neg(x as int),
        decreases k - i,
    {
        v = v / 2;
        i = i + 1;
    }
    v
}

fn approx_sin_turns_exec(a: i128) -> (r: i128)
    requires
        -1000000 <= a <= 1000000,
    ensures
        r == approx_sin_turns(a as int),
        -ONE <= r <= ONE,
{
    let c: i128 = div_floor(a, 10000);
    let rem: i128 = a - c * 10000;
    proof {
        vstd::arithmetic::div_mod::lemma_fundamental_div_mod(a as int, 10000);
        assert(rem == (a as int) % 10000);
    }
    let h: i128 = if 2 * rem < 10000 { rem } else { rem - 5000 };
    proof {
        lemma_mul_bounds(h as int, (5000 - h) as int, 5000, 5000);
        assert(0 <= h * (5000 - h)) by (nonlinear_arith)
            requires
                0 <= h <= 5000,
        ;
        assert(4 * (h * (5000 - h)) <= 25000000) by (nonlinear_arith)
            requires
                0 <= h <= 5000,
        ;
    }
    let q: i128 = h * (5000 - h);
    let den: i128 = 125000000 - 4 * q;
    proof {
        lemma_div_bounds(160000 * q, den as int, 10000);
    }
    let m: i128 = div_floor(160000 * q, den);
    if 2 * rem < 10000 {
        m
    } else {
        -m
    }
}

fn in_elastic_exec(t: i128) -> (r: i128)
    requires
        0 <= t <= ONE,
    ensures
        r == in_elastic(t as int),
        progress_bounded(r as int),
{
    if t == 0 || t == 10000 {
        t
    } else {
        let u: i128 = 10000 - t;
        let e = approx_exp2_neg_exec(10 * u);
        let th = div_floor(-40 * u - 30000, 12);
        let sn = approx_sin_turns_exec(th);
        proof {
            lemma_mul_bounds(e as int, sn as int, 10000, 10000);
            lemma_div_bounds(-(e * sn), 10000, 40000);
        }
        div_floor(-(e * sn), 10000)
    }
}

fn out_elastic_exec(t: i128) -> (r: i128)
    requires
        0 <= t <= ONE,
    ensures
        r == out_elastic(t as int),
        progress_bounded(r as int),
{
    if t == 0 || t == 10000 {
        t
    } else {
        let e = approx_exp2_neg_exec(10 * t);
        let th = div_floor(40 * t - 30000, 12);
        let sn = approx_sin_turns_exec(th);
        proof {
            lemma_mul_bounds(e as int, sn as int, 10000, 10000);
            lemma_div_bounds(e * sn, 10000, 10000);
        }
        div_floor(e * sn, 10000) + 10000
    }
}

fn in_out_elastic_exec(t: i128) -> (r: i128)
    requires
        0 <= t <= ONE,
    ensures
        r == in_out_elastic(t as int),
        progress_bounded(r as int),
{
    if t == 0 || t == 10000 {
        t
    } else if 2 * t < 10000 {
        let u: i128 = 10000 - 2 * t;
        let e = approx_exp2_neg_exec(10 * u);
        let th = div_floor(-80 * u - 90000, 36);
        let sn = approx_sin_turns_exec(th);
        proof {
            lemma_mul_bounds(e as int, sn as int, 10000, 10000);
            lemma_div_bounds(-(e * sn), 20000, 40000);
        }
        div_floor(-(e * sn), 20000)
    } else {
        let u: i128 = 2 * t - 10000;
        let e = approx_exp2_neg_exec(10 * u);
        let th = div_floor(80 * u - 90000, 36);
        let sn = approx_sin_turns_exec(th);
        proof {
            lemma_mul_bounds(e as int, sn as int, 10000, 10000);
            lemma_div_bounds(e * sn, 20000, 10000);
        }
        div_floor(e * sn, 20000) + 10000
    }
}

impl Easing {
    /// The curve's progress at `t`, after clamping `t` into `[0, ONE]`.
    pub fn apply(&self, t: i64) -> (r: i64)
        ensures
            r == eased(*self, t as int),
            progress_bounded(r as int),
    {
        let c: i128 = if t < 0 {
            0
        } else if t > ONE {
            ONE as i128
        } else {
            t as i128
        };
        let r: i128 = match *self {
            Easing::Linear => c,
            Easing::EaseIn => in_quad_exec(c),
            Easing::EaseOut => out_quad_exec(c),
            Easing::EaseInOut => in_out_quad_exec(c),
            Easing::EaseInQuad => in_quad_exec(c),
            Easing::EaseOutQuad => out_quad_exec(c),
            Easing::EaseInOutQuad => in_out_quad_exec(c),
            Easing::EaseInCubic => in_cubic_exec(c),
            Easing::EaseOutCubic => out_cubic_exec(c),
            Easing::EaseInOutCubic => in_out_cubic_exec(c),
            Easing::EaseInQuart => in_quart_exec(c),
            Easing::EaseOutQuart => out_quart_exec(c),
            Easing::EaseInOutQuart => in_out_quart_exec(c),
            Easing::EaseInElastic => in_elastic_exec(c),
            Easing::EaseOutElastic => out_elastic_exec(c),
            Easing::EaseInOutElastic => in_out_elastic_exec(c),
            Easing::EaseInBounce => in_bounce_exec(c),
            Easing::EaseOutBounce => out_bounce_exec(c),
            Easing::EaseInOutBounce => in_out_bounce_exec(c),
            Easing::EaseInBack => in_back_exec(c),
            Easing::EaseOutBack => out_back_exec(c),
            Easing::EaseInOutBack => in_out_back_exec(c),
            Easing::EaseInCirc => in_circ_exec(c),
            Easing::EaseOutCirc => out_circ_exec(c),
            Easing::EaseInOutCirc => in_out_circ_exec(c),
        };
        r as i64
    }
}

/// The largest magnitude of an animatable value's component.
pub const MAX_COMPONENT: i64 = 1000000000000000;

/// A component that interpolation can take without overflow.
pub open spec fn valid_component(v: int) -> bool {
    -MAX_COMPONENT <= v <= MAX_COMPONENT
}

/// `start + (end - start) * p`, with `p` in fixed point, rounded down.
pub open spec fn lerp(start: int, end: int, p: int) -> int {
    start + ((end - start) * p) / (ONE as int)
}

/// Interpolates from `start` to `end` with the progress that `easing` gives at `t`.
pub fn lerp_with_easing(start: i64, end: i64, t: i64, easing: Easing) -> (r: i64)
    requires
        valid_component(start as int),
        valid_component(end as int),
    ensures
        r == lerp(start as int, end as int, eased(easing, t as int)),
{
    let p = easing.apply(t) as i128;
    let d: i128 = end as i128 - start as i128;
    proof {
        lemma_mul_bounds(d as int, p as int, 2000000000000000, 40000);
        lemma_div_bounds(d * p, 10000, 8000000000000000);
    }
    let q = div_floor(d * p, 10000);
    (start as i128 + q) as i64
}

proof fn lemma_div_exact(x: int, d: int, q: int)
    requires
        d > 0,
        x == q * d,
    ensures
        x / d == q,
{
    vstd::arithmetic::div_mod::lemma_fundamental_div_mod_converse(x, d, q, 0);
}

/// Every curve starts at exactly `0` and ends at exactly `ONE`.
pub proof fn lemma_easing_endpoints(e: Easing)
    ensures
        ease(e, 0) == 0,
        ease(e, ONE as int) == ONE,
{
    lemma_isqrt_unique(0, 0);
    lemma_isqrt_unique(100000000, 10000);
    assert(in_quad(0) == 0 && in_quad(10000) == 10000);
    assert(out_quad(0) == 0 && out_quad(10000) == 10000);
    assert(in_out_quad(0) == 0 && in_out_quad(10000) == 10000);
    assert(in_cubic(0) == 0 && in_cubic(10000) == 10000);
    assert(out_cubic(0) == 0 && out_cubic(10000) == 10000);
    assert(in_out_cubic(0) == 0 && in_out_cubic(10000) == 10000);
    assert(in_quart(0) == 0 && in_quart(10000) == 10000);
    assert(out_quart(0) == 0 && out_quart(10000) == 10000);
    assert(in_out_quart(0) == 0 && in_out_quart(10000) == 10000);
    assert(out_bounce(0) == 0);
    lemma_div_exact(6400000000, 640000, 10000);
    assert(out_bounce(10000) == 10000);
    assert(in_bounce(0) == 0 && in_bounce(10000) == 10000);
    assert(in_out_bounce(0) == 0 && in_out_bounce(10000) == 10000);
    assert(in_back(0) == 0);
    lemma_div_exact(100000000000000000, 10000000000000, 10000);
    assert(in_back(10000) == 10000);
    let n = ONE as int;
    assert(n == 10000);
    let u = 0 - n;
    assert(u * u == 100000000);
    assert(n * n * n == 1000000000000);
    assert(u * u * (270158 * u + 170158 * n) + 100000 * n * n * n == 0);
    assert(100000 * n * n == 10000000000000);
    lemma_div_exact(0, 10000000000000, 0);
    assert(out_back(0) == 0);
    lemma_div_exact(100000000000000000, 10000000000000, 10000);
    assert(out_back(10000) == 10000);
    assert(in_out_back(0) == 0);
    assert(2 * 100000000 * n * n == 20000000000000000);
    assert(0 * 0 * (359490950 * 0 + 259490950 * n) + 2 * 100000000 * n * n * n == 200000000000000000000) by (nonlinear_arith)
        requires
            n == 10000,
    ;
    lemma_div_exact(200000000000000000000, 20000000000000000, 10000);
    assert(in_out_back(10000) == 10000);
    assert(in_circ(0) == 0 && in_circ(10000) == 10000);
    assert(out_circ(0) == 0 && out_circ(10000) == 10000);
    assert(in_out_circ(0) == 0 && in_out_circ(10000) == 10000);
}

/// The in-bounce curve is the out-bounce curve reflected: `in(t) = ONE - out(ONE - t)`.
pub proof fn lemma_bounce_reflection(t: int)
    requires
        0 <= t <= ONE,
    ensures
        ease(Easing::EaseInBounce, t) == ONE - ease(Easing::EaseOutBounce, ONE - t),
{
}

} // verus!
