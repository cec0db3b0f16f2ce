//! Fixed-point scalars: every time, speed, progress and property component
//! is an `i64` counted in units of `1 / ONE`.
use vstd::prelude::*;

verus! {

/// The fixed-point unit: the value `ONE` stands for `1.0`.
pub const ONE: i64 = 10000;

/// Floor division by a positive divisor.
pub fn div_floor(n: i128, d: i128) -> (r: i128)
    requires
        0 < d <= 0x1000_0000_0000_0000_0000_0000_0000,
        -0x1000_0000_0000_0000_0000_0000_0000 <= n <= 0x1000_0000_0000_0000_0000_0000_0000,
    ensures
        r == n / d,
{
    if n >= 0 {
        let q = n / d;
        proof {
            vstd::arithmetic::div_mod::lemma_fundamental_div_mod(n as int, d as int);
        }
        q
    } else {
        let m: i128 = -n;
        let q = (m + d - 1) / d;
        proof {
            let mi = m as int;
            let di = d as int;
            vstd::arithmetic::div_mod::lemma_fundamental_div_mod(mi + di - 1, di);
            let qi = (mi + di - 1) / di;
            let ri = (mi + di - 1) % di;
            // n = -qi * d + (d - 1 - ri), with 0 <= d - 1 - ri < d
            assert(n as int == (-qi) * di + (di - 1 - ri)) by (nonlinear_arith)
                requires
                    mi + di - 1 == di * qi + ri,
                    n as int == -mi,
            ;
            vstd::arithmetic::div_mod::lemma_fundamental_div_mod_converse(n as int, di, -qi, di - 1 - ri);
        }
        -q
    }
}

/// Bounds on a product from bounds on its factors.
pub proof fn lemma_mul_bounds(a: int, b: int, ma: int, mb: int)
    requires
        -ma <= a <= ma,
        -mb <= b <= mb,
    ensures
        -(ma * mb) <= a * b <= ma * mb,
{
    assert(-(ma * mb) <= a * b <= ma * mb) by (nonlinear_arith)
        requires
            -ma <= a <= ma,
            -mb <= b <= mb,
    ;
}

/// A quotient of a numerator within `m` times the divisor lies within `m`.
pub proof fn lemma_div_bounds(n: int, d: int, m: int)
    requires
        d > 0,
        -(m * d) <= n <= m * d,
    ensures
        -m <= n / d <= m,
{
    vstd::arithmetic::div_mod::lemma_fundamental_div_mod(n, d);
    let q = n / d;
    let r = n % d;
    assert(-m <= q <= m) by (nonlinear_arith)
        requires
            d > 0,
            n == d * q + r,
            0 <= r < d,
            -(m * d) <= n <= m * d,
    ;
}

/// `r` is the integer square root of `n`.
pub open spec fn is_isqrt(n: int, r: int) -> bool {
    0 <= r && r * r <= n < (r + 1) * (r + 1)
}

/// The integer square root of a non-negative `n`: the largest `r` with `r * r <= n`.
pub open spec fn isqrt(n: int) -> int {
    choose|r: int| is_isqrt(n, r)
}

/// At most one integer square root exists, so a root found is the one `isqrt` names.
pub proof fn lemma_isqrt_unique(n: int, r: int)
    requires
        is_isqrt(n, r),
    ensures
        isqrt(n) == r,
{
    let s = isqrt(n);
    assert(is_isqrt(n, s));
    if s < r {
        assert((s + 1) * (s + 1) <= r * r) by (nonlinear_arith)
            requires
                0 <= s,
                s + 1 <= r,
        ;
    } else if r < s {
        assert((r + 1) * (r + 1) <= s * s) by (nonlinear_arith)
            requires
                0 <= r,
                r + 1 <= s,
        ;
    }
}

/// The integer square root of `n`, for `0 <= n <= ONE * ONE`.
pub fn isqrt_exec(n: i64) -> (r: i64)
    requires
        0 <= n <= ONE * ONE,
    ensures
        r == isqrt(n as int),
        0 <= r <= ONE,
{
    let mut lo: i64 = 0;
    let mut hi: i64 = ONE + 1;
    while lo + 1 < hi
        invariant
            0 <= lo < hi <= ONE + 1,
            lo * lo <= n,
            n < hi * hi,
        decreases hi - lo,
    {
        let mid: i64 = lo + (hi - lo) / 2;
        proof {
            lemma_mul_bounds(mid as int, mid as int, 10001, 10001);
            assert(mid * mid <= 10001 * 10001);
        }
        if mid * mid <= n {
            lo = mid;
        } else {
            hi = mid;
        }
    }
    proof {
        lemma_isqrt_unique(n as int, lo as int);
    }
    lo
}

} // verus!
