//! Fixed-point arithmetic primitives.
//!
//! A value of `1.0` in the simulated world is the integer `1000` here; the
//! constants below give the scale and the clamping range for genome forces.

use vstd::prelude::*;

verus! {

/// Integer units per simulated unit: quantities are in thousandths.
pub const SCALE: i64 = 1000;

/// Decoded genome forces are clamped to [-2.0, 2.0], i.e. [-2000, 2000].
pub const FORCE_LIMIT: i64 = 2000;

/// Largest `r` with `r * r <= i64::MAX`.
pub const ISQRT_MAX: i64 = 3_037_000_499;

/// A point or displacement in the simulation domain, in milli units.
#[derive(Clone, Copy, Debug, PartialEq, Eq, Structural)]
pub struct Vec3i {
    pub x: i64,
    pub y: i64,
    pub z: i64,
}

/// Absolute value, as a mathematical integer.
pub open spec fn abs_sp(x: int) -> int {
    if x < 0 { -x } else { x }
}

/// Clamp `x` into `[lo, hi]`, as a mathematical integer.
pub open spec fn clamp_sp(x: int, lo: int, hi: int) -> int {
    if x < lo { lo } else if x > hi { hi } else { x }
}

/// Squared Euclidean length of a displacement.
pub open spec fn norm_sq_sp(v: Vec3i) -> int {
    v.x * v.x + v.y * v.y + v.z * v.z
}

/// The integer square root: the largest `r` with `r * r <= x` (0 for negative `x`).
pub open spec fn isqrt_sp(x: int) -> int
    decreases x,
{
    if x < 1 {
        0
    } else {
        let r = isqrt_sp(x - 1);
        if (r + 1) * (r + 1) <= x {
            r + 1
        } else {
            r
        }
    }
}

/// `isqrt_sp(x)` is the (unique) non-negative root bracketing `x`.
pub proof fn lemma_isqrt_bounds(x: int)
    requires
        x >= 0,
    ensures
        0 <= isqrt_sp(x),
        isqrt_sp(x) * isqrt_sp(x) <= x,
        (isqrt_sp(x) + 1) * (isqrt_sp(x) + 1) > x,
    decreases x,
{
    if x >= 1 {
        lemma_isqrt_bounds(x - 1);
        let r = isqrt_sp(x - 1);
        if (r + 1) * (r + 1) <= x {
            assert((r + 1) * (r + 1) > x - 1);
            assert((r + 2) * (r + 2) == (r + 1) * (r + 1) + 2 * (r + 1) + 1) by (nonlinear_arith);
        }
    }
}

/// Any non-negative `r` that brackets `x` is the integer square root of `x`.
pub proof fn lemma_isqrt_unique(x: int, r: int)
    requires
        x >= 0,
        r >= 0,
        r * r <= x,
        (r + 1) * (r + 1) > x,
    ensures
        r == isqrt_sp(x),
{
    lemma_isqrt_bounds(x);
    let s = isqrt_sp(x);
    if r < s {
        lemma_square_monotone(r + 1, s);
        assert(false);
    }
    if s < r {
        lemma_square_monotone(s + 1, r);
        assert(false);
    }
}

/// Squaring is monotone on non-negative integers.
pub proof fn lemma_square_monotone(a: int, b: int)
    requires
        0 <= a <= b,
    ensures
        a * a <= b * b,
{
    assert(a * a <= b * b) by (nonlinear_arith)
        requires 0 <= a <= b;
}

/// Growing a sum of squares cannot shrink the integer square root.
pub proof fn lemma_isqrt_monotone(x: int, y: int)
    requires
        0 <= x <= y,
    ensures
        isqrt_sp(x) <= isqrt_sp(y),
{
    lemma_isqrt_bounds(x);
    lemma_isqrt_bounds(y);
    if isqrt_sp(y) < isqrt_sp(x) {
        lemma_square_monotone(isqrt_sp(y) + 1, isqrt_sp(x));
        assert(false);
    }
}

/// `a * b / d`, rounded toward zero, as Rust's integer division does.
pub open spec fn scaled_sp(a: int, b: int, d: int) -> int {
    let q = abs_sp(a) * abs_sp(b) / d;
    if (a < 0) != (b < 0) { -q } else { q }
}

/// Multiply two milli quantities and divide by a positive scale, rounding
/// toward zero.  The magnitude of the result never exceeds `|a| * |b| / d`.
pub fn scaled_i64(a: i64, b: i64, d: i64) -> (r: i64)
    requires
        d >= 1,
        abs_sp(a as int) <= 3_000_000_000,
        abs_sp(b as int) <= 3_000_000_000,
    ensures
        r == scaled_sp(a as int, b as int, d as int),
        abs_sp(r as int) == abs_sp(a as int) * abs_sp(b as int) / (d as int),
{
    proof {
        assert(abs_sp(a as int) * abs_sp(b as int) <= 3_000_000_000 * 3_000_000_000)
            by (nonlinear_arith)
            requires 0 <= abs_sp(a as int) <= 3_000_000_000, 0 <= abs_sp(b as int) <= 3_000_000_000;
        assert(abs_sp(a as int) * abs_sp(b as int) >= 0) by (nonlinear_arith);
        vstd::arithmetic::div_mod::lemma_div_is_ordered(
            abs_sp(a as int) * abs_sp(b as int), 9_000_000_000_000_000_000, d as int);
        vstd::arithmetic::div_mod::lemma_div_pos_is_pos(
            abs_sp(a as int) * abs_sp(b as int), d as int);
    }
    let n = abs_i64(a) * abs_i64(b);
    let q = n / d;
    if (a < 0) != (b < 0) {
        -q
    } else {
        q
    }
}

/// The magnitude of `scaled_sp(a, b, d)` is at most `m` whenever
/// `|a| <= d` and `|b| <= m`.
pub proof fn lemma_scaled_direction_bound(a: int, b: int, d: int, m: int)
    requires
        d >= 1,
        m >= 0,
        abs_sp(a) <= d,
        abs_sp(b) <= m,
    ensures
        abs_sp(scaled_sp(a, b, d)) <= m,
{
    assert(abs_sp(a) * abs_sp(b) <= d * m) by (nonlinear_arith)
        requires 0 <= abs_sp(a) <= d, 0 <= abs_sp(b) <= m;
    vstd::arithmetic::div_mod::lemma_div_is_ordered(abs_sp(a) * abs_sp(b), d * m, d);
    assert(d * m == m * d) by (nonlinear_arith);
    vstd::arithmetic::div_mod::lemma_div_multiples_vanish(m, d);
    vstd::arithmetic::div_mod::lemma_div_pos_is_pos(abs_sp(a) * abs_sp(b), d);
}

/// A single axis never exceeds the Euclidean length of the displacement.
pub proof fn lemma_axis_le_norm(v: Vec3i)
    ensures
        abs_sp(v.x as int) <= isqrt_sp(norm_sq_sp(v)),
        abs_sp(v.y as int) <= isqrt_sp(norm_sq_sp(v)),
        abs_sp(v.z as int) <= isqrt_sp(norm_sq_sp(v)),
        norm_sq_sp(v) >= 0,
{
    let x = abs_sp(v.x as int);
    let y = abs_sp(v.y as int);
    let z = abs_sp(v.z as int);
    assert(v.x * v.x == x * x) by (nonlinear_arith)
        requires x == v.x as int || x == -(v.x as int);
    assert(v.y * v.y == y * y) by (nonlinear_arith)
        requires y == v.y as int || y == -(v.y as int);
    assert(v.z * v.z == z * z) by (nonlinear_arith)
        requires z == v.z as int || z == -(v.z as int);
    assert(x * x >= 0 && y * y >= 0 && z * z >= 0) by (nonlinear_arith);
    lemma_isqrt_of_square(x);
    lemma_isqrt_of_square(y);
    lemma_isqrt_of_square(z);
    lemma_isqrt_monotone(x * x, norm_sq_sp(v));
    lemma_isqrt_monotone(y * y, norm_sq_sp(v));
    lemma_isqrt_monotone(z * z, norm_sq_sp(v));
}

/// The integer square root of a perfect square.
pub proof fn lemma_isqrt_of_square(x: int)
    requires
        x >= 0,
    ensures
        isqrt_sp(x * x) == x,
{
    assert(x * x >= 0) by (nonlinear_arith);
    assert((x + 1) * (x + 1) > x * x) by (nonlinear_arith)
        requires x >= 0;
    lemma_isqrt_unique(x * x, x);
}

/// A flattened row-major code below `m * m` splits into a row and a column
/// below `m`.
pub proof fn lemma_div_mod_square(k: int, m: int)
    requires
        0 <= k,
        0 < m,
        k < m * m,
    ensures
        0 <= k / m < m,
        0 <= k % m < m,
        k == (k / m) * m + k % m,
{
    vstd::arithmetic::div_mod::lemma_fundamental_div_mod(k, m);
    assert((k / m) * m == m * (k / m)) by (nonlinear_arith);
    assert(k / m < m) by (nonlinear_arith)
        requires
            0 <= k,
            0 < m,
            k < m * m,
            k == m * (k / m) + k % m,
            0 <= k % m < m;
    vstd::arithmetic::div_mod::lemma_div_pos_is_pos(k, m);
}

/// Absolute value of an `i64` that is not `i64::MIN`.
pub fn abs_i64(x: i64) -> (r: i64)
    requires
        x > i64::MIN,
    ensures
        r == abs_sp(x as int),
{
    if x < 0 {
        -x
    } else {
        x
    }
}

/// Clamp an `i64` into `[lo, hi]`.
pub fn clamp_i64(x: i64, lo: i64, hi: i64) -> (r: i64)
    requires
        lo <= hi,
    ensures
        r == clamp_sp(x as int, lo as int, hi as int),
{
    if x < lo {
        lo
    } else if x > hi {
        hi
    } else {
        x
    }
}

/// Integer square root of a non-negative `i64`, by bisection.
pub fn isqrt(x: i64) -> (r: i64)
    requires
        x >= 0,
    ensures
        r == isqrt_sp(x as int),
        0 <= r <= ISQRT_MAX,
        r * r <= x,
{
    proof {
        lemma_isqrt_bounds(x as int);
    }
    if x >= ISQRT_MAX * ISQRT_MAX {
        proof {
            lemma_isqrt_unique(x as int, ISQRT_MAX as int);
        }
        return ISQRT_MAX;
    }
    let mut lo: i64 = 0;
    let mut hi: i64 = ISQRT_MAX;
    while lo < hi
        invariant
            0 <= lo <= hi <= ISQRT_MAX,
            lo * lo <= x,
            (hi + 1) * (hi + 1) > x,
        decreases hi - lo,
    {
        let mid: i64 = lo + (hi - lo + 1) / 2;
        proof {
            lemma_square_monotone(mid as int, ISQRT_MAX as int);
        }
        if mid * mid <= x {
            lo = mid;
        } else {
            hi = mid - 1;
        }
    }
    proof {
        lemma_isqrt_unique(x as int, lo as int);
    }
    lo
}

} // verus!
