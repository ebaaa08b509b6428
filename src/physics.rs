//! Fixed-point vector arithmetic for particle motion.
//!
//! Positions and velocities are integers in ten-thousandths of a grid cell.
use vstd::prelude::*;

verus! {

/// Fixed-point units per grid cell.
pub const SCALE: i64 = 10000;

/// Half a grid cell, in fixed-point units.
pub const HALF_CELL: i64 = 5000;

/// Floor of `n / SCALE`.
pub open spec fn floor_cells(n: int) -> int {
    n / (SCALE as int)
}

/// Reflection of `v` off a surface with unit normal `n`: `v - 2 (v . n) n`.
pub open spec fn reflect(v: (int, int), n: (int, int)) -> (int, int) {
    let d = v.0 * n.0 + v.1 * n.1;
    (v.0 - 2 * d * n.0, v.1 - 2 * d * n.1)
}

/// `n` is one of the four axis-aligned unit normals.
pub open spec fn is_axis_normal(n: (int, int)) -> bool {
    (n.0 == 0 && (n.1 == 1 || n.1 == -1)) || (n.1 == 0 && (n.0 == 1 || n.0 == -1))
}

/// Squared magnitude of a vector.
pub open spec fn norm2(v: (int, int)) -> int {
    v.0 * v.0 + v.1 * v.1
}

/// `r` is the integer square root of `n`.
pub open spec fn is_isqrt(n: int, r: int) -> bool {
    0 <= r && r * r <= n < (r + 1) * (r + 1)
}

/// The integer square root of `n` (for `n >= 0`).
pub open spec fn isqrt_spec(n: int) -> int {
    choose|r: int| #[trigger] is_isqrt(n, r)
}

/// Cosine, in fixed point, of the angle whose fixed-point sine is `s`.
pub open spec fn cos_of(s: int) -> int {
    isqrt_spec(SCALE * SCALE - s * s)
}

/// Rotation of `v` by the angle with fixed-point cosine `c` and sine `s`,
/// rounded down to fixed-point units.
pub open spec fn rotate(v: (int, int), c: int, s: int) -> (int, int) {
    (floor_cells(v.0 * c - v.1 * s), floor_cells(v.0 * s + v.1 * c))
}

/// Rotation of `v` by the small angle with fixed-point sine `s`.
pub open spec fn turn(v: (int, int), s: int) -> (int, int) {
    rotate(v, cos_of(s), s)
}

/// `x` held inside `[lo, hi]`.
pub open spec fn clamp(x: int, lo: int, hi: int) -> int {
    if x < lo {
        lo
    } else if x > hi {
        hi
    } else {
        x
    }
}

/// Reflection keeps the magnitude of a vector: `|v'| == |v|` for every
/// axis-aligned unit normal.
pub proof fn lemma_reflect_preserves_norm(v: (int, int), n: (int, int))
    requires
        is_axis_normal(n),
    ensures
        norm2(reflect(v, n)) == norm2(v),
        reflect(v, n) == (if n.0 == 0 { (v.0, -v.1) } else { (-v.0, v.1) }),
{
    if n.0 == 0 {
        assert(n.1 * n.1 == 1) by (nonlinear_arith)
            requires n.1 == 1 || n.1 == -1;
        assert(reflect(v, n) == (v.0, -v.1)) by (nonlinear_arith)
            requires n.0 == 0, n.1 * n.1 == 1;
        assert(norm2((v.0, -v.1)) == norm2(v)) by (nonlinear_arith);
    } else {
        assert(n.0 * n.0 == 1) by (nonlinear_arith)
            requires n.0 == 1 || n.0 == -1;
        assert(reflect(v, n) == (-v.0, v.1)) by (nonlinear_arith)
            requires n.1 == 0, n.0 * n.0 == 1;
        assert(norm2((-v.0, v.1)) == norm2(v)) by (nonlinear_arith);
    }
}

/// The integer square root is unique.
pub proof fn lemma_isqrt_unique(n: int, r: int)
    requires
        is_isqrt(n, r),
    ensures
        isqrt_spec(n) == r,
{
    let q = isqrt_spec(n);
    assert(is_isqrt(n, q));
    if q < r {
        assert((q + 1) * (q + 1) <= r * r) by (nonlinear_arith)
            requires 0 <= q < r;
    } else if q > r {
        assert((r + 1) * (r + 1) <= q * q) by (nonlinear_arith)
            requires 0 <= r < q;
    }
}

/// Integer square root, by bisection.
pub fn isqrt(n: u64) -> (r: u64)
    ensures
        is_isqrt(n as int, r as int),
        isqrt_spec(n as int) == r,
{
    let mut lo: u64 = 0;
    let mut hi: u64 = 0x1_0000_0000;
    assert(n < hi * hi) by (nonlinear_arith)
        requires n <= 0xffff_ffff_ffff_ffffu64, hi == 0x1_0000_0000u64;
    while hi - lo > 1
        invariant
            lo < hi <= 0x1_0000_0000,
            lo * lo <= n < hi * hi,
        decreases hi - lo,
    {
        let mid = lo + (hi - lo) / 2;
        assert(mid * mid <= 0xffff_ffff_ffff_ffffu64 + 1) by (nonlinear_arith)
            requires mid < 0x1_0000_0000u64;
        if mid <= n / mid {
            assert(mid * mid <= n) by (nonlinear_arith)
                requires mid > 0, mid <= n / mid;
            lo = mid;
        } else {
            assert(n < mid * mid) by (nonlinear_arith)
                requires mid > 0, mid > n / mid;
            hi = mid;
        }
    }
    assert(hi == lo + 1);
    proof {
        lemma_isqrt_unique(n as int, lo as int);
    }
    lo
}

/// `floor(n / SCALE)` for a signed `n`.
pub fn floor_div_scale(n: i64) -> (r: i64)
    ensures
        r as int == floor_cells(n as int),
{
    if n >= 0 {
        let q = (n as u64) / (SCALE as u64);
        q as i64
    } else {
        let m: i64 = -(n + 1);
        let q = (m as u64) / (SCALE as u64);
        assert(floor_cells(n as int) == -(q as int) - 1) by (nonlinear_arith)
            requires n < 0, m == -(n + 1), q == m / 10000;
        -(q as i64) - 1
    }
}

/// Largest velocity component magnitude that the exec helpers accept.
pub const VELOCITY_LIMIT: i64 = 1_000_000;

/// A small turn grows no component by more than a thousand units.
pub proof fn lemma_turn_bound(v: (int, int), s: int, b: int)
    requires
        0 <= b <= 8000,
        -b <= v.0 <= b,
        -b <= v.1 <= b,
        -998 <= s <= 998,
    ensures
        -(b + 1000) <= turn(v, s).0 <= b + 1000,
        -(b + 1000) <= turn(v, s).1 <= b + 1000,
{
    let n = SCALE * SCALE - s * s;
    assert(0 <= n <= SCALE * SCALE) by (nonlinear_arith)
        requires -998 <= s <= 998, n == SCALE * SCALE - s * s;
    let c = cos_of(s);
    assert(exists|r: int| #[trigger] is_isqrt(n, r)) by {
        lemma_isqrt_exists(n);
    }
    assert(is_isqrt(n, c));
    assert(0 <= c <= SCALE) by (nonlinear_arith)
        requires 0 <= c, c * c <= n, n <= SCALE * SCALE;
    let p = v.0 * c - v.1 * s;
    let q = v.0 * s + v.1 * c;
    assert(-b * 10998 <= p <= b * 10998) by (nonlinear_arith)
        requires -b <= v.0 <= b, -b <= v.1 <= b, 0 <= c <= 10000, -998 <= s <= 998, p == v.0 * c - v.1 * s, b >= 0;
    assert(-b * 10998 <= q <= b * 10998) by (nonlinear_arith)
        requires -b <= v.0 <= b, -b <= v.1 <= b, 0 <= c <= 10000, -998 <= s <= 998, q == v.0 * s + v.1 * c, b >= 0;
    assert(-(b + 1000) <= p / 10000 <= b + 1000) by (nonlinear_arith)
        requires -b * 10998 <= p <= b * 10998, 0 <= b <= 8000;
    assert(-(b + 1000) <= q / 10000 <= b + 1000) by (nonlinear_arith)
        requires -b * 10998 <= q <= b * 10998, 0 <= b <= 8000;
}

/// A turn by at most 30 degrees keeps components bounded by 3000 under 4501.
pub proof fn lemma_heading_bound(v: (int, int), s: int)
    requires
        -3000 <= v.0 <= 3000,
        -3000 <= v.1 <= 3000,
        -5000 <= s <= 5000,
    ensures
        -4501 <= turn(v, s).0 <= 4501,
        -4501 <= turn(v, s).1 <= 4501,
{
    let n = SCALE * SCALE - s * s;
    assert(0 <= n <= SCALE * SCALE) by (nonlinear_arith)
        requires -5000 <= s <= 5000, n == SCALE * SCALE - s * s;
    let c = cos_of(s);
    lemma_isqrt_exists(n);
    assert(is_isqrt(n, c));
    assert(0 <= c <= SCALE) by (nonlinear_arith)
        requires 0 <= c, c * c <= n, n <= SCALE * SCALE;
    let p = v.0 * c - v.1 * s;
    let q = v.0 * s + v.1 * c;
    assert(-45000000 <= p <= 45000000) by (nonlinear_arith)
        requires -3000 <= v.0 <= 3000, -3000 <= v.1 <= 3000, 0 <= c <= 10000, -5000 <= s <= 5000, p == v.0 * c - v.1 * s;
    assert(-45000000 <= q <= 45000000) by (nonlinear_arith)
        requires -3000 <= v.0 <= 3000, -3000 <= v.1 <= 3000, 0 <= c <= 10000, -5000 <= s <= 5000, q == v.0 * s + v.1 * c;
}

/// Every non-negative integer has an integer square root.
pub proof fn lemma_isqrt_exists(n: int)
    requires
        0 <= n,
    ensures
        exists|r: int| #[trigger] is_isqrt(n, r),
    decreases n,
{
    if n == 0 {
        assert(is_isqrt(0, 0));
    } else {
        lemma_isqrt_exists(n - 1);
        let r = choose|r: int| #[trigger] is_isqrt(n - 1, r);
        if (r + 1) * (r + 1) == n {
            assert((r + 2) * (r + 2) > n) by (nonlinear_arith)
                requires (r + 1) * (r + 1) == n, r >= 0;
            assert(is_isqrt(n, r + 1));
        } else {
            assert(is_isqrt(n, r));
        }
    }
}

/// Exec form of `reflect`.
pub fn reflect_velocity(dx: i64, dy: i64, nx: i64, ny: i64) -> (r: (i64, i64))
    requires
        is_axis_normal((nx as int, ny as int)),
        -VELOCITY_LIMIT <= dx <= VELOCITY_LIMIT,
        -VELOCITY_LIMIT <= dy <= VELOCITY_LIMIT,
    ensures
        (r.0 as int, r.1 as int) == reflect((dx as int, dy as int), (nx as int, ny as int)),
        nx == 0 ==> r.0 == dx && r.1 == -dy,
        nx != 0 ==> r.0 == -dx && r.1 == dy,
        -VELOCITY_LIMIT <= r.0 <= VELOCITY_LIMIT,
        -VELOCITY_LIMIT <= r.1 <= VELOCITY_LIMIT,
{
    proof {
        lemma_reflect_preserves_norm((dx as int, dy as int), (nx as int, ny as int));
    }
    if nx == 0 {
        (dx, -dy)
    } else {
        (-dx, dy)
    }
}

/// Exec form of `turn`: rotates `(dx, dy)` by the small angle whose
/// fixed-point sine is `s`, keeping the speed up to rounding.
pub fn turn_velocity(dx: i64, dy: i64, s: i64) -> (r: (i64, i64))
    requires
        -VELOCITY_LIMIT <= dx <= VELOCITY_LIMIT,
        -VELOCITY_LIMIT <= dy <= VELOCITY_LIMIT,
        -SCALE <= s <= SCALE,
    ensures
        (r.0 as int, r.1 as int) == turn((dx as int, dy as int), s as int),
{
    assert(0 <= SCALE * SCALE - s * s <= SCALE * SCALE) by (nonlinear_arith)
        requires -SCALE <= s <= SCALE;
    let c = isqrt((SCALE * SCALE - s * s) as u64);
    assert(c <= SCALE) by (nonlinear_arith)
        requires c * c <= SCALE * SCALE, c >= 0;
    let c = c as i64;
    assert(-VELOCITY_LIMIT * SCALE * 2 <= dx * c - dy * s <= VELOCITY_LIMIT * SCALE * 2) by (nonlinear_arith)
        requires -VELOCITY_LIMIT <= dx <= VELOCITY_LIMIT, -VELOCITY_LIMIT <= dy <= VELOCITY_LIMIT,
            -SCALE <= s <= SCALE, 0 <= c <= SCALE;
    assert(-VELOCITY_LIMIT * SCALE * 2 <= dx * s + dy * c <= VELOCITY_LIMIT * SCALE * 2) by (nonlinear_arith)
        requires -VELOCITY_LIMIT <= dx <= VELOCITY_LIMIT, -VELOCITY_LIMIT <= dy <= VELOCITY_LIMIT,
            -SCALE <= s <= SCALE, 0 <= c <= SCALE;
    assert(-VELOCITY_LIMIT * SCALE <= dx * c <= VELOCITY_LIMIT * SCALE) by (nonlinear_arith)
        requires -VELOCITY_LIMIT <= dx <= VELOCITY_LIMIT, 0 <= c <= SCALE;
    assert(-VELOCITY_LIMIT * SCALE <= dy * c <= VELOCITY_LIMIT * SCALE) by (nonlinear_arith)
        requires -VELOCITY_LIMIT <= dy <= VELOCITY_LIMIT, 0 <= c <= SCALE;
    assert(-VELOCITY_LIMIT * SCALE <= dx * s <= VELOCITY_LIMIT * SCALE) by (nonlinear_arith)
        requires -VELOCITY_LIMIT <= dx <= VELOCITY_LIMIT, -SCALE <= s <= SCALE;
    assert(-VELOCITY_LIMIT * SCALE <= dy * s <= VELOCITY_LIMIT * SCALE) by (nonlinear_arith)
        requires -VELOCITY_LIMIT <= dy <= VELOCITY_LIMIT, -SCALE <= s <= SCALE;
    let rx = floor_div_scale(dx * c - dy * s);
    let ry = floor_div_scale(dx * s + dy * c);
    (rx, ry)
}

/// Exec form of `clamp`.
pub fn clamp_i64(x: i64, lo: i64, hi: i64) -> (r: i64)
    requires
        lo <= hi,
    ensures
        r as int == clamp(x as int, lo as int, hi as int),
        lo <= r <= hi,
{
    if x < lo {
        lo
    } else if x > hi {
        hi
    } else {
        x
    }
}

} // verus!
