//! Fixed-point plane geometry: vectors, squared distances, integer square
//! roots, and a rational sine approximation used to rotate headings.
//!
//! One spatial unit is `MILLI` fixed-point steps; all values are plain
//! integers, so every function here has an exact mathematical contract.

use vstd::prelude::*;
use vstd::arithmetic::div_mod::{lemma_div_is_ordered, lemma_div_multiples_vanish};

verus! {

/// Fixed-point scale: 1.0 is represented as 1000.
pub const MILLI: i64 = 1000;

/// Coordinates and velocity components are kept within this bound.
pub const WORLD_LIMIT: i64 = 1_000_000_000;

/// Upper bound on a view range, so squared ranges stay in `i64`.
pub const RANGE_LIMIT: i64 = 2_000_000_000;

/// Longest accepted tick, in milliseconds.
pub const DT_LIMIT: u64 = 3_600_000;

/// A 2D vector in fixed-point coordinates.
#[derive(Clone, Copy, PartialEq, Eq, Structural, Debug)]
pub struct Vec2 {
    pub x: i64,
    pub y: i64,
}

impl Vec2 {
    /// The zero vector.
    pub fn zero() -> (r: Vec2)
        ensures
            r.x == 0 && r.y == 0,
    {
        Vec2 { x: 0, y: 0 }
    }
}

/// Absolute value.
pub open spec fn abs_i(a: int) -> int {
    if a >= 0 {
        a
    } else {
        -a
    }
}

/// Division truncating toward zero (the machine's signed division).
pub open spec fn tdiv(a: int, b: int) -> int
    recommends
        b > 0,
{
    if a >= 0 {
        a / b
    } else {
        -((-a) / b)
    }
}

/// Clamp `a` into `[lo, hi]`.
pub open spec fn clamp_i(a: int, lo: int, hi: int) -> int {
    if a < lo {
        lo
    } else if a > hi {
        hi
    } else {
        a
    }
}

pub open spec fn sq(a: int) -> int {
    a * a
}

/// Both components within the world bound.
pub open spec fn in_world(v: Vec2) -> bool {
    -WORLD_LIMIT <= v.x <= WORLD_LIMIT && -WORLD_LIMIT <= v.y <= WORLD_LIMIT
}

/// Squared distance between two points.
pub open spec fn dist2(a: Vec2, b: Vec2) -> int {
    sq(a.x - b.x) + sq(a.y - b.y)
}

/// `dist2` is within `i64` for in-world points.
pub proof fn lemma_dist2_bound(a: Vec2, b: Vec2)
    requires
        in_world(a),
        in_world(b),
    ensures
        0 <= dist2(a, b) <= 8_000_000_000_000_000_000,
{
    let dx = a.x - b.x;
    let dy = a.y - b.y;
    assert(0 <= dx * dx <= 4_000_000_000_000_000_000) by (nonlinear_arith)
        requires
            -2_000_000_000 <= dx <= 2_000_000_000,
    ;
    assert(0 <= dy * dy <= 4_000_000_000_000_000_000) by (nonlinear_arith)
        requires
            -2_000_000_000 <= dy <= 2_000_000_000,
    ;
}

/// Squared distance, computed exactly.
pub fn dist2_of(a: Vec2, b: Vec2) -> (r: i64)
    requires
        in_world(a),
        in_world(b),
    ensures
        r == dist2(a, b),
        0 <= r <= 8_000_000_000_000_000_000,
{
    let dx: i64 = a.x - b.x;
    let dy: i64 = a.y - b.y;
    proof {
        assert(0 <= dx * dx <= 4_000_000_000_000_000_000) by (nonlinear_arith)
            requires
                -2_000_000_000 <= dx <= 2_000_000_000,
        ;
        assert(0 <= dy * dy <= 4_000_000_000_000_000_000) by (nonlinear_arith)
            requires
                -2_000_000_000 <= dy <= 2_000_000_000,
        ;
    }
    dx * dx + dy * dy
}

/// True when `a` lies strictly within range `r` of `b` (compared on
/// squared distances, which is exact for integer thresholds).
pub open spec fn within_range(a: Vec2, b: Vec2, r: int) -> bool {
    dist2(a, b) < r * r
}

/// Floor of the square root.
pub open spec fn sqrt_floor(n: nat) -> nat
    decreases n,
{
    if n == 0 {
        0
    } else {
        let r = sqrt_floor((n - 1) as nat);
        if (r + 1) * (r + 1) <= n {
            (r + 1) as nat
        } else {
            r
        }
    }
}

/// `sqrt_floor(n)` is the unique `r` with `r^2 <= n < (r+1)^2`.
pub proof fn lemma_sqrt_floor_bounds(n: nat)
    ensures
        sqrt_floor(n) * sqrt_floor(n) <= n,
        n < (sqrt_floor(n) + 1) * (sqrt_floor(n) + 1),
    decreases n,
{
    let s = sqrt_floor(n);
    if n == 0 {
        assert(s == 0);
        assert(n < (s + 1) * (s + 1)) by (nonlinear_arith)
            requires
                n == 0,
                s == 0,
        ;
    } else {
        lemma_sqrt_floor_bounds((n - 1) as nat);
        let r = sqrt_floor((n - 1) as nat);
        assert(r * r <= n - 1 && n - 1 < (r + 1) * (r + 1));
        if (r + 1) * (r + 1) <= n {
            assert(s == r + 1);
            assert(s * s <= n && n < (s + 1) * (s + 1)) by (nonlinear_arith)
                requires
                    s == r + 1,
                    r >= 0,
                    (r + 1) * (r + 1) <= n,
                    n - 1 < (r + 1) * (r + 1),
            ;
        } else {
            assert(s == r);
            assert(s * s <= n && n < (s + 1) * (s + 1)) by (nonlinear_arith)
                requires
                    s == r,
                    r >= 0,
                    r * r <= n - 1,
                    !((r + 1) * (r + 1) <= n),
            ;
        }
    }
}

/// Any `r` with `r^2 <= n < (r+1)^2` equals `sqrt_floor(n)`.
pub proof fn lemma_sqrt_floor_unique(n: nat, r: nat)
    requires
        r * r <= n,
        n < (r + 1) * (r + 1),
    ensures
        r == sqrt_floor(n),
{
    lemma_sqrt_floor_bounds(n);
    let s = sqrt_floor(n);
    if r < s {
        assert((r + 1) * (r + 1) <= s * s) by (nonlinear_arith)
            requires
                r + 1 <= s,
                r >= 0,
        ;
    }
    if s < r {
        assert((s + 1) * (s + 1) <= r * r) by (nonlinear_arith)
            requires
                s + 1 <= r,
                s >= 0,
        ;
    }
}

/// Square roots are monotone.
pub proof fn lemma_sqrt_floor_monotone(m: nat, n: nat)
    requires
        m <= n,
    ensures
        sqrt_floor(m) <= sqrt_floor(n),
{
    lemma_sqrt_floor_bounds(m);
    lemma_sqrt_floor_bounds(n);
    let a = sqrt_floor(m);
    let b = sqrt_floor(n);
    if b < a {
        assert((b + 1) * (b + 1) <= a * a) by (nonlinear_arith)
            requires
                b + 1 <= a,
                b >= 0,
        ;
    }
}

/// Integer square root by binary search.
pub fn isqrt(n: u64) -> (r: u64)
    requires
        n <= 9_000_000_000_000_000_000,
    ensures
        r == sqrt_floor(n as nat),
        r <= 3_000_000_000,
{
    let mut lo: u64 = 0;
    let mut hi: u64 = 3_000_000_001;
    proof {
        assert(3_000_000_001u64 * 3_000_000_001u64 > 9_000_000_000_000_000_000) by (nonlinear_arith);
    }
    while lo + 1 < hi
        invariant
            lo < hi <= 3_000_000_001,
            lo * lo <= n,
            n < hi * hi,
            n <= 9_000_000_000_000_000_000,
        decreases hi - lo,
    {
        let mid: u64 = lo + (hi - lo) / 2;
        proof {
            assert(mid * mid <= 3_000_000_001u64 * 3_000_000_001u64) by (nonlinear_arith)
                requires
                    0 <= mid <= 3_000_000_001,
            ;
        }
        if mid * mid <= n {
            lo = mid;
        } else {
            hi = mid;
        }
    }
    proof {
        lemma_sqrt_floor_unique(n as nat, lo as nat);
    }
    lo
}

/// Rational approximation of sine on `[0, 180]` degrees, scaled by 1000.
pub open spec fn sin_bha(x: int) -> int
    recommends
        0 <= x <= 180,
{
    let p = x * (180 - x);
    (4000 * p) / (40500 - p)
}

/// Sine of an angle in degrees, scaled by 1000, for `[-180, 180]`.
pub open spec fn sin_milli(d: int) -> int
    recommends
        -180 <= d <= 180,
{
    if d >= 0 {
        sin_bha(d)
    } else {
        -sin_bha(-d)
    }
}

/// Cosine of an angle in degrees, scaled by 1000, for `[-180, 180]`.
pub open spec fn cos_milli(d: int) -> int
    recommends
        -180 <= d <= 180,
{
    sin_milli(90 - abs_i(d))
}

/// `sin_bha` stays within `[0, 1000]` on its domain.
pub proof fn lemma_sin_bha_bounds(x: int)
    requires
        0 <= x <= 180,
    ensures
        0 <= sin_bha(x) <= 1000,
{
    let p = x * (180 - x);
    assert(0 <= x * (180 - x) <= 8100) by (nonlinear_arith)
        requires
            0 <= x <= 180,
    ;
    let num = 4000 * p;
    let den = 40500 - p;
    assert(num <= 1000 * den);
    lemma_div_is_ordered(num, 1000 * den, den);
    lemma_div_multiples_vanish(1000, den);
    assert((1000 * den) / den == 1000);
    vstd::arithmetic::div_mod::lemma_div_pos_is_pos(num, den);
}

fn sin_deg_nonneg(x: i64) -> (r: i64)
    requires
        0 <= x <= 180,
    ensures
        r == sin_bha(x as int),
        0 <= r <= 1000,
{
    proof {
        lemma_sin_bha_bounds(x as int);
        assert(0 <= x * (180 - x) <= 8100) by (nonlinear_arith)
            requires
                0 <= x <= 180,
        ;
    }
    let p: u64 = (x as u64) * (180 - x) as u64;
    proof {
        assert(p == (x as int) * (180 - x as int));
    }
    let num: u64 = 4000 * p;
    let den: u64 = 40500 - p;
    let q: u64 = num / den;
    q as i64
}

/// Sine in milli-units for degrees in `[-180, 180]`.
pub fn sin_deg(d: i64) -> (r: i64)
    requires
        -180 <= d <= 180,
    ensures
        r == sin_milli(d as int),
        -1000 <= r <= 1000,
{
    if d >= 0 {
        sin_deg_nonneg(d)
    } else {
        let s = sin_deg_nonneg(-d);
        -s
    }
}

/// Cosine in milli-units for degrees in `[-180, 180]`.
pub fn cos_deg(d: i64) -> (r: i64)
    requires
        -180 <= d <= 180,
    ensures
        r == cos_milli(d as int),
        -1000 <= r <= 1000,
{
    let a: i64 = if d >= 0 {
        d
    } else {
        -d
    };
    sin_deg(90 - a)
}

/// A truncating quotient is bounded by any multiple bound of its divisor:
/// `|a| <= c * b` gives `|tdiv(a, b)| <= c`.
pub proof fn lemma_tdiv_bound(a: int, b: int, c: int)
    requires
        b > 0,
        c >= 0,
        abs_i(a) <= c * b,
    ensures
        abs_i(tdiv(a, b)) <= c,
{
    assert(c * b == b * c) by (nonlinear_arith);
    if a >= 0 {
        lemma_div_is_ordered(a, c * b, b);
        lemma_div_multiples_vanish(c, b);
        vstd::arithmetic::div_mod::lemma_div_pos_is_pos(a, b);
    } else {
        lemma_div_is_ordered(-a, c * b, b);
        lemma_div_multiples_vanish(c, b);
        vstd::arithmetic::div_mod::lemma_div_pos_is_pos(-a, b);
    }
}

/// The floor square root of a perfect square is its root.
pub proof fn lemma_sqrt_of_square(w: int)
    requires
        w >= 0,
    ensures
        sqrt_floor((w * w) as nat) == w,
{
    assert(w * w >= 0 && w * w < (w + 1) * (w + 1)) by (nonlinear_arith)
        requires
            w >= 0,
    ;
    lemma_sqrt_floor_unique((w * w) as nat, w as nat);
}

/// The length used to normalise a vector: the floor square root of the
/// squared magnitude, floored at one to guard the degenerate zero vector.
pub open spec fn norm_len(v: Vec2) -> int {
    let l = sqrt_floor((v.x * v.x + v.y * v.y) as nat) as int;
    if l < 1 {
        1
    } else {
        l
    }
}

/// X component of the unit heading, in milli-units.
pub open spec fn norm_x(v: Vec2) -> int {
    tdiv(v.x * MILLI, norm_len(v))
}

/// Y component of the unit heading, in milli-units.
pub open spec fn norm_y(v: Vec2) -> int {
    tdiv(v.y * MILLI, norm_len(v))
}

/// The normalising length dominates both components.
pub proof fn lemma_norm_len_dominates(v: Vec2)
    requires
        in_world(v),
    ensures
        norm_len(v) >= abs_i(v.x as int) || v.x == 0,
        norm_len(v) >= abs_i(v.y as int) || v.y == 0,
        -MILLI <= norm_x(v) <= MILLI,
        -MILLI <= norm_y(v) <= MILLI,
{
    let n2 = (v.x * v.x + v.y * v.y) as nat;
    assert(v.x * v.x >= 0 && v.y * v.y >= 0) by (nonlinear_arith);
    lemma_sqrt_floor_monotone((v.x * v.x) as nat, n2);
    lemma_sqrt_floor_monotone((v.y * v.y) as nat, n2);
    if v.x >= 0 {
        lemma_sqrt_of_square(v.x as int);
    } else {
        assert((-v.x) * (-v.x) == v.x * v.x) by (nonlinear_arith);
        lemma_sqrt_of_square(-(v.x as int));
    }
    if v.y >= 0 {
        lemma_sqrt_of_square(v.y as int);
    } else {
        assert((-v.y) * (-v.y) == v.y * v.y) by (nonlinear_arith);
        lemma_sqrt_of_square(-(v.y as int));
    }
    assert(abs_i(v.x * MILLI) <= MILLI * norm_len(v)) by (nonlinear_arith)
        requires
            norm_len(v) >= abs_i(v.x as int) || v.x == 0,
            norm_len(v) >= 1,
            MILLI == 1000,
    ;
    assert(abs_i(v.y * MILLI) <= MILLI * norm_len(v)) by (nonlinear_arith)
        requires
            norm_len(v) >= abs_i(v.y as int) || v.y == 0,
            norm_len(v) >= 1,
            MILLI == 1000,
    ;
    lemma_tdiv_bound(v.x * MILLI, norm_len(v), MILLI as int);
    lemma_tdiv_bound(v.y * MILLI, norm_len(v), MILLI as int);
}

/// Unit heading of a vector in milli-units; the zero vector maps to zero.
pub fn normalize(v: Vec2) -> (r: Vec2)
    requires
        in_world(v),
    ensures
        r.x == norm_x(v),
        r.y == norm_y(v),
        -MILLI <= r.x <= MILLI,
        -MILLI <= r.y <= MILLI,
{
    proof {
        lemma_norm_len_dominates(v);
        assert(0 <= v.x * v.x <= 1_000_000_000_000_000_000) by (nonlinear_arith)
            requires
                -WORLD_LIMIT <= v.x <= WORLD_LIMIT,
                WORLD_LIMIT == 1_000_000_000,
        ;
        assert(0 <= v.y * v.y <= 1_000_000_000_000_000_000) by (nonlinear_arith)
            requires
                -WORLD_LIMIT <= v.y <= WORLD_LIMIT,
                WORLD_LIMIT == 1_000_000_000,
        ;
    }
    let n2: i64 = v.x * v.x + v.y * v.y;
    let root: u64 = isqrt(n2 as u64);
    let len: i64 = if root < 1 {
        1
    } else {
        root as i64
    };
    let rx = tdiv_i64(v.x * MILLI, len);
    let ry = tdiv_i64(v.y * MILLI, len);
    Vec2 { x: rx, y: ry }
}

/// X component of a heading rotated by `d` degrees, in milli-units.
pub open spec fn rot_x(v: Vec2, d: int) -> int {
    tdiv(v.x * cos_milli(d) - v.y * sin_milli(d), MILLI as int)
}

/// Y component of a heading rotated by `d` degrees, in milli-units.
pub open spec fn rot_y(v: Vec2, d: int) -> int {
    tdiv(v.x * sin_milli(d) + v.y * cos_milli(d), MILLI as int)
}

/// Rotate a small vector by `d` degrees.
pub fn rotate(v: Vec2, d: i64) -> (r: Vec2)
    requires
        -180 <= d <= 180,
        -2000 <= v.x <= 2000,
        -2000 <= v.y <= 2000,
    ensures
        r.x == rot_x(v, d as int),
        r.y == rot_y(v, d as int),
        -4000 <= r.x <= 4000,
        -4000 <= r.y <= 4000,
{
    let c = cos_deg(d);
    let s = sin_deg(d);
    proof {
        assert(abs_i(v.x * c) <= 2_000_000 && abs_i(v.y * s) <= 2_000_000 && abs_i(v.x * s)
            <= 2_000_000 && abs_i(v.y * c) <= 2_000_000) by (nonlinear_arith)
            requires
                -2000 <= v.x <= 2000,
                -2000 <= v.y <= 2000,
                -1000 <= c <= 1000,
                -1000 <= s <= 1000,
        ;
        lemma_tdiv_bound(v.x * c - v.y * s, MILLI as int, 4000);
        lemma_tdiv_bound(v.x * s + v.y * c, MILLI as int, 4000);
    }
    let rx = tdiv_i64(v.x * c - v.y * s, MILLI);
    let ry = tdiv_i64(v.x * s + v.y * c, MILLI);
    Vec2 { x: rx, y: ry }
}

/// Truncating division of an `i64` by a positive divisor.
pub fn tdiv_i64(a: i64, b: i64) -> (r: i64)
    requires
        b > 0,
        a > i64::MIN,
    ensures
        r == tdiv(a as int, b as int),
        abs_i(r as int) <= abs_i(a as int),
{
    proof {
        if a >= 0 {
            lemma_div_is_ordered(a as int, a as int, b as int);
            vstd::arithmetic::div_mod::lemma_div_pos_is_pos(a as int, b as int);
            vstd::arithmetic::div_mod::lemma_div_nonincreasing(a as int, b as int);
        } else {
            vstd::arithmetic::div_mod::lemma_div_pos_is_pos(-a as int, b as int);
            vstd::arithmetic::div_mod::lemma_div_nonincreasing(-a as int, b as int);
        }
    }
    if a >= 0 {
        ((a as u64) / (b as u64)) as i64
    } else {
        let q: u64 = ((-a) as u64) / (b as u64);
        -(q as i64)
    }
}

/// Truncating division of an `i128` by a positive divisor.
pub fn tdiv_i128(a: i128, b: i128) -> (r: i128)
    requires
        b > 0,
        a > i128::MIN,
    ensures
        r == tdiv(a as int, b as int),
        abs_i(r as int) <= abs_i(a as int),
{
    proof {
        if a >= 0 {
            vstd::arithmetic::div_mod::lemma_div_pos_is_pos(a as int, b as int);
            vstd::arithmetic::div_mod::lemma_div_nonincreasing(a as int, b as int);
        } else {
            vstd::arithmetic::div_mod::lemma_div_pos_is_pos(-a as int, b as int);
            vstd::arithmetic::div_mod::lemma_div_nonincreasing(-a as int, b as int);
        }
    }
    if a >= 0 {
        ((a as u128) / (b as u128)) as i128
    } else {
        let q: u128 = ((-a) as u128) / (b as u128);
        -(q as i128)
    }
}

/// Clamp an `i128` into the symmetric `i64` interval `[-bound, bound]`.
pub fn clamp128(a: i128, bound: i64) -> (r: i64)
    requires
        bound > 0,
    ensures
        r as int == clamp_i(a as int, -(bound as int), bound as int),
{
    if a < -(bound as i128) {
        -bound
    } else if a > bound as i128 {
        bound
    } else {
        a as i64
    }
}

} // verus!
