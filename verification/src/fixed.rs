//! Fixed-point arithmetic for the simulation.
//!
//! Lengths are counted in thousandths of a world unit, velocities in
//! thousandths of a unit per second, angles in thousandths of a radian and
//! durations in nanoseconds. Measured quantities are 32-bit, angular velocities
//! 64-bit; what is computed from them is carried in 128 bits, which no formula
//! of the simulation can overflow.
use vstd::prelude::*;

verus! {

/// Thousandths in one world unit.
pub const UNIT: i32 = 1000;

/// Nanoseconds in one second.
pub const NANOS_PER_SECOND: u64 = 1_000_000_000;

/// A measured planar quantity: a position, an offset, a velocity or a direction.
#[derive(Clone, Copy, Debug, PartialEq, Eq, Structural)]
pub struct Vec2 {
    pub x: i32,
    pub y: i32,
}

/// A computed planar quantity: a commanded velocity or a force.
#[derive(Clone, Copy, Debug, PartialEq, Eq, Structural)]
pub struct WideVec2 {
    pub x: i128,
    pub y: i128,
}

/// A spatial direction or offset, as the camera sees it.
#[derive(Clone, Copy, Debug, PartialEq, Eq, Structural)]
pub struct Vec3 {
    pub x: i32,
    pub y: i32,
    pub z: i32,
}

/// The mathematical pair that a planar quantity stands for.
pub type Plane = (int, int);

impl Vec2 {
    /// The origin; as a velocity, rest.
    pub fn zero() -> (v: Vec2)
        ensures
            v == (Vec2 { x: 0, y: 0 }),
    {
        Vec2 { x: 0, y: 0 }
    }

    /// The pair of integers that this quantity stands for.
    pub open spec fn plane(self) -> Plane {
        (self.x as int, self.y as int)
    }

    /// The quantity with the given parts, in thousandths.
    pub fn new(x: i32, y: i32) -> (v: Vec2)
        ensures
            v == (Vec2 { x, y }),
    {
        Vec2 { x, y }
    }
}

impl WideVec2 {
    /// No velocity, and no force.
    pub fn zero() -> (v: WideVec2)
        ensures
            v == (WideVec2 { x: 0, y: 0 }),
    {
        WideVec2 { x: 0, y: 0 }
    }

    /// The pair of integers that this quantity stands for.
    pub open spec fn plane(self) -> Plane {
        (self.x as int, self.y as int)
    }
}

/// The quotient of `a` by a positive `b`, rounded toward zero.
pub open spec fn div_toward_zero(a: int, b: int) -> int
    recommends
        b > 0,
{
    if a >= 0 {
        a / b
    } else {
        -((-a) / b)
    }
}

/// The absolute value.
pub open spec fn magnitude(a: int) -> int {
    if a >= 0 {
        a
    } else {
        -a
    }
}

/// `r` is the integer square root of `n`.
pub open spec fn is_floor_sqrt(r: int, n: int) -> bool {
    0 <= r && r * r <= n && n < (r + 1) * (r + 1)
}

/// The largest integer whose square does not exceed `n`.
pub open spec fn floor_sqrt(n: int) -> int {
    choose|r: int| is_floor_sqrt(r, n)
}

/// The sum of two planar quantities.
pub open spec fn plane_add(a: Plane, b: Plane) -> Plane {
    (a.0 + b.0, a.1 + b.1)
}

/// The difference of two planar quantities.
pub open spec fn plane_sub(a: Plane, b: Plane) -> Plane {
    (a.0 - b.0, a.1 - b.1)
}

/// The dot product; of thousandths, it counts in millionths.
pub open spec fn dot(a: Plane, b: Plane) -> int {
    a.0 * b.0 + a.1 * b.1
}

/// The square of the length; of thousandths, it counts in millionths.
pub open spec fn length_squared(v: Plane) -> int {
    dot(v, v)
}

/// `v` stretched or shrunk to the length `len`; the zero vector stays zero.
pub open spec fn with_length(v: Plane, len: int) -> Plane {
    let norm = floor_sqrt(length_squared(v));
    if norm == 0 {
        (0, 0)
    } else {
        (div_toward_zero(v.0 * len, norm), div_toward_zero(v.1 * len, norm))
    }
}

/// `v`, shrunk to the length `max` where it is longer.
pub open spec fn clamp_length_max(v: Plane, max: int) -> Plane {
    if length_squared(v) > max * max {
        with_length(v, max)
    } else {
        v
    }
}

/// Squares grow with their argument.
pub proof fn lemma_square_monotonic(a: int, b: int)
    requires
        0 <= a <= b,
    ensures
        a * a <= b * b,
{
    assert(a * a <= b * b) by (nonlinear_arith)
        requires
            0 <= a <= b,
    ;
}

/// An integer square root is unique.
pub proof fn lemma_floor_sqrt_unique(r: int, n: int)
    requires
        is_floor_sqrt(r, n),
    ensures
        floor_sqrt(n) == r,
{
    let s = floor_sqrt(n);
    assert(is_floor_sqrt(s, n));
    if s < r {
        lemma_square_monotonic(s + 1, r);
    }
    if r < s {
        lemma_square_monotonic(r + 1, s);
    }
}

/// The integer square root, by bisection.
pub fn isqrt(n: u128) -> (r: u64)
    ensures
        is_floor_sqrt(r as int, n as int),
        r as int == floor_sqrt(n as int),
{
    let mut lo: u128 = 0;
    let mut hi: u128 = 0x1_0000_0000_0000_0000;
    assert(hi * hi > n) by (nonlinear_arith)
        requires
            hi == 0x1_0000_0000_0000_0000,
            n <= u128::MAX,
    ;
    while hi - lo > 1
        invariant
            lo < hi <= 0x1_0000_0000_0000_0000,
            lo * lo <= n,
            n < hi * hi,
        decreases hi - lo,
    {
        let mid: u128 = lo + (hi - lo) / 2;
        assert(mid * mid <= 0xffff_ffff_ffff_ffff * 0xffff_ffff_ffff_ffff) by (nonlinear_arith)
            requires
                0 <= mid <= 0xffff_ffff_ffff_ffff,
        ;
        if mid * mid <= n {
            lo = mid;
        } else {
            hi = mid;
        }
    }
    proof {
        assert(hi == lo + 1);
        lemma_floor_sqrt_unique(lo as int, n as int);
    }
    lo as u64
}

/// Division of a 128-bit value by a positive one, rounded toward zero.
pub fn divide_toward_zero(a: i128, b: i128) -> (q: i128)
    requires
        b > 0,
    ensures
        q == div_toward_zero(a as int, b as int),
        magnitude(q as int) <= magnitude(a as int),
{
    proof {
        lemma_div_toward_zero_bound(a as int, b as int);
    }
    a / b
}

/// A quotient is no larger than its dividend.
pub proof fn lemma_div_toward_zero_bound(a: int, b: int)
    requires
        b > 0,
    ensures
        magnitude(div_toward_zero(a, b)) <= magnitude(a),
        a >= 0 ==> div_toward_zero(a, b) >= 0,
        a <= 0 ==> div_toward_zero(a, b) <= 0,
{
    let m = magnitude(a);
    assert(0 <= m / b <= m) by (nonlinear_arith)
        requires
            m >= 0,
            b > 0,
    ;
}

} // verus!
