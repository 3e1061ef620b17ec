use vstd::prelude::*;

verus! {

/// How many fixed-point steps make up one whole: one canvas pixel, a zoom
/// factor of one, or full pen pressure.
pub const UNIT: i32 = 1000;

/// A 2D point in screen or canvas space, in thousandths of a pixel.
#[derive(Clone, Copy, Debug, PartialEq, Eq, Structural)]
pub struct Point {
    pub x: i32,
    pub y: i32,
}

/// The value of `v` held to the range of an `i32`.
pub open spec fn clamp_i32(v: int) -> int {
    if v < i32::MIN {
        i32::MIN as int
    } else if v > i32::MAX {
        i32::MAX as int
    } else {
        v
    }
}

/// The whole pixel that the fixed-point coordinate `v` falls on, rounding
/// toward zero.
pub open spec fn pixel_of(v: int) -> int {
    div_toward_zero(v, UNIT as int)
}

/// Computes [`pixel_of`].
pub fn to_pixel(v: i32) -> (p: i32)
    ensures
        p == pixel_of(v as int),
{
    proof {
        lemma_div_toward_zero(v as int, UNIT as int);
    }
    divide_toward_zero(v as i64, UNIT as i64) as i32
}

/// The quotient of `a` by a positive `b`, rounded toward zero.
pub open spec fn div_toward_zero(a: int, b: int) -> int {
    if a >= 0 {
        a / b
    } else {
        -((-a) / b)
    }
}

/// A quotient rounded toward zero is off the exact quotient by less than
/// one, is no larger in magnitude than the dividend, and has its sign.
pub proof fn lemma_div_toward_zero(a: int, b: int)
    requires
        0 < b,
    ensures
        abs(b * div_toward_zero(a, b) - a) < b,
        abs(div_toward_zero(a, b)) <= abs(a),
        a >= 0 ==> div_toward_zero(a, b) >= 0,
        a <= 0 ==> div_toward_zero(a, b) <= 0,
{
    let m = abs(a);
    vstd::arithmetic::div_mod::lemma_fundamental_div_mod(m, b);
    vstd::arithmetic::div_mod::lemma_mod_bound(m, b);
    assert(0 <= m / b <= m && b * (m / b) <= m < b * (m / b) + b) by (nonlinear_arith)
        requires
            m == b * (m / b) + m % b,
            0 <= m % b < b,
            0 < b,
            0 <= m,
    ;
    assert(b * (-(m / b)) == -(b * (m / b))) by (nonlinear_arith);
}

/// Computes [`div_toward_zero`].
pub fn divide_toward_zero(a: i64, b: i64) -> (q: i64)
    requires
        0 < b,
    ensures
        q == div_toward_zero(a as int, b as int),
{
    proof {
        lemma_div_toward_zero(a as int, b as int);
    }
    if a >= 0 {
        a / b
    } else {
        let magnitude: i128 = -(a as i128);
        let q: i128 = magnitude / (b as i128);
        (-q) as i64
    }
}

/// Computes [`clamp_i32`].
pub fn to_i32_clamped(v: i64) -> (c: i32)
    ensures
        c == clamp_i32(v as int),
{
    if v < i32::MIN as i64 {
        i32::MIN
    } else if v > i32::MAX as i64 {
        i32::MAX
    } else {
        v as i32
    }
}

/// The integer square root: the largest `r` with `r * r <= n`.
pub open spec fn floor_sqrt(n: nat) -> nat
    decreases n,
{
    if n == 0 {
        0
    } else {
        let r = floor_sqrt((n - 1) as nat);
        if (r + 1) * (r + 1) <= n {
            r + 1
        } else {
            r
        }
    }
}

/// `floor_sqrt(n)` squared does not exceed `n`, and the next square does.
pub proof fn lemma_floor_sqrt_bounds(n: nat)
    ensures
        floor_sqrt(n) * floor_sqrt(n) <= n < (floor_sqrt(n) + 1) * (floor_sqrt(n) + 1),
    decreases n,
{
    if n > 0 {
        let r = floor_sqrt((n - 1) as nat);
        lemma_floor_sqrt_bounds((n - 1) as nat);
        let s = floor_sqrt(n);
        assert(s * s <= n < (s + 1) * (s + 1)) by (nonlinear_arith)
            requires
                r * r <= n - 1 < (r + 1) * (r + 1),
                s == (if (r + 1) * (r + 1) <= n {
                    r + 1
                } else {
                    r
                }),
        ;
    } else {
        let s = floor_sqrt(n);
        assert(s * s <= 0 < (s + 1) * (s + 1)) by (nonlinear_arith)
            requires
                s == 0,
        ;
    }
}

/// Squaring keeps the order of natural numbers.
pub proof fn lemma_square_monotone(a: int, b: int)
    requires
        0 <= a <= b,
    ensures
        a * a <= b * b,
{
    assert(a * a <= b * b) by (nonlinear_arith)
        requires
            0 <= a <= b,
    ;
}

/// Only one number lies between the bounds of `lemma_floor_sqrt_bounds`.
pub proof fn lemma_floor_sqrt_unique(n: nat, r: nat)
    requires
        r * r <= n < (r + 1) * (r + 1),
    ensures
        r == floor_sqrt(n),
{
    let s = floor_sqrt(n);
    lemma_floor_sqrt_bounds(n);
    if r < s {
        lemma_square_monotone((r + 1) as int, s as int);
    } else if s < r {
        lemma_square_monotone((s + 1) as int, r as int);
    }
}

/// Computes [`floor_sqrt`] by bisection.
pub fn isqrt(n: u128) -> (r: u64)
    ensures
        r == floor_sqrt(n as nat),
{
    let mut lo: u128 = 0;
    let mut hi: u128 = 0x1_0000_0000_0000_0000;
    assert(hi * hi > n) by (nonlinear_arith)
        requires
            hi == 0x1_0000_0000_0000_0000,
            n <= u128::MAX,
    ;
    while hi - lo > 1
        invariant
            lo < hi <= 0x1_0000_0000_0000_0000,
            lo * lo <= n < hi * hi,
        decreases hi - lo,
    {
        let mid: u128 = lo + (hi - lo) / 2;
        assert(0 <= mid * mid <= u128::MAX) by (nonlinear_arith)
            requires
                0 <= mid <= 0xffff_ffff_ffff_ffff,
        ;
        if mid * mid <= n {
            lo = mid;
        } else {
            hi = mid;
        }
    }
    proof {
        lemma_floor_sqrt_unique(n as nat, lo as nat);
    }
    lo as u64
}

/// The distance between two points, rounded down to a whole step.
pub open spec fn spec_distance(a: Point, b: Point) -> nat {
    floor_sqrt(((b.x - a.x) * (b.x - a.x) + (b.y - a.y) * (b.y - a.y)) as nat)
}

/// The absolute value.
pub open spec fn abs(v: int) -> int {
    if v < 0 {
        -v
    } else {
        v
    }
}

/// Neither coordinate of two points differs by more than their distance.
pub proof fn lemma_distance_bounds_axes(a: Point, b: Point)
    ensures
        abs(b.x - a.x) <= spec_distance(a, b),
        abs(b.y - a.y) <= spec_distance(a, b),
        spec_distance(a, b) <= abs(b.x - a.x) + abs(b.y - a.y),
{
    let dx = abs(b.x - a.x);
    let dy = abs(b.y - a.y);
    let n = ((b.x - a.x) * (b.x - a.x) + (b.y - a.y) * (b.y - a.y)) as nat;
    let d = floor_sqrt(n) as int;
    lemma_floor_sqrt_bounds(n);
    assert(0 <= dx * dx && 0 <= dy * dy) by (nonlinear_arith);
    assert((b.x - a.x) * (b.x - a.x) == dx * dx && (b.y - a.y) * (b.y - a.y) == dy * dy)
        by (nonlinear_arith)
        requires
            dx == abs(b.x - a.x),
            dy == abs(b.y - a.y),
    ;
    if dx > d {
        lemma_square_monotone(d + 1, dx);
    }
    if dy > d {
        lemma_square_monotone(d + 1, dy);
    }
    if d > dx + dy {
        lemma_square_monotone(dx + dy, d);
        assert((dx + dy) * (dx + dy) >= dx * dx + dy * dy) by (nonlinear_arith)
            requires
                dx >= 0,
                dy >= 0,
        ;
        lemma_square_monotone(dx + dy + 1, d);
        assert((dx + dy + 1) * (dx + dy + 1) > (dx + dy) * (dx + dy)) by (nonlinear_arith)
            requires
                dx >= 0,
                dy >= 0,
        ;
    }
}

/// The absolute difference of two coordinates.
pub fn abs_diff(a: i32, b: i32) -> (d: u64)
    ensures
        d == abs(b - a),
        d <= 0xffff_ffff,
{
    if b >= a {
        (b as i64 - a as i64) as u64
    } else {
        (a as i64 - b as i64) as u64
    }
}

impl Point {
    pub fn new(x: i32, y: i32) -> (p: Point)
        ensures
            p == (Point { x, y }),
    {
        Point { x, y }
    }

    /// The distance to `other`, rounded down to a whole step.
    pub fn distance(self, other: Point) -> (d: u64)
        ensures
            d == spec_distance(self, other),
            d <= 0x1_ffff_fffe,
    {
        let dx: u128 = abs_diff(self.x, other.x) as u128;
        let dy: u128 = abs_diff(self.y, other.y) as u128;
        assert(0 <= dx * dx <= 0xffff_ffff * 0xffff_ffff && 0 <= dy * dy <= 0xffff_ffff
            * 0xffff_ffff) by (nonlinear_arith)
            requires
                0 <= dx <= 0xffff_ffff,
                0 <= dy <= 0xffff_ffff,
        ;
        assert(dx * dx + dy * dy == (other.x - self.x) * (other.x - self.x) + (other.y - self.y)
            * (other.y - self.y)) by (nonlinear_arith)
            requires
                dx == abs(other.x - self.x),
                dy == abs(other.y - self.y),
        ;
        proof {
            lemma_distance_bounds_axes(self, other);
        }
        isqrt(dx * dx + dy * dy)
    }

    /// Componentwise difference; a component that leaves the range of an
    /// `i32` stops at the nearest end of it.
    pub fn sub(self, rhs: Point) -> (d: Point)
        ensures
            d.x == clamp_i32(self.x - rhs.x),
            d.y == clamp_i32(self.y - rhs.y),
    {
        Point {
            x: to_i32_clamped(self.x as i64 - rhs.x as i64),
            y: to_i32_clamped(self.y as i64 - rhs.y as i64),
        }
    }
}

/// An axis-aligned rectangle: the on-screen placement of the canvas widget.
#[derive(Clone, Copy, Debug, PartialEq, Eq, Structural)]
pub struct Rectangle {
    pub x: i32,
    pub y: i32,
    pub width: i32,
    pub height: i32,
}

impl Rectangle {
    /// Half-open containment: the left and top edges belong to the rectangle,
    /// the right and bottom edges do not.
    pub open spec fn spec_contains(self, point: Point) -> bool {
        &&& self.x <= point.x
        &&& point.x < self.x + self.width
        &&& self.y <= point.y
        &&& point.y < self.y + self.height
    }

    pub fn contains(&self, point: Point) -> (inside: bool)
        ensures
            inside == self.spec_contains(point),
    {
        self.x <= point.x && (point.x as i64) < (self.x as i64) + (self.width as i64)
            && self.y <= point.y && (point.y as i64) < (self.y as i64) + (self.height as i64)
    }
}

} // verus!
