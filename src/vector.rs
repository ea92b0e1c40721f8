//! Two-dimensional integer vectors.
//!
//! Every length in the engine is a whole number of thousandths of a pixel, so a
//! vector holds two `i64` components. Positions stay inside a square world of
//! half-side `WORLD_LIMIT`; all arithmetic that could leave it saturates at its edge.
use vstd::prelude::*;
use crate::roots::{ceil_root, ceil_root_below};

verus! {

/// Number of engine units in one pixel.
pub const UNITS_PER_PIXEL: i64 = 1000;

/// Largest absolute value of a coordinate, a speed, a force or a shape size.
pub const WORLD_LIMIT: i64 = 1_073_741_824;

/// `v` clamped into `[-WORLD_LIMIT, WORLD_LIMIT]`.
pub open spec fn clamp(v: int) -> int {
    if v > WORLD_LIMIT {
        WORLD_LIMIT as int
    } else if v < -WORLD_LIMIT {
        -WORLD_LIMIT
    } else {
        v
    }
}

/// Whether `v` lies in `[-WORLD_LIMIT, WORLD_LIMIT]`.
pub open spec fn in_world(v: int) -> bool {
    -WORLD_LIMIT <= v <= WORLD_LIMIT
}

/// `a + b`, clamped into the world.
pub fn clamped_add(a: i64, b: i64) -> (r: i64)
    ensures
        r == clamp(a + b),
        in_world(r as int),
{
    let s = a as i128 + b as i128;
    if s > WORLD_LIMIT as i128 {
        WORLD_LIMIT
    } else if s < -WORLD_LIMIT as i128 {
        -WORLD_LIMIT
    } else {
        s as i64
    }
}

/// `a * k`, clamped into the world.
fn clamped_product(a: i64, k: i64) -> (r: i64)
    requires
        in_world(a as int),
    ensures
        r == clamp(a * k),
{
    assert(-0x8000_0000_0000_0000_0000_0000 <= a * k <= 0x8000_0000_0000_0000_0000_0000)
        by (nonlinear_arith)
        requires
            in_world(a as int),
            -0x8000_0000_0000_0000 <= k <= 0x7fff_ffff_ffff_ffff,
    ;
    let m = (a as i128) * (k as i128);
    if m > WORLD_LIMIT as i128 {
        WORLD_LIMIT
    } else if m < -WORLD_LIMIT as i128 {
        -WORLD_LIMIT
    } else {
        m as i64
    }
}

/// `a / k` rounded toward zero.
fn quotient(a: i64, k: i64) -> (r: i64)
    requires
        in_world(a as int),
        k != 0,
    ensures
        r == quot(a as int, k as int),
        in_world(r as int),
{
    let aa: i128 = if a < 0 {
        -(a as i128)
    } else {
        a as i128
    };
    let ak: i128 = if k < 0 {
        -(k as i128)
    } else {
        k as i128
    };
    let q = aa / ak;
    assert(0 <= q <= aa) by (nonlinear_arith)
        requires
            q == aa / ak,
            aa >= 0,
            ak >= 1,
    ;
    if (a < 0) == (k < 0) {
        q as i64
    } else {
        -(q as i64)
    }
}

#[derive(Clone, Copy, Debug, PartialEq, Eq, Structural, Default)]
pub struct Vec2 {
    pub x: i64,
    pub y: i64,
}

impl View for Vec2 {
    type V = (int, int);

    open spec fn view(&self) -> (int, int) {
        (self.x as int, self.y as int)
    }
}

/// The view of an optional vector.
pub open spec fn opt_view(o: Option<Vec2>) -> Option<(int, int)> {
    match o {
        Some(v) => Some(v@),
        None => None,
    }
}

/// The pair of plain integers `v`, as a `Vec2`.
pub open spec fn to_vec(v: (int, int)) -> Vec2 {
    Vec2 { x: v.0 as i64, y: v.1 as i64 }
}

/// `a / b` rounded toward zero, for `b != 0`.
pub open spec fn quot(a: int, b: int) -> int {
    let q = (if a < 0 { -a } else { a }) / (if b < 0 { -b } else { b });
    if (a < 0) == (b < 0) {
        q
    } else {
        -q
    }
}

/// Componentwise sum, clamped into the world.
pub open spec fn clamp_add(a: (int, int), b: (int, int)) -> (int, int) {
    (clamp(a.0 + b.0), clamp(a.1 + b.1))
}

impl From<(i64, i64)> for Vec2 {
    /// The vector `(val.0, val.1)`.
    fn from(val: (i64, i64)) -> (r: Vec2) {
        Vec2 { x: val.0, y: val.1 }
    }
}

impl vstd::std_specs::convert::FromSpecImpl<(i64, i64)> for Vec2 {
    open spec fn obeys_from_spec() -> bool {
        true
    }

    open spec fn from_spec(val: (i64, i64)) -> Vec2 {
        Vec2 { x: val.0, y: val.1 }
    }
}

impl Vec2 {
    /// Both components lie inside the world.
    pub open spec fn in_world(&self) -> bool {
        in_world(self.x as int) && in_world(self.y as int)
    }

    pub fn new(x: i64, y: i64) -> (r: Vec2)
        ensures
            r.x == x,
            r.y == y,
    {
        Vec2 { x, y }
    }

    pub fn x(&self) -> (r: &i64)
        ensures
            *r == self.x,
    {
        &self.x
    }

    pub fn y(&self) -> (r: &i64)
        ensures
            *r == self.y,
    {
        &self.y
    }

    /// The squared length `x * x + y * y`.
    pub fn amplitude_squared(&self) -> (r: u128)
        ensures
            r == self.x * self.x + self.y * self.y,
    {
        let x = self.x as i128;
        let y = self.y as i128;
        assert(x * x <= 0x4000_0000_0000_0000_0000_0000_0000_0000) by (nonlinear_arith)
            requires
                -0x8000_0000_0000_0000 <= x <= 0x7fff_ffff_ffff_ffff,
        ;
        assert(y * y <= 0x4000_0000_0000_0000_0000_0000_0000_0000) by (nonlinear_arith)
            requires
                -0x8000_0000_0000_0000 <= y <= 0x7fff_ffff_ffff_ffff,
        ;
        assert(x * x >= 0 && y * y >= 0) by (nonlinear_arith);
        let xx = (x * x) as u128;
        let yy = (y * y) as u128;
        xx + yy
    }

    /// The length, rounded up: the least `r` with `r * r >= x * x + y * y`.
    pub fn module(&self) -> (r: u64)
        requires
            self.in_world(),
        ensures
            r == ceil_root(self.x * self.x + self.y * self.y, 1),
    {
        let a = self.amplitude_squared();
        assert(a <= 0x8000_0000 * 0x8000_0000) by (nonlinear_arith)
            requires
                a == self.x * self.x + self.y * self.y,
                in_world(self.x as int),
                in_world(self.y as int),
        ;
        ceil_root_below(a, 1, 0x8000_0000)
    }

    /// The components as a pair.
    pub fn break_self(self) -> (r: (i64, i64))
        ensures
            r == (self.x, self.y),
    {
        (self.x, self.y)
    }

    /// Componentwise sum, clamped into the world.
    pub fn plus(self, other: Vec2) -> (r: Vec2)
        requires
            self.in_world(),
            other.in_world(),
        ensures
            r@ == clamp_add(self@, other@),
            r.in_world(),
    {
        Vec2 { x: clamped_add(self.x, other.x), y: clamped_add(self.y, other.y) }
    }

    /// Componentwise difference, clamped into the world.
    pub fn minus(self, other: Vec2) -> (r: Vec2)
        requires
            self.in_world(),
            other.in_world(),
        ensures
            r@ == (clamp(self.x - other.x), clamp(self.y - other.y)),
            r.in_world(),
    {
        Vec2 { x: clamped_add(self.x, -other.x), y: clamped_add(self.y, -other.y) }
    }

    /// The vector times `k`, clamped into the world.
    pub fn scaled(self, k: i64) -> (r: Vec2)
        requires
            self.in_world(),
        ensures
            r@ == (clamp(self.x * k), clamp(self.y * k)),
            r.in_world(),
    {
        Vec2 { x: clamped_product(self.x, k), y: clamped_product(self.y, k) }
    }

    /// The vector divided by `k`, each component rounded toward zero.
    pub fn divided(self, k: i64) -> (r: Vec2)
        requires
            self.in_world(),
            k != 0,
        ensures
            r@ == (quot(self.x as int, k as int), quot(self.y as int, k as int)),
            r.in_world(),
    {
        Vec2 { x: quotient(self.x, k), y: quotient(self.y, k) }
    }

    /// The opposite vector.
    pub fn neg(self) -> (r: Vec2)
        requires
            self.in_world(),
        ensures
            r@ == (-self@.0, -self@.1),
            r.in_world(),
    {
        Vec2 { x: -self.x, y: -self.y }
    }
}

} // verus!
