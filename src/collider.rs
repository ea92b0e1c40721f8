//! Collision shapes and the narrow-phase test between two of them.
//!
//! `collide_with` yields the minimum translation vector (MTV): the displacement
//! to add to the first shape's position so that the two no longer overlap.
//! Rectangles are axis-aligned and given by full width and height; their edges
//! may fall on half units, so rectangle geometry is computed on doubled
//! coordinates and every push is rounded away from zero, which always separates.
use vstd::prelude::*;
use crate::roots::{
    away_root, away_root_exec, ceil_root, half_away, half_away_exec, is_ceil_root, lemma_ceil_root,
    lemma_ceil_root_unique, lemma_ceil_root_zero,
};
use crate::vector::{opt_view, to_vec, Vec2, WORLD_LIMIT};

verus! {

#[derive(Clone, Copy, Debug, PartialEq, Eq, Structural)]
pub enum ColliderType {
    /// A circle of the given radius.
    Circle(i64),
    /// An axis-aligned rectangle of the given width and height.
    Rect(i64, i64),
    /// No shape: collides with nothing.
    Empty,
}

/// A size that the geometry accepts.
pub open spec fn valid_size(s: int) -> bool {
    0 <= s <= WORLD_LIMIT
}

pub open spec fn abs(v: int) -> int {
    if v < 0 {
        -v
    } else {
        v
    }
}

/// Of `a` and `b`, the one of smaller magnitude; `b` on a tie.
pub open spec fn min_abs(a: int, b: int) -> int {
    if abs(a) < abs(b) {
        a
    } else {
        b
    }
}

pub open spec fn neg_opt(o: Option<(int, int)>) -> Option<(int, int)> {
    match o {
        Some(v) => Some((-v.0, -v.1)),
        None => None,
    }
}

/// The squared length of `(x, y)`.
pub open spec fn norm2(x: int, y: int) -> int {
    x * x + y * y
}

/// Two circles of radii `r1`, `r2` centred at `p1`, `p2`: they overlap when the
/// squared distance between the centres is below `(r1 + r2)^2`. The MTV then moves
/// the first centre along the centre line to distance `r1 + r2` from the second.
/// Coincident centres give no direction, and the zero vector is returned.
pub open spec fn circle_circle(r1: int, r2: int, p1: (int, int), p2: (int, int)) -> Option<
    (int, int),
> {
    let dx = p2.0 - p1.0;
    let dy = p2.1 - p1.1;
    let dist2 = norm2(dx, dy);
    let rad = r1 + r2;
    if rad * rad > dist2 {
        if dist2 == 0 {
            Some((0, 0))
        } else {
            Some((dx - away_root(dx, rad, dist2), dy - away_root(dy, rad, dist2)))
        }
    } else {
        None
    }
}

/// Two rectangles, the first of width `w1` and height `h1` centred at `p1`, the
/// second of `w2` by `h2` at `p2`. Their edges are taken in doubled coordinates.
/// They overlap when their interiors meet along both axes; the MTV then moves the
/// first one out along the axis of smaller penetration, to the nearer side of the
/// second one (along y on a tie).
///
/// This is an overlap test of the boxes, not a test of their corners: two boxes
/// of equal height side by side, or two boxes crossing like a plus sign, have no
/// corner strictly inside the other and yet overlap. Two 2 by 2 boxes 1.5 apart
/// along x overlap by 0.5 and are pushed apart by that much. For the same reason
/// the whole box is pushed clear of the other, where a corner test would only
/// bring one corner to an edge.
pub open spec fn rect_rect(w1: int, h1: int, w2: int, h2: int, p1: (int, int), p2: (int, int)) -> Option<
    (int, int),
> {
    let (ax0, ax1, ay0, ay1) = (2 * p1.0 - w1, 2 * p1.0 + w1, 2 * p1.1 - h1, 2 * p1.1 + h1);
    let (bx0, bx1, by0, by1) = (2 * p2.0 - w2, 2 * p2.0 + w2, 2 * p2.1 - h2, 2 * p2.1 + h2);
    if ax0 < bx1 && bx0 < ax1 && ay0 < by1 && by0 < ay1 {
        let px = min_abs(bx0 - ax1, bx1 - ax0);
        let py = min_abs(by0 - ay1, by1 - ay0);
        if abs(px) < abs(py) {
            Some((half_away(px), 0))
        } else {
            Some((0, half_away(py)))
        }
    } else {
        None
    }
}

/// A point of a box at doubled coordinates `(cx, cy)` against a circle of radius
/// `r` whose doubled centre is `(ox, oy)`: when the point is inside the circle,
/// the push moves it onto the circle along the ray from the centre. A point at
/// the very centre gives no direction, and the zero vector is returned.
pub open spec fn point_in_circle(cx: int, cy: int, ox: int, oy: int, r: int) -> Option<(int, int)> {
    let dx = cx - ox;
    let dy = cy - oy;
    let n2 = norm2(dx, dy);
    if n2 < 4 * (r * r) {
        if n2 == 0 {
            Some((0, 0))
        } else {
            Some(
                (
                    half_away(2 * away_root(dx, r, n2) - dx),
                    half_away(2 * away_root(dy, r, n2) - dy),
                ),
            )
        }
    } else {
        None
    }
}

/// `a` if it is present, else `b`.
pub open spec fn first_of(a: Option<(int, int)>, b: Option<(int, int)>) -> Option<(int, int)> {
    match a {
        Some(v) => Some(v),
        None => b,
    }
}

/// A rectangle of width `w` and height `h` at `p1` against a circle of radius `r`
/// at `p2`: the push of the first corner of the rectangle, in the order
/// bottom-left, top-left, bottom-right, top-right, that lies inside the circle.
/// A rectangle with no corner inside the circle does not collide with it.
pub open spec fn rect_circle(w: int, h: int, r: int, p1: (int, int), p2: (int, int)) -> Option<
    (int, int),
> {
    let (x0, x1, y0, y1) = (2 * p1.0 - w, 2 * p1.0 + w, 2 * p1.1 - h, 2 * p1.1 + h);
    let (ox, oy) = (2 * p2.0, 2 * p2.1);
    first_of(
        point_in_circle(x0, y0, ox, oy, r),
        first_of(
            point_in_circle(x0, y1, ox, oy, r),
            first_of(point_in_circle(x1, y0, ox, oy, r), point_in_circle(x1, y1, ox, oy, r)),
        ),
    )
}

/// The MTV for shape `s1` at `p1` against shape `s2` at `p2`, if they overlap.
pub open spec fn collide(s1: ColliderType, s2: ColliderType, p1: (int, int), p2: (int, int)) -> Option<
    (int, int),
> {
    match (s1, s2) {
        (ColliderType::Circle(r1), ColliderType::Circle(r2)) => circle_circle(
            r1 as int,
            r2 as int,
            p1,
            p2,
        ),
        (ColliderType::Rect(w1, h1), ColliderType::Rect(w2, h2)) => rect_rect(
            w1 as int,
            h1 as int,
            w2 as int,
            h2 as int,
            p1,
            p2,
        ),
        (ColliderType::Rect(w, h), ColliderType::Circle(r)) => rect_circle(
            w as int,
            h as int,
            r as int,
            p1,
            p2,
        ),
        (ColliderType::Circle(r), ColliderType::Rect(w, h)) => neg_opt(
            rect_circle(w as int, h as int, r as int, p2, p1),
        ),
        _ => None,
    }
}

/// `collide` on the engine's vector type.
pub open spec fn collide_vec(s1: ColliderType, s2: ColliderType, p1: Vec2, p2: Vec2) -> Option<Vec2> {
    match collide(s1, s2, p1@, p2@) {
        Some(v) => Some(to_vec(v)),
        None => None,
    }
}

/// Doubled coordinates of a box edge or corner.
spec fn doubled(v: int) -> bool {
    -0x1_0000_0000 <= v <= 0x1_0000_0000
}

fn square(v: i64) -> (r: i128)
    requires
        -0x4_0000_0000 <= v <= 0x4_0000_0000,
    ensures
        r == v * v,
        0 <= r <= 0x10_0000_0000_0000_0000,
{
    assert(0 <= v * v <= 0x10_0000_0000_0000_0000) by (nonlinear_arith)
        requires
            -0x4_0000_0000 <= v <= 0x4_0000_0000,
    ;
    (v as i128) * (v as i128)
}

/// A vector both of whose components lie in `[-bound, bound]`.
spec fn opt_bounded(o: Option<Vec2>, bound: int) -> bool {
    match o {
        Some(v) => -bound <= v.x <= bound && -bound <= v.y <= bound,
        None => true,
    }
}

fn min_abs_exec(a: i64, b: i64) -> (r: i64)
    requires
        -0x2_0000_0000 <= a <= 0x2_0000_0000,
        -0x2_0000_0000 <= b <= 0x2_0000_0000,
    ensures
        r == min_abs(a as int, b as int),
{
    let aa = if a < 0 {
        -a
    } else {
        a
    };
    let ab = if b < 0 {
        -b
    } else {
        b
    };
    if aa < ab {
        a
    } else {
        b
    }
}

fn rect_rect_exec(w1: i64, h1: i64, w2: i64, h2: i64, p1: Vec2, p2: Vec2) -> (res: Option<Vec2>)
    requires
        valid_size(w1 as int),
        valid_size(h1 as int),
        valid_size(w2 as int),
        valid_size(h2 as int),
        p1.in_world(),
        p2.in_world(),
    ensures
        opt_view(res) == rect_rect(w1 as int, h1 as int, w2 as int, h2 as int, p1@, p2@),
{
    let (ax0, ax1, ay0, ay1) = (2 * p1.x - w1, 2 * p1.x + w1, 2 * p1.y - h1, 2 * p1.y + h1);
    let (bx0, bx1, by0, by1) = (2 * p2.x - w2, 2 * p2.x + w2, 2 * p2.y - h2, 2 * p2.y + h2);
    if ax0 < bx1 && bx0 < ax1 && ay0 < by1 && by0 < ay1 {
        let px = min_abs_exec(bx0 - ax1, bx1 - ax0);
        let py = min_abs_exec(by0 - ay1, by1 - ay0);
        let apx = if px < 0 {
            -px
        } else {
            px
        };
        let apy = if py < 0 {
            -py
        } else {
            py
        };
        if apx < apy {
            Some(Vec2 { x: half_away_exec(px), y: 0 })
        } else {
            Some(Vec2 { x: 0, y: half_away_exec(py) })
        }
    } else {
        None
    }
}

fn point_in_circle_exec(cx: i64, cy: i64, ox: i64, oy: i64, r: i64) -> (res: Option<Vec2>)
    requires
        doubled(cx as int),
        doubled(cy as int),
        doubled(ox as int),
        doubled(oy as int),
        valid_size(r as int),
    ensures
        opt_view(res) == point_in_circle(cx as int, cy as int, ox as int, oy as int, r as int),
        opt_bounded(res, 0x1_0000_0000),
{
    let dx = cx - ox;
    let dy = cy - oy;
    let n2 = square(dx) + square(dy);
    let rr = square(r);
    assert(rr <= 0x1000_0000_0000_0000) by (nonlinear_arith)
        requires
            rr == r * r,
            valid_size(r as int),
    ;
    if n2 < 4 * rr {
        if n2 == 0 {
            Some(Vec2 { x: 0, y: 0 })
        } else {
            assert(dx * dx <= n2 && dy * dy <= n2) by (nonlinear_arith)
                requires
                    n2 == dx * dx + dy * dy,
            ;
            let sx = away_root_exec(dx, r, n2 as u128);
            let sy = away_root_exec(dy, r, n2 as u128);
            assert(-2 * r < dx < 2 * r && -2 * r < dy < 2 * r) by (nonlinear_arith)
                requires
                    n2 == dx * dx + dy * dy,
                    n2 < 4 * (r * r),
                    r >= 0,
            ;
            Some(Vec2 { x: half_away_exec(2 * sx - dx), y: half_away_exec(2 * sy - dy) })
        }
    } else {
        None
    }
}

fn rect_circle_exec(w: i64, h: i64, r: i64, p1: Vec2, p2: Vec2) -> (res: Option<Vec2>)
    requires
        valid_size(w as int),
        valid_size(h as int),
        valid_size(r as int),
        p1.in_world(),
        p2.in_world(),
    ensures
        opt_view(res) == rect_circle(w as int, h as int, r as int, p1@, p2@),
        opt_bounded(res, 0x1_0000_0000),
{
    let x0 = 2 * p1.x - w;
    let x1 = 2 * p1.x + w;
    let y0 = 2 * p1.y - h;
    let y1 = 2 * p1.y + h;
    let ox = 2 * p2.x;
    let oy = 2 * p2.y;
    let c = point_in_circle_exec(x0, y0, ox, oy, r);
    if c.is_some() {
        return c;
    }
    let c = point_in_circle_exec(x0, y1, ox, oy, r);
    if c.is_some() {
        return c;
    }
    let c = point_in_circle_exec(x1, y0, ox, oy, r);
    if c.is_some() {
        return c;
    }
    point_in_circle_exec(x1, y1, ox, oy, r)
}

fn circle_circle_exec(r1: i64, r2: i64, p1: Vec2, p2: Vec2) -> (res: Option<Vec2>)
    requires
        valid_size(r1 as int),
        valid_size(r2 as int),
        p1.in_world(),
        p2.in_world(),
    ensures
        opt_view(res) == circle_circle(r1 as int, r2 as int, p1@, p2@),
{
    let dx = p2.x - p1.x;
    let dy = p2.y - p1.y;
    let dist2 = square(dx) + square(dy);
    let rad = r1 + r2;
    let rad2 = square(rad);
    assert(rad2 <= 0x4000_0000_0000_0000) by (nonlinear_arith)
        requires
            rad2 == rad * rad,
            0 <= rad <= 2 * WORLD_LIMIT,
    ;
    if rad2 > dist2 {
        if dist2 == 0 {
            Some(Vec2 { x: 0, y: 0 })
        } else {
            assert(dx * dx <= dist2 && dy * dy <= dist2) by (nonlinear_arith)
                requires
                    dist2 == dx * dx + dy * dy,
            ;
            let sx = away_root_exec(dx, rad, dist2 as u128);
            let sy = away_root_exec(dy, rad, dist2 as u128);
            Some(Vec2 { x: dx - sx, y: dy - sy })
        }
    } else {
        None
    }
}

impl ColliderType {
    /// All sizes lie in `[0, WORLD_LIMIT]`.
    pub open spec fn wf(&self) -> bool {
        match *self {
            ColliderType::Circle(r) => valid_size(r as int),
            ColliderType::Rect(w, h) => valid_size(w as int) && valid_size(h as int),
            ColliderType::Empty => true,
        }
    }

    /// The MTV that separates `self` at `p1` from `other` at `p2`, or `None` when
    /// they do not overlap.
    pub fn collide_with(&self, other: &ColliderType, p1: Vec2, p2: Vec2) -> (r: Option<Vec2>)
        requires
            self.wf(),
            other.wf(),
            p1.in_world(),
            p2.in_world(),
        ensures
            opt_view(r) == collide(*self, *other, p1@, p2@),
            r == collide_vec(*self, *other, p1, p2),
    {
        match (*self, *other) {
            (ColliderType::Circle(r1), ColliderType::Circle(r2)) => circle_circle_exec(
                r1,
                r2,
                p1,
                p2,
            ),
            (ColliderType::Rect(w1, h1), ColliderType::Rect(w2, h2)) => rect_rect_exec(
                w1,
                h1,
                w2,
                h2,
                p1,
                p2,
            ),
            (ColliderType::Rect(w, h), ColliderType::Circle(r)) => rect_circle_exec(
                w,
                h,
                r,
                p1,
                p2,
            ),
            (ColliderType::Circle(r), ColliderType::Rect(w, h)) => {
                match rect_circle_exec(w, h, r, p2, p1) {
                    Some(v) => Some(Vec2 { x: -v.x, y: -v.y }),
                    None => None,
                }
            },
            _ => None,
        }
    }
}

/// The shape component of an entity.
#[derive(Clone, Copy, Debug, PartialEq, Eq, Structural)]
pub struct Collider(pub ColliderType);

impl Collider {
    pub fn shape(&self) -> (r: &ColliderType)
        ensures
            *r == self.0,
    {
        &self.0
    }
}

/// Collects the shape of a collider; an unset shape is `ColliderType::Empty`.
pub struct ColliderBuilder {
    col_type: Option<ColliderType>,
}

impl View for ColliderBuilder {
    type V = Option<ColliderType>;

    closed spec fn view(&self) -> Option<ColliderType> {
        self.col_type
    }
}

impl ColliderBuilder {
    pub fn new() -> (r: Self)
        ensures
            r@ == None::<ColliderType>,
    {
        ColliderBuilder { col_type: None }
    }

    pub fn collider_type(self, c: ColliderType) -> (r: Self)
        ensures
            r@ == Some(c),
    {
        ColliderBuilder { col_type: Some(c) }
    }

    pub fn build(self) -> (r: Collider)
        ensures
            r.0 == (match self@ {
                Some(c) => c,
                None => ColliderType::Empty,
            }),
    {
        Collider(
            match self.col_type {
                Some(v) => v,
                None => ColliderType::Empty,
            },
        )
    }
}

/// One overlap found for an entity: the other entity and the MTV that moves
/// this one out of it.
#[derive(Clone, Copy, Debug, PartialEq, Eq, Structural)]
pub struct Collision {
    pub with: usize,
    pub at: Vec2,
}

/// The overlaps of an entity found in the current tick, and whether one of them
/// pushes it upward, that is whether it rests on something.
pub struct Collisions {
    pub list: Vec<Collision>,
    pub hit_bottom: bool,
}

impl View for Collisions {
    type V = (Seq<Collision>, bool);

    open spec fn view(&self) -> (Seq<Collision>, bool) {
        (self.list@, self.hit_bottom)
    }
}

impl Collisions {
    /// No overlap.
    pub fn new() -> (r: Self)
        ensures
            r@ == (Seq::<Collision>::empty(), false),
    {
        Collisions { list: Vec::new(), hit_bottom: false }
    }

    pub fn has_hit_bottom(&self) -> (r: bool)
        ensures
            r == self.hit_bottom,
    {
        self.hit_bottom
    }
}

/// Two circles collide exactly when the distance between their centres is below the
/// sum of their radii, compared here as squares; at exactly that distance they do not.
pub proof fn lemma_circle_overlap(r1: i64, r2: i64, p1: (int, int), p2: (int, int))
    requires
        valid_size(r1 as int),
        valid_size(r2 as int),
    ensures
        collide(ColliderType::Circle(r1), ColliderType::Circle(r2), p1, p2).is_some() <==> norm2(
            p2.0 - p1.0,
            p2.1 - p1.1,
        ) < (r1 + r2) * (r1 + r2),
        norm2(p2.0 - p1.0, p2.1 - p1.1) == (r1 + r2) * (r1 + r2) ==> collide(
            ColliderType::Circle(r1),
            ColliderType::Circle(r2),
            p1,
            p2,
        ).is_none(),
{
}

proof fn lemma_away_root_odd(d: int, r: int, n2: int)
    requires
        n2 >= 0,
    ensures
        away_root(-d, r, n2) == -away_root(d, r, n2),
{
    assert((-d) * (-d) == d * d) by (nonlinear_arith);
    if d == 0 {
        assert(0 * 0 * (r * r) == 0) by (nonlinear_arith);
        lemma_ceil_root_zero(n2);
    }
}

/// Swapping the two shapes, with their positions, negates the MTV, for two
/// circles and for a rectangle against a circle in either order.
pub proof fn lemma_collide_symmetric(s1: ColliderType, s2: ColliderType, p1: (int, int), p2: (int, int))
    requires
        (s1 is Circle && s2 is Circle) || (s1 is Rect && s2 is Circle) || (s1 is Circle
            && s2 is Rect),
    ensures
        collide(s1, s2, p1, p2) == neg_opt(collide(s2, s1, p2, p1)),
{
    if let (ColliderType::Circle(r1), ColliderType::Circle(r2)) = (s1, s2) {
        let dx = p2.0 - p1.0;
        let dy = p2.1 - p1.1;
        assert(norm2(-dx, -dy) == norm2(dx, dy)) by (nonlinear_arith);
        let n2 = norm2(dx, dy);
        assert(n2 >= 0) by (nonlinear_arith)
            requires
                n2 == dx * dx + dy * dy,
        ;
        lemma_away_root_odd(dx, r1 + r2, n2);
        lemma_away_root_odd(dy, r1 + r2, n2);
        assert(r2 + r1 == r1 + r2);
    }
}

/// Moving the first of two circles by their MTV leaves them apart: the rounded
/// MTV never falls short of contact. Coincident centres are left out, as their
/// MTV is the zero vector.
pub proof fn lemma_circle_separation(r1: i64, r2: i64, p1: (int, int), p2: (int, int))
    requires
        valid_size(r1 as int),
        valid_size(r2 as int),
        p1 != p2,
        collide(ColliderType::Circle(r1), ColliderType::Circle(r2), p1, p2).is_some(),
    ensures
        ({
            let m = collide(ColliderType::Circle(r1), ColliderType::Circle(r2), p1, p2).unwrap();
            collide(
                ColliderType::Circle(r1),
                ColliderType::Circle(r2),
                (p1.0 + m.0, p1.1 + m.1),
                p2,
            ).is_none()
        }),
{
    let dx = p2.0 - p1.0;
    let dy = p2.1 - p1.1;
    let n = norm2(dx, dy);
    let rad = r1 + r2;
    if n == 0 {
        assert(dx * dx >= 0 && dy * dy >= 0) by (nonlinear_arith);
        assert(dx == 0 && dy == 0) by (nonlinear_arith)
            requires
                dx * dx + dy * dy == 0,
        ;
        assert(false);
    }
    assert(n > 0) by (nonlinear_arith)
        requires
            n == dx * dx + dy * dy,
            n != 0,
    ;
    let ax = dx * dx * (rad * rad);
    let ay = dy * dy * (rad * rad);
    assert(rad * rad * n >= ax && rad * rad * n >= ay) by (nonlinear_arith)
        requires
            n == dx * dx + dy * dy,
            ax == dx * dx * (rad * rad),
            ay == dy * dy * (rad * rad),
    ;
    lemma_ceil_root(ax, n, rad);
    lemma_ceil_root(ay, n, rad);
    let cx = ceil_root(ax, n);
    let cy = ceil_root(ay, n);
    let sx = away_root(dx, rad, n);
    let sy = away_root(dy, rad, n);
    assert(sx * sx == cx * cx && sy * sy == cy * cy) by (nonlinear_arith)
        requires
            sx == cx || sx == -cx,
            sy == cy || sy == -cy,
    ;
    assert(sx * sx + sy * sy >= rad * rad) by (nonlinear_arith)
        requires
            cx * cx * n >= ax,
            cy * cy * n >= ay,
            sx * sx == cx * cx,
            sy * sy == cy * cy,
            ax == dx * dx * (rad * rad),
            ay == dy * dy * (rad * rad),
            n == dx * dx + dy * dy,
            n > 0,
    ;
    let m = (dx - sx, dy - sy);
    assert(p2.0 - (p1.0 + m.0) == sx);
    assert(p2.1 - (p1.1 + m.1) == sy);
}

/// A circle whose centre lies straight above the top-left corner of a
/// rectangle, sunk by `d` with `0 < d < r` into it and by no more than the
/// rectangle's height, is lifted by exactly `d`, straight up, so that the corner
/// lies on the circle again.
pub proof fn lemma_circle_lands_on_rect(r: i64, w: i64, h: i64, c: (int, int), p: (int, int), d: int)
    requires
        valid_size(r as int),
        valid_size(w as int),
        valid_size(h as int),
        0 < d < r,
        d <= h,
        2 * c.0 == 2 * p.0 - w,
        2 * c.1 == 2 * p.1 + h + 2 * (r - d),
    ensures
        collide(ColliderType::Circle(r), ColliderType::Rect(w, h), c, p) == Some((0int, d)),
{
    let ox = 2 * c.0;
    let oy = 2 * c.1;
    let (x0, y0, y1) = (2 * p.0 - w, 2 * p.1 - h, 2 * p.1 + h);
    // the bottom-left corner is out of the circle
    let dy0 = y0 - oy;
    assert(dy0 == -2 * h - 2 * (r - d));
    assert((x0 - ox) * (x0 - ox) + dy0 * dy0 >= 4 * (r * r)) by (nonlinear_arith)
        requires
            x0 - ox == 0,
            dy0 == -2 * h - 2 * (r - d),
            h >= d,
            d < r,
            r >= 0,
    ;
    assert(point_in_circle(x0, y0, ox, oy, r as int) is None);
    // the top-left corner is inside it
    let dy = y1 - oy;
    assert(dy == -2 * (r - d));
    let n2 = norm2(0, dy);
    assert(n2 == dy * dy);
    assert(0 < n2 < 4 * (r * r)) by (nonlinear_arith)
        requires
            n2 == dy * dy,
            dy == -2 * (r - d),
            0 < d < r,
    ;
    assert(0 * 0 * (r * r) == 0) by (nonlinear_arith);
    lemma_ceil_root_zero(n2);
    assert(away_root(0, r as int, n2) == 0);
    let a = dy * dy * (r * r);
    assert(is_ceil_root(r as int, a, n2)) by {
        assert(r * r * n2 == a) by (nonlinear_arith)
            requires
                a == dy * dy * (r * r),
                n2 == dy * dy,
        ;
        assert((r - 1) * (r - 1) * n2 < a) by (nonlinear_arith)
            requires
                a == dy * dy * (r * r),
                n2 == dy * dy,
                n2 > 0,
                r >= 1,
        ;
    }
    lemma_ceil_root_unique(r as int, a, n2);
    assert(away_root(dy, r as int, n2) == -r);
    assert(2 * away_root(dy, r as int, n2) - dy == -2 * d);
    assert(half_away(-2 * d) == -d);
    assert(half_away(2 * away_root(0, r as int, n2) - 0) == 0);
    assert(x0 - ox == 0);
    assert(point_in_circle(x0, y1, ox, oy, r as int) == Some((0int, -d)));
}

/// Moving the first of two rectangles by their MTV leaves them apart.
pub proof fn lemma_rect_separation(w1: i64, h1: i64, w2: i64, h2: i64, p1: (int, int), p2: (int, int))
    requires
        collide(ColliderType::Rect(w1, h1), ColliderType::Rect(w2, h2), p1, p2).is_some(),
    ensures
        ({
            let m = collide(ColliderType::Rect(w1, h1), ColliderType::Rect(w2, h2), p1, p2).unwrap();
            collide(
                ColliderType::Rect(w1, h1),
                ColliderType::Rect(w2, h2),
                (p1.0 + m.0, p1.1 + m.1),
                p2,
            ).is_none()
        }),
{
    let (ax0, ax1) = (2 * p1.0 - w1, 2 * p1.0 + w1);
    let (ay0, ay1) = (2 * p1.1 - h1, 2 * p1.1 + h1);
    let (bx0, bx1) = (2 * p2.0 - w2, 2 * p2.0 + w2);
    let (by0, by1) = (2 * p2.1 - h2, 2 * p2.1 + h2);
    let px = min_abs(bx0 - ax1, bx1 - ax0);
    let py = min_abs(by0 - ay1, by1 - ay0);
    assert(px >= 0 ==> 2 * half_away(px) >= px);
    assert(px < 0 ==> 2 * half_away(px) <= px);
    assert(py >= 0 ==> 2 * half_away(py) >= py);
    assert(py < 0 ==> 2 * half_away(py) <= py);
}

} // verus!
