//! The entity store and the systems that run over it.
//!
//! An entity is an index into parallel component arrays; a component is present
//! when its slot holds `Some`. Systems visit entities in ascending index order,
//! which is creation order.
use vstd::prelude::*;
use crate::collider::{
    collide, collide_vec, lemma_circle_lands_on_rect, valid_size, Collider, ColliderType, Collision,
    Collisions,
};
use crate::physics::{
    step_acceleration, step_velocity, stepped_body, stepped_position, RigidBody, GRAVITY_Y,
};
use crate::animation::updated;
use crate::sprite::{played, Sprite, SpriteView};
use crate::transform::Transform;
use crate::vector::{clamp, clamp_add, clamped_add, Vec2, WORLD_LIMIT};

verus! {

/// Number of collision layers; layers are numbered from zero.
pub const LAYER_COUNT: u32 = 32;

/// Whether the layer set `mask` holds `layer`.
pub open spec fn in_layer(mask: u32, layer: u32) -> bool {
    mask & (1u32 << layer) != 0
}

/// Whether an entity of the layer set `mask` takes part in detection under
/// `filter`: every entity does when it is `None`, the members of the layer when
/// it is `Some(layer)`.
pub open spec fn member(mask: u32, filter: Option<u32>) -> bool {
    match filter {
        Some(layer) => in_layer(mask, layer),
        None => true,
    }
}

/// Whether an entity whose excluded layer set is `anti` is kept out as a partner
/// under `filter`.
pub open spec fn excluded(anti: u32, filter: Option<u32>) -> bool {
    match filter {
        Some(layer) => in_layer(anti, layer),
        None => false,
    }
}

/// A filter that names a layer names one that exists.
pub open spec fn valid_filter(filter: Option<u32>) -> bool {
    match filter {
        Some(layer) => layer < LAYER_COUNT,
        None => true,
    }
}

/// The abstract contents of a `World`.
pub struct WorldView {
    pub transforms: Seq<Option<Transform>>,
    pub colliders: Seq<Option<Collider>>,
    pub bodies: Seq<Option<RigidBody>>,
    pub collisions: Seq<Option<(Seq<Collision>, bool)>>,
    /// The layers each entity belongs to.
    pub layers: Seq<u32>,
    /// The layers in which each entity is no partner for the others.
    pub anti_layers: Seq<u32>,
    pub sprites: Seq<Option<SpriteView>>,
}

impl WorldView {
    pub open spec fn len(&self) -> nat {
        self.transforms.len()
    }

    /// All arrays have one slot per entity, and every component is well formed.
    pub open spec fn wf(&self) -> bool {
        &&& self.colliders.len() == self.len()
        &&& self.bodies.len() == self.len()
        &&& self.collisions.len() == self.len()
        &&& self.layers.len() == self.len()
        &&& self.anti_layers.len() == self.len()
        &&& self.sprites.len() == self.len()
        &&& forall|i: int|
            0 <= i < self.len() && self.transforms[i] is Some ==> self.transforms[i].unwrap().wf()
        &&& forall|i: int|
            0 <= i < self.len() && self.colliders[i] is Some ==> self.colliders[i].unwrap().0.wf()
        &&& forall|i: int|
            0 <= i < self.len() && self.bodies[i] is Some ==> self.bodies[i].unwrap().wf()
        &&& forall|i: int|
            0 <= i < self.len() && self.sprites[i] is Some ==> self.sprites[i].unwrap().wf()
    }
}

pub open spec fn sprite_view(s: Option<Sprite>) -> Option<SpriteView> {
    match s {
        Some(s) => Some(s@),
        None => None,
    }
}

pub open spec fn collisions_view(c: Option<Collisions>) -> Option<(Seq<Collision>, bool)> {
    match c {
        Some(c) => Some(c@),
        None => None,
    }
}

// ----- physics -----

/// Entity `i` has a transform and a rigid body, so the physics moves it.
pub open spec fn moves(v: WorldView, i: int) -> bool {
    v.transforms[i] is Some && v.bodies[i] is Some
}

pub open spec fn moved_transform(v: WorldView, i: int, gravity: Vec2) -> Option<Transform> {
    if moves(v, i) {
        let t = v.transforms[i].unwrap();
        Some(
            Transform { position: stepped_position(t.position, v.bodies[i].unwrap(), gravity), ..t },
        )
    } else {
        v.transforms[i]
    }
}

pub open spec fn moved_body(v: WorldView, i: int, gravity: Vec2) -> Option<RigidBody> {
    if moves(v, i) {
        Some(stepped_body(v.bodies[i].unwrap(), gravity))
    } else {
        v.bodies[i]
    }
}

/// The world after one integration step of every entity that moves.
pub open spec fn physics_view(v: WorldView, gravity: Vec2) -> WorldView {
    WorldView {
        transforms: Seq::new(v.len(), |i: int| moved_transform(v, i, gravity)),
        bodies: Seq::new(v.len(), |i: int| moved_body(v, i, gravity)),
        ..v
    }
}

// ----- detection -----

/// Entity `i` records its collisions under `filter`.
pub open spec fn detects(v: WorldView, i: int, filter: Option<u32>) -> bool {
    v.collisions[i] is Some && v.colliders[i] is Some && v.transforms[i] is Some && member(
        v.layers[i],
        filter,
    )
}

/// Entity `j` can be collided with under `filter`.
pub open spec fn partner(v: WorldView, j: int, filter: Option<u32>) -> bool {
    v.colliders[j] is Some && v.transforms[j] is Some && member(v.layers[j], filter) && !excluded(
        v.anti_layers[j],
        filter,
    )
}

/// The MTV of entity `i` against entity `j`.
pub open spec fn mtv(v: WorldView, i: int, j: int) -> Option<Vec2> {
    collide_vec(
        v.colliders[i].unwrap().0,
        v.colliders[j].unwrap().0,
        v.transforms[i].unwrap().position,
        v.transforms[j].unwrap().position,
    )
}

/// The collisions of entity `i` under `filter` with the partners below index
/// `k`, in index order.
pub open spec fn hits(v: WorldView, i: int, filter: Option<u32>, k: int) -> Seq<Collision>
    decreases k,
{
    if k <= 0 {
        Seq::empty()
    } else {
        let prev = hits(v, i, filter, k - 1);
        let j = k - 1;
        if j != i && partner(v, j, filter) && mtv(v, i, j) is Some {
            prev.push(Collision { with: j as usize, at: mtv(v, i, j).unwrap() })
        } else {
            prev
        }
    }
}

proof fn lemma_hits_same(a: WorldView, b: WorldView, i: int, filter: Option<u32>, k: int)
    requires
        a.transforms == b.transforms,
        a.colliders == b.colliders,
        a.layers == b.layers,
        a.anti_layers == b.anti_layers,
    ensures
        hits(a, i, filter, k) == hits(b, i, filter, k),
    decreases k,
{
    if k > 0 {
        lemma_hits_same(a, b, i, filter, k - 1);
    }
}

/// One of the collisions pushes upward.
pub open spec fn pushes_up(s: Seq<Collision>) -> bool {
    exists|m: int| 0 <= m < s.len() && s[m].at.y > 0
}

pub open spec fn detected(v: WorldView, i: int, filter: Option<u32>) -> Option<(Seq<Collision>, bool)> {
    if detects(v, i, filter) {
        let h = hits(v, i, filter, v.len() as int);
        Some((h, pushes_up(h)))
    } else {
        v.collisions[i]
    }
}

/// The world after detection under `filter`: each detecting entity's collisions
/// are replaced by those it has now.
pub open spec fn detect_view(v: WorldView, filter: Option<u32>) -> WorldView {
    WorldView { collisions: Seq::new(v.len(), |i: int| detected(v, i, filter)), ..v }
}

/// Detection under `layers[0]`, then `layers[1]`, and so on up to `layers[k - 1]`.
pub open spec fn detect_layers(v: WorldView, layers: Seq<Option<u32>>, k: int) -> WorldView
    decreases k,
{
    if k <= 0 {
        v
    } else {
        detect_view(detect_layers(v, layers, k - 1), layers[k - 1])
    }
}

// ----- repulsion -----

/// Applies one MTV: along each axis where it is not zero, the position moves
/// by it and the velocity and acceleration along that axis stop.
pub open spec fn push_one(tb: (Transform, RigidBody), m: Vec2) -> (Transform, RigidBody) {
    let (t0, b0) = tb;
    let (t1, b1) = if m.x != 0 {
        (
            Transform {
                position: Vec2 { x: clamp(t0.position.x + m.x) as i64, y: t0.position.y },
                ..t0
            },
            RigidBody {
                acceleration: Vec2 { x: 0, y: b0.acceleration.y },
                velocity: Vec2 { x: 0, y: b0.velocity.y },
                ..b0
            },
        )
    } else {
        (t0, b0)
    };
    if m.y != 0 {
        (
            Transform {
                position: Vec2 { x: t1.position.x, y: clamp(t1.position.y + m.y) as i64 },
                ..t1
            },
            RigidBody {
                acceleration: Vec2 { x: b1.acceleration.x, y: 0 },
                velocity: Vec2 { x: b1.velocity.x, y: 0 },
                ..b1
            },
        )
    } else {
        (t1, b1)
    }
}

/// The first `k` collisions of `list`, applied in order.
pub open spec fn push_all(tb: (Transform, RigidBody), list: Seq<Collision>, k: int) -> (
    Transform,
    RigidBody,
)
    decreases k,
{
    if k <= 0 {
        tb
    } else {
        push_one(push_all(tb, list, k - 1), list[k - 1].at)
    }
}

/// Entity `i` has collisions, a transform and a rigid body, so repulsion moves it.
pub open spec fn repelled(v: WorldView, i: int) -> bool {
    v.collisions[i] is Some && v.transforms[i] is Some && v.bodies[i] is Some
}

pub open spec fn repulsion_of(v: WorldView, i: int) -> (Transform, RigidBody) {
    let list = v.collisions[i].unwrap().0;
    push_all((v.transforms[i].unwrap(), v.bodies[i].unwrap()), list, list.len() as int)
}

/// The world after every repelled entity has applied all its collisions.
pub open spec fn repulse_view(v: WorldView) -> WorldView {
    WorldView {
        transforms: Seq::new(
            v.len(),
            |i: int|
                if repelled(v, i) {
                    Some(repulsion_of(v, i).0)
                } else {
                    v.transforms[i]
                },
        ),
        bodies: Seq::new(
            v.len(),
            |i: int|
                if repelled(v, i) {
                    Some(repulsion_of(v, i).1)
                } else {
                    v.bodies[i]
                },
        ),
        ..v
    }
}

// ----- sprites -----

/// A sprite after one update of the animation it plays.
pub open spec fn sprite_updated(s: SpriteView) -> SpriteView {
    if s.playing() >= 0 {
        SpriteView {
            animations: s.animations.update(s.playing(), updated(s.animations[s.playing()])),
            ..s
        }
    } else {
        s
    }
}

/// The world after every sprite has been updated.
pub open spec fn sprites_view(v: WorldView) -> WorldView {
    WorldView {
        sprites: Seq::new(
            v.len(),
            |i: int|
                match v.sprites[i] {
                    Some(s) => Some(sprite_updated(s)),
                    None => None,
                },
        ),
        ..v
    }
}

/// One tick: physics, then detection under each of `layers` in turn, then
/// repulsion, then the sprites.
pub open spec fn tick_view(v: WorldView, gravity: Vec2, layers: Seq<Option<u32>>) -> WorldView {
    sprites_view(
        repulse_view(detect_layers(physics_view(v, gravity), layers, layers.len() as int)),
    )
}

/// The world after `n` ticks.
pub open spec fn ticks(v: WorldView, gravity: Vec2, layers: Seq<Option<u32>>, n: nat) -> WorldView
    decreases n,
{
    if n == 0 {
        v
    } else {
        tick_view(ticks(v, gravity, layers, (n - 1) as nat), gravity, layers)
    }
}

/// Every array has one slot per entity.
pub open spec fn sized(v: WorldView) -> bool {
    &&& v.colliders.len() == v.len()
    &&& v.bodies.len() == v.len()
    &&& v.collisions.len() == v.len()
    &&& v.layers.len() == v.len()
    &&& v.anti_layers.len() == v.len()
    &&& v.sprites.len() == v.len()
}

/// Entity `i` has transform `t` and an immovable body at rest, and keeps no
/// collision record.
pub open spec fn resting_immovable(v: WorldView, i: int, t: Transform) -> bool {
    &&& 0 <= i < v.len()
    &&& v.transforms[i] == Some(t)
    &&& v.bodies[i] is Some
    &&& v.bodies[i].unwrap().mass <= 0
    &&& v.bodies[i].unwrap().velocity@ == (0int, 0int)
    &&& v.bodies[i].unwrap().acceleration@ == (0int, 0int)
    &&& v.collisions[i] is None
}

proof fn lemma_detect_layers_keep(v: WorldView, layers: Seq<Option<u32>>, k: int, i: int, t: Transform)
    requires
        sized(v),
        resting_immovable(v, i, t),
    ensures
        sized(detect_layers(v, layers, k)),
        resting_immovable(detect_layers(v, layers, k), i, t),
        detect_layers(v, layers, k).len() == v.len(),
    decreases k,
{
    if k > 0 {
        lemma_detect_layers_keep(v, layers, k - 1, i, t);
    }
}

proof fn lemma_tick_keeps_immovable(
    v: WorldView,
    gravity: Vec2,
    layers: Seq<Option<u32>>,
    i: int,
    t: Transform,
)
    requires
        sized(v),
        resting_immovable(v, i, t),
        t.position.in_world(),
    ensures
        sized(tick_view(v, gravity, layers)),
        resting_immovable(tick_view(v, gravity, layers), i, t),
        tick_view(v, gravity, layers).len() == v.len(),
{
    let b = v.bodies[i].unwrap();
    assert(step_velocity(b, gravity) == (0int, 0int));
    assert(step_acceleration(b, gravity) == (0int, 0int));
    assert(clamp_add(t.position@, (0int, 0int)) == t.position@);
    let p = physics_view(v, gravity);
    assert(p.transforms[i] == Some(t));
    lemma_detect_layers_keep(p, layers, layers.len() as int, i, t);
}

/// An entity with an immovable body at rest that keeps no collision record
/// stays where it is, at rest, through any number of ticks.
pub proof fn lemma_immovable_entity(
    v: WorldView,
    gravity: Vec2,
    layers: Seq<Option<u32>>,
    n: nat,
    i: int,
)
    requires
        v.wf(),
        0 <= i < v.len(),
        v.transforms[i] is Some,
        v.bodies[i] is Some,
        v.bodies[i].unwrap().mass <= 0,
        v.bodies[i].unwrap().velocity@ == (0int, 0int),
        v.bodies[i].unwrap().acceleration@ == (0int, 0int),
        v.collisions[i] is None,
    ensures
        ticks(v, gravity, layers, n).transforms[i] == v.transforms[i],
        ticks(v, gravity, layers, n).bodies[i].unwrap().velocity@ == (0int, 0int),
        ticks(v, gravity, layers, n).bodies[i].unwrap().acceleration@ == (0int, 0int),
{
    let t = v.transforms[i].unwrap();
    lemma_ticks_keep(v, gravity, layers, n, i, t);
}

proof fn lemma_ticks_keep(
    v: WorldView,
    gravity: Vec2,
    layers: Seq<Option<u32>>,
    n: nat,
    i: int,
    t: Transform,
)
    requires
        sized(v),
        resting_immovable(v, i, t),
        t.position.in_world(),
    ensures
        sized(ticks(v, gravity, layers, n)),
        resting_immovable(ticks(v, gravity, layers, n), i, t),
    decreases n,
{
    if n > 0 {
        lemma_ticks_keep(v, gravity, layers, (n - 1) as nat, i, t);
        lemma_tick_keeps_immovable(ticks(v, gravity, layers, (n - 1) as nat), gravity, layers, i, t);
    }
}

/// A world of two entities in layer 0: a ground rectangle `w` by `h` with an
/// immovable body and no collision record, and a ball of radius `r` with a movable
/// body and no force on it, which records its collisions. The ball's centre is
/// straight above the ground's top-left corner, and it moves straight down or not
/// at all.
pub open spec fn ball_over_ground(v: WorldView, r: i64, w: i64, h: i64) -> bool {
    &&& v.len() == 2
    &&& sized(v)
    &&& v.transforms[0] is Some
    &&& v.transforms[1] is Some
    &&& v.colliders[0] == Some(Collider(ColliderType::Rect(w, h)))
    &&& v.colliders[1] == Some(Collider(ColliderType::Circle(r)))
    &&& v.bodies[0] is Some
    &&& v.bodies[0].unwrap().mass <= 0
    &&& v.bodies[1] is Some
    &&& v.bodies[1].unwrap().mass > 0
    &&& v.bodies[1].unwrap().force@ == (0int, 0int)
    &&& v.bodies[1].unwrap().velocity.x == 0
    &&& v.bodies[1].unwrap().velocity.y <= 0
    &&& v.bodies[1].unwrap().velocity.in_world()
    &&& v.collisions[0] is None
    &&& v.collisions[1] is Some
    &&& in_layer(v.layers[0], 0)
    &&& !in_layer(v.anti_layers[0], 0)
    &&& in_layer(v.layers[1], 0)
    &&& valid_size(r as int)
    &&& valid_size(w as int)
    &&& valid_size(h as int)
    &&& v.transforms[0].unwrap().position.in_world()
    &&& v.transforms[1].unwrap().position.in_world()
    &&& 2 * v.transforms[1].unwrap().position.x == 2 * v.transforms[0].unwrap().position.x - w
}

/// The ball of `ball_over_ground` is at rest, touching the ground's corner from
/// above.
pub open spec fn ball_on_ground(v: WorldView, r: i64, w: i64, h: i64) -> bool {
    &&& ball_over_ground(v, r, w, h)
    &&& v.bodies[1].unwrap().velocity.y == 0
    &&& 2 * v.transforms[1].unwrap().position.y == 2 * v.transforms[0].unwrap().position.y + h + 2 * r
}

/// The tick on which a falling ball reaches the ground: when gravity and its own
/// speed take it down into the ground's corner by `d`, with `0 < d < r` and no
/// deeper than the ground is high, detection finds the ground pushing it up by
/// `d`, which marks it as resting, and repulsion lifts it back onto the corner and
/// stops its fall. The ball is then at rest on the ground.
pub proof fn lemma_ball_lands(v: WorldView, gravity: Vec2, r: i64, w: i64, h: i64, d: int)
    requires
        ball_over_ground(v, r, w, h),
        gravity.in_world(),
        gravity.x == 0,
        gravity.y < 0,
        v.bodies[1].unwrap().velocity.y + gravity.y >= -WORLD_LIMIT,
        0 < d < r,
        d <= h,
        d <= -(v.bodies[1].unwrap().velocity.y + gravity.y),
        2 * (v.transforms[1].unwrap().position.y + v.bodies[1].unwrap().velocity.y + gravity.y)
            == 2 * v.transforms[0].unwrap().position.y + h + 2 * (r - d),
    ensures
        ({
            let v1 = tick_view(v, gravity, seq![Some(0u32)]);
            &&& v1.transforms[0] == v.transforms[0]
            &&& v1.transforms[1].unwrap().position.x == v.transforms[1].unwrap().position.x
            &&& v1.transforms[1].unwrap().rotation == v.transforms[1].unwrap().rotation
            &&& v1.transforms[1].unwrap().scale == v.transforms[1].unwrap().scale
            &&& v1.collisions[1] == Some(
                (seq![Collision { with: 0, at: Vec2 { x: 0, y: d as i64 } }], true),
            )
            &&& ball_on_ground(v1, r, w, h)
        }),
{
    let layers = seq![Some(0u32)];
    let tg = v.transforms[0].unwrap();
    let tb = v.transforms[1].unwrap();
    let bb = v.bodies[1].unwrap();
    let g = gravity.y as int;
    let fall = bb.velocity.y + g;
    // physics
    let p = physics_view(v, gravity);
    assert(p.transforms[0] == v.transforms[0]) by {
        assert(step_velocity(v.bodies[0].unwrap(), gravity) == (0int, 0int));
    }
    assert(step_acceleration(bb, gravity) == (0int, g));
    assert(step_velocity(bb, gravity) == (0int, fall));
    assert(-WORLD_LIMIT <= tb.position.y + fall <= WORLD_LIMIT);
    assert(tb.position.y + fall + d <= tb.position.y);
    let sunk = Vec2 { x: tb.position.x, y: (tb.position.y + fall) as i64 };
    assert(p.transforms[1] == Some(Transform { position: sunk, ..tb }));
    assert(p.bodies[1].unwrap().velocity@ == (0int, fall));
    // detection in layer 0
    assert(detect_layers(p, layers, 0) == p);
    let dv = detect_view(p, Some(0u32));
    assert(detect_layers(p, layers, 1) == dv);
    lemma_circle_lands_on_rect(r, w, h, sunk@, tg.position@, d);
    let m = Vec2 { x: 0, y: d as i64 };
    assert(mtv(p, 1, 0) == Some(m));
    assert(hits(p, 1, Some(0u32), 0) == Seq::<Collision>::empty());
    assert(hits(p, 1, Some(0u32), 1) == seq![Collision { with: 0, at: m }]);
    assert(hits(p, 1, Some(0u32), 2) == seq![Collision { with: 0, at: m }]);
    let h1 = seq![Collision { with: 0usize, at: m }];
    assert(pushes_up(h1)) by {
        assert(h1[0].at.y > 0);
    }
    assert(dv.collisions[1] == Some((h1, true)));
    assert(dv.collisions[0] is None);
    // repulsion
    let q = repulse_view(dv);
    assert(push_all((p.transforms[1].unwrap(), p.bodies[1].unwrap()), h1, 0) == (
        p.transforms[1].unwrap(),
        p.bodies[1].unwrap(),
    ));
    assert(q.transforms[0] == v.transforms[0]);
    assert(q.transforms[1].unwrap().position.x == tb.position.x);
    assert(2 * q.transforms[1].unwrap().position.y == 2 * tg.position.y + h + 2 * r);
    assert(q.bodies[1].unwrap().velocity@ == (0int, 0int));
    let v1 = tick_view(v, gravity, layers);
    assert(v1.transforms =~= q.transforms);
}

/// A ball resting on the ground stays there through a tick under a downward
/// gravity weaker than its radius and than the ground's height.
pub proof fn lemma_ball_stays_on_ground(v: WorldView, gravity: Vec2, r: i64, w: i64, h: i64)
    requires
        ball_on_ground(v, r, w, h),
        gravity.in_world(),
        gravity.x == 0,
        -r < gravity.y < 0,
        -gravity.y <= h,
    ensures
        ({
            let v1 = tick_view(v, gravity, seq![Some(0u32)]);
            &&& v1.transforms[1] == v.transforms[1]
            &&& v1.transforms[0] == v.transforms[0]
            &&& v1.collisions[1] == Some(
                (seq![Collision { with: 0, at: Vec2 { x: 0, y: -gravity.y as i64 } }], true),
            )
            &&& ball_on_ground(v1, r, w, h)
        }),
{
    lemma_ball_lands(v, gravity, r, w, h, -gravity.y as int);
    let v1 = tick_view(v, gravity, seq![Some(0u32)]);
    assert(v1.transforms[1].unwrap().position == v.transforms[1].unwrap().position);
    assert(v1.transforms[1].unwrap() == v.transforms[1].unwrap());
}

/// A ball resting on the ground stays at the same place, at rest and marked as
/// resting on something, through any number of ticks.
pub proof fn lemma_ball_rests(v: WorldView, gravity: Vec2, r: i64, w: i64, h: i64, n: nat)
    requires
        ball_on_ground(v, r, w, h),
        gravity.in_world(),
        gravity.x == 0,
        -r < gravity.y < 0,
        -gravity.y <= h,
    ensures
        ({
            let vn = ticks(v, gravity, seq![Some(0u32)], n);
            &&& vn.transforms[1] == v.transforms[1]
            &&& vn.bodies[1].unwrap().velocity@ == (0int, 0int)
            &&& n >= 1 ==> vn.collisions[1] == Some(
                (seq![Collision { with: 0, at: Vec2 { x: 0, y: -gravity.y as i64 } }], true),
            )
            &&& ball_on_ground(vn, r, w, h)
        }),
    decreases n,
{
    if n > 0 {
        lemma_ball_rests(v, gravity, r, w, h, (n - 1) as nat);
        lemma_ball_stays_on_ground(ticks(v, gravity, seq![Some(0u32)], (n - 1) as nat), gravity, r, w, h);
    }
}

// ----- queries -----

/// Which components a query asks for.
#[derive(Clone, Copy, Debug, PartialEq, Eq, Structural)]
pub struct Query {
    pub transform: bool,
    pub collider: bool,
    pub rigid_body: bool,
    pub collisions: bool,
}

pub open spec fn matches(v: WorldView, q: Query, i: int) -> bool {
    &&& q.transform ==> v.transforms[i] is Some
    &&& q.collider ==> v.colliders[i] is Some
    &&& q.rigid_body ==> v.bodies[i] is Some
    &&& q.collisions ==> v.collisions[i] is Some
}

/// The entities below `k` that hold every component `q` asks for, in index order.
pub open spec fn join_upto(v: WorldView, q: Query, k: int) -> Seq<usize>
    decreases k,
{
    if k <= 0 {
        Seq::empty()
    } else {
        let prev = join_upto(v, q, k - 1);
        if matches(v, q, k - 1) {
            prev.push((k - 1) as usize)
        } else {
            prev
        }
    }
}

fn member_exec(mask: u32, filter: Option<u32>) -> (r: bool)
    requires
        valid_filter(filter),
    ensures
        r == member(mask, filter),
{
    match filter {
        Some(layer) => mask & (1u32 << layer) != 0,
        None => true,
    }
}

fn excluded_exec(anti: u32, filter: Option<u32>) -> (r: bool)
    requires
        valid_filter(filter),
    ensures
        r == excluded(anti, filter),
{
    match filter {
        Some(layer) => anti & (1u32 << layer) != 0,
        None => false,
    }
}

fn push_one_exec(t: &mut Transform, b: &mut RigidBody, m: Vec2)
    requires
        old(t).wf(),
        old(b).wf(),
    ensures
        (*final(t), *final(b)) == push_one((*old(t), *old(b)), m),
        final(t).wf(),
        final(b).wf(),
{
    if m.x != 0 {
        t.position.x = clamped_add(t.position.x, m.x);
        b.acceleration.x = 0;
        b.velocity.x = 0;
    }
    if m.y != 0 {
        t.position.y = clamped_add(t.position.y, m.y);
        b.acceleration.y = 0;
        b.velocity.y = 0;
    }
}

pub struct World {
    transforms: Vec<Option<Transform>>,
    colliders: Vec<Option<Collider>>,
    bodies: Vec<Option<RigidBody>>,
    collisions: Vec<Option<Collisions>>,
    layers: Vec<u32>,
    anti_layers: Vec<u32>,
    sprites: Vec<Option<Sprite>>,
}

impl View for World {
    type V = WorldView;

    closed spec fn view(&self) -> WorldView {
        WorldView {
            transforms: self.transforms@,
            colliders: self.colliders@,
            bodies: self.bodies@,
            collisions: self.collisions@.map_values(|c: Option<Collisions>| collisions_view(c)),
            layers: self.layers@,
            anti_layers: self.anti_layers@,
            sprites: self.sprites@.map_values(|s: Option<Sprite>| sprite_view(s)),
        }
    }
}

impl World {
    pub open spec fn wf(&self) -> bool {
        self@.wf()
    }

    /// A world without entities.
    pub fn new() -> (r: Self)
        ensures
            r.wf(),
            r@.len() == 0,
    {
        let r = World {
            transforms: Vec::new(),
            colliders: Vec::new(),
            bodies: Vec::new(),
            collisions: Vec::new(),
            layers: Vec::new(),
            anti_layers: Vec::new(),
            sprites: Vec::new(),
        };
        assert(r@.collisions.len() == 0);
        assert(r@.sprites.len() == 0);
        r
    }

    /// The number of entities created so far.
    pub fn len(&self) -> (r: usize)
        requires
            self.wf(),
        ensures
            r == self@.len(),
    {
        self.transforms.len()
    }

    /// Adds an entity without components or layers; returns its index.
    pub fn create_entity(&mut self) -> (e: usize)
        requires
            old(self).wf(),
            old(self)@.len() < usize::MAX,
        ensures
            final(self).wf(),
            e == old(self)@.len(),
            final(self)@ == (WorldView {
                transforms: old(self)@.transforms.push(None),
                colliders: old(self)@.colliders.push(None),
                bodies: old(self)@.bodies.push(None),
                collisions: old(self)@.collisions.push(None),
                layers: old(self)@.layers.push(0),
                anti_layers: old(self)@.anti_layers.push(0),
                sprites: old(self)@.sprites.push(None),
            }),
    {
        let e = self.transforms.len();
        self.transforms.push(None);
        self.colliders.push(None);
        self.bodies.push(None);
        self.collisions.push(None);
        self.layers.push(0);
        self.anti_layers.push(0);
        self.sprites.push(None);
        assert(self@.collisions =~= old(self)@.collisions.push(None));
        assert(self@.sprites =~= old(self)@.sprites.push(None));
        e
    }

    pub fn attach_transform(&mut self, e: usize, t: Transform)
        requires
            old(self).wf(),
            e < old(self)@.len(),
            t.wf(),
        ensures
            final(self).wf(),
            final(self)@ == (WorldView {
                transforms: old(self)@.transforms.update(e as int, Some(t)),
                ..old(self)@
            }),
    {
        self.transforms.set(e, Some(t));
    }

    pub fn attach_collider(&mut self, e: usize, c: Collider)
        requires
            old(self).wf(),
            e < old(self)@.len(),
            c.0.wf(),
        ensures
            final(self).wf(),
            final(self)@ == (WorldView {
                colliders: old(self)@.colliders.update(e as int, Some(c)),
                ..old(self)@
            }),
    {
        self.colliders.set(e, Some(c));
    }

    pub fn attach_rigid_body(&mut self, e: usize, b: RigidBody)
        requires
            old(self).wf(),
            e < old(self)@.len(),
            b.wf(),
        ensures
            final(self).wf(),
            final(self)@ == (WorldView {
                bodies: old(self)@.bodies.update(e as int, Some(b)),
                ..old(self)@
            }),
    {
        self.bodies.set(e, Some(b));
    }

    /// Gives the entity an empty collision record, so that detection fills it.
    pub fn attach_collisions(&mut self, e: usize)
        requires
            old(self).wf(),
            e < old(self)@.len(),
        ensures
            final(self).wf(),
            final(self)@ == (WorldView {
                collisions: old(self)@.collisions.update(
                    e as int,
                    Some((Seq::<Collision>::empty(), false)),
                ),
                ..old(self)@
            }),
    {
        self.collisions.set(e, Some(Collisions::new()));
        assert(self@.collisions =~= old(self)@.collisions.update(
            e as int,
            Some((Seq::<Collision>::empty(), false)),
        ));
    }

    /// Puts the entity in `layer`.
    pub fn add_to_layer(&mut self, e: usize, layer: u32)
        requires
            old(self).wf(),
            e < old(self)@.len(),
            layer < LAYER_COUNT,
        ensures
            final(self).wf(),
            final(self)@ == (WorldView {
                layers: old(self)@.layers.update(e as int, old(self)@.layers[e as int] | (1u32 << layer)),
                ..old(self)@
            }),
    {
        let m = self.layers[e] | (1u32 << layer);
        self.layers.set(e, m);
    }

    /// Makes the entity no partner for the others in `layer`.
    pub fn exclude_from_layer(&mut self, e: usize, layer: u32)
        requires
            old(self).wf(),
            e < old(self)@.len(),
            layer < LAYER_COUNT,
        ensures
            final(self).wf(),
            final(self)@ == (WorldView {
                anti_layers: old(self)@.anti_layers.update(
                    e as int,
                    old(self)@.anti_layers[e as int] | (1u32 << layer),
                ),
                ..old(self)@
            }),
    {
        let m = self.anti_layers[e] | (1u32 << layer);
        self.anti_layers.set(e, m);
    }

    pub fn transform(&self, e: usize) -> (r: Option<Transform>)
        requires
            self.wf(),
            e < self@.len(),
        ensures
            r == self@.transforms[e as int],
    {
        self.transforms[e]
    }

    pub fn collider(&self, e: usize) -> (r: Option<Collider>)
        requires
            self.wf(),
            e < self@.len(),
        ensures
            r == self@.colliders[e as int],
    {
        self.colliders[e]
    }

    pub fn rigid_body(&self, e: usize) -> (r: Option<RigidBody>)
        requires
            self.wf(),
            e < self@.len(),
        ensures
            r == self@.bodies[e as int],
    {
        self.bodies[e]
    }

    pub fn collisions(&self, e: usize) -> (r: Option<&Collisions>)
        requires
            self.wf(),
            e < self@.len(),
        ensures
            collisions_view(
                match r {
                    Some(c) => Some(*c),
                    None => None,
                },
            ) == self@.collisions[e as int],
    {
        match &self.collisions[e] {
            Some(c) => Some(c),
            None => None,
        }
    }

    /// Adds `pulse` to the force of the entity's rigid body, if it has one.
    pub fn impulse(&mut self, e: usize, pulse: Vec2)
        requires
            old(self).wf(),
            e < old(self)@.len(),
            pulse.in_world(),
        ensures
            final(self).wf(),
            final(self)@ == (WorldView {
                bodies: match old(self)@.bodies[e as int] {
                    Some(b) => old(self)@.bodies.update(
                        e as int,
                        Some(crate::physics::with_impulse(b, pulse)),
                    ),
                    None => old(self)@.bodies,
                },
                ..old(self)@
            }),
    {
        match self.bodies[e] {
            Some(b) => {
                let mut b = b;
                b.impulse(pulse);
                self.bodies.set(e, Some(b));
            },
            None => {},
        }
    }

    /// The entities that hold every component `q` asks for, in creation order.
    pub fn join(&self, q: Query) -> (r: Vec<usize>)
        requires
            self.wf(),
        ensures
            r@ == join_upto(self@, q, self@.len() as int),
    {
        let n = self.transforms.len();
        let mut r: Vec<usize> = Vec::new();
        let mut i: usize = 0;
        while i < n
            invariant
                self.wf(),
                n == self@.len(),
                i <= n,
                r@ == join_upto(self@, q, i as int),
            decreases n - i,
        {
            assert(self@.collisions[i as int] == collisions_view(self.collisions@[i as int]));
            if (!q.transform || self.transforms[i].is_some()) && (!q.collider
                || self.colliders[i].is_some()) && (!q.rigid_body || self.bodies[i].is_some()) && (
            !q.collisions || self.collisions[i].is_some()) {
                r.push(i);
            }
            i += 1;
        }
        r
    }

    pub fn attach_sprite(&mut self, e: usize, s: Sprite)
        requires
            old(self).wf(),
            e < old(self)@.len(),
            s.wf(),
        ensures
            final(self).wf(),
            final(self)@ == (WorldView {
                sprites: old(self)@.sprites.update(e as int, Some(s@)),
                ..old(self)@
            }),
    {
        let ghost sv = s@;
        self.sprites.set(e, Some(s));
        assert(self@.sprites =~= old(self)@.sprites.update(e as int, Some(sv)));
    }

    pub fn sprite(&self, e: usize) -> (r: Option<&Sprite>)
        requires
            self.wf(),
            e < self@.len(),
        ensures
            sprite_view(
                match r {
                    Some(s) => Some(*s),
                    None => None,
                },
            ) == self@.sprites[e as int],
    {
        match &self.sprites[e] {
            Some(s) => Some(s),
            None => None,
        }
    }

    /// Plays the animation `anim` on the entity's sprite, if it has one.
    pub fn play_animation(&mut self, e: usize, anim: String)
        requires
            old(self).wf(),
            e < old(self)@.len(),
        ensures
            final(self).wf(),
            final(self)@ == (WorldView {
                sprites: match old(self)@.sprites[e as int] {
                    Some(s) => old(self)@.sprites.update(e as int, Some(played(s, anim@))),
                    None => old(self)@.sprites,
                },
                ..old(self)@
            }),
    {
        assert(self@.sprites[e as int] == sprite_view(self.sprites@[e as int]));
        if self.sprites[e].is_some() {
            let slot = self.sprites.remove(e);
            match slot {
                Some(s) => {
                    let mut s = s;
                    s.animation(anim);
                    self.sprites.insert(e, Some(s));
                },
                None => {
                    self.sprites.insert(e, None);
                },
            }
            assert forall|k: int| 0 <= k < old(self)@.len() && k != e implies self@.sprites[k] == old(self)@.sprites[k] by {
                assert(self@.sprites[k] == sprite_view(self.sprites@[k]));
                assert(old(self)@.sprites[k] == sprite_view(old(self).sprites@[k]));
            }
            assert(self@.sprites[e as int] == sprite_view(self.sprites@[e as int]));
            assert(self@.sprites =~= old(self)@.sprites.update(
                e as int,
                Some(played(old(self)@.sprites[e as int].unwrap(), anim@)),
            ));
        }
    }

    /// Advances the animation of every sprite.
    pub fn update_sprites(&mut self)
        requires
            old(self).wf(),
        ensures
            final(self).wf(),
            final(self)@ == sprites_view(old(self)@),
    {
        let n = self.sprites.len();
        let ghost v = old(self)@;
        let mut i: usize = 0;
        while i < n
            invariant
                self.wf(),
                v == old(self)@,
                v.wf(),
                n == self@.len(),
                n == v.len(),
                i <= n,
                self@ == (WorldView { sprites: self@.sprites, ..v }),
                forall|k: int| 0 <= k < i ==> self@.sprites[k] == sprites_view(v).sprites[k],
                forall|k: int| i <= k < n ==> self@.sprites[k] == v.sprites[k],
            decreases n - i,
        {
            assert(self@.sprites[i as int] == sprite_view(self.sprites@[i as int]));
            if self.sprites[i].is_some() {
                let ghost before = self.sprites@;
                let ghost before_view = self@;
                let slot = self.sprites.remove(i);
                match slot {
                    Some(s) => {
                        let mut s = s;
                        s.update();
                        let ghost sv = s@;
                        self.sprites.insert(i, Some(s));
                        assert(self@.sprites[i as int] == Some(sv));
                    },
                    None => {
                        self.sprites.insert(i, None);
                    },
                }
                assert forall|k: int| 0 <= k < n && k != i implies self.sprites@[k] == before[k] by {}
                assert forall|k: int| 0 <= k < n implies #[trigger] self@.sprites[k] == sprite_view(self.sprites@[k]) by {}
                assert forall|k: int| 0 <= k < n && k != i implies self@.sprites[k] == sprite_view(before[k]) by {}
                assert forall|k: int| 0 <= k < n && self@.sprites[k] is Some implies self@.sprites[k].unwrap().wf() by {
                    if k != i {
                        assert(before_view.sprites[k] == sprite_view(before[k]));
                    }
                }
            }
            i += 1;
        }
        assert(self@.sprites =~= sprites_view(v).sprites);
    }

    /// Advances every entity that has a transform and a rigid body by one step.
    pub fn physics(&mut self, gravity: Vec2)
        requires
            old(self).wf(),
            gravity.in_world(),
        ensures
            final(self).wf(),
            final(self)@ == physics_view(old(self)@, gravity),
    {
        let n = self.transforms.len();
        let mut i: usize = 0;
        while i < n
            invariant
                self.wf(),
                old(self).wf(),
                gravity.in_world(),
                n == self@.len(),
                n == old(self)@.len(),
                i <= n,
                self@.colliders == old(self)@.colliders,
                self@.collisions == old(self)@.collisions,
                self@.layers == old(self)@.layers,
                self@.anti_layers == old(self)@.anti_layers,
                self@.sprites == old(self)@.sprites,
                forall|k: int|
                    0 <= k < i ==> self@.transforms[k] == moved_transform(old(self)@, k, gravity)
                        && self@.bodies[k] == moved_body(old(self)@, k, gravity),
                forall|k: int|
                    i <= k < n ==> self@.transforms[k] == old(self)@.transforms[k]
                        && self@.bodies[k] == old(self)@.bodies[k],
            decreases n - i,
        {
            match (self.transforms[i], self.bodies[i]) {
                (Some(t), Some(b)) => {
                    let mut b = b;
                    let mut pos = t.position;
                    b.step(&mut pos, gravity);
                    self.transforms.set(i, Some(Transform { position: pos, ..t }));
                    self.bodies.set(i, Some(b));
                },
                _ => {},
            }
            i += 1;
        }
        assert(self@.transforms =~= physics_view(old(self)@, gravity).transforms);
        assert(self@.bodies =~= physics_view(old(self)@, gravity).bodies);
    }

    /// The collisions of entity `i`, whose collider is `c1` and transform `t1`,
    /// with its partners under `filter`, and whether one pushes it upward.
    fn hits_of(&self, i: usize, filter: Option<u32>, c1: Collider, t1: Transform) -> (r: (
        Vec<Collision>,
        bool,
    ))
        requires
            self.wf(),
            valid_filter(filter),
            i < self@.len(),
            self@.colliders[i as int] == Some(c1),
            self@.transforms[i as int] == Some(t1),
        ensures
            r.0@ == hits(self@, i as int, filter, self@.len() as int),
            r.1 == pushes_up(r.0@),
    {
        let n = self.transforms.len();
        let mut list: Vec<Collision> = Vec::new();
        let mut bottom = false;
        let mut j: usize = 0;
        while j < n
            invariant
                self.wf(),
                valid_filter(filter),
                n == self@.len(),
                i < n,
                j <= n,
                self@.colliders[i as int] == Some(c1),
                self@.transforms[i as int] == Some(t1),
                list@ == hits(self@, i as int, filter, j as int),
                bottom == pushes_up(list@),
            decreases n - j,
        {
            if j != i && member_exec(self.layers[j], filter) && !excluded_exec(
                self.anti_layers[j],
                filter,
            ) {
                match (self.colliders[j], self.transforms[j]) {
                    (Some(c2), Some(t2)) => {
                        match c1.0.collide_with(&c2.0, t1.position, t2.position) {
                            Some(m) => {
                                let ghost before = list@;
                                let c = Collision { with: j, at: m };
                                list.push(c);
                                if m.y > 0 {
                                    bottom = true;
                                }
                                proof {
                                    assert(list@ == before.push(c));
                                    if pushes_up(before) {
                                        let w = choose|k: int|
                                            0 <= k < before.len() && before[k].at.y
                                                > 0;
                                        assert(list@[w] == before[w]);
                                    }
                                    if m.y > 0 {
                                        assert(list@[before.len() as int] == c);
                                    }
                                    if !pushes_up(before) && m.y <= 0 {
                                        assert forall|k: int|
                                            0 <= k < list@.len() implies !(
                                        list@[k].at.y > 0) by {
                                            if k < before.len() {
                                                assert(list@[k] == before[k]);
                                            }
                                        }
                                    }
                                }
                            },
                            None => {},
                        }
                    },
                    _ => {},
                }
            }
            j += 1;
        }
        (list, bottom)
    }

    /// Recomputes, for every entity that records collisions under `filter`, its
    /// collisions with the partners under that filter.
    pub fn detect(&mut self, filter: Option<u32>)
        requires
            old(self).wf(),
            valid_filter(filter),
        ensures
            final(self).wf(),
            final(self)@ == detect_view(old(self)@, filter),
    {
        let n = self.transforms.len();
        let ghost v = old(self)@;
        let mut i: usize = 0;
        while i < n
            invariant
                self.wf(),
                v.wf(),
                v == old(self)@,
                valid_filter(filter),
                n == self@.len(),
                n == v.len(),
                i <= n,
                self@.transforms == v.transforms,
                self@.colliders == v.colliders,
                self@.bodies == v.bodies,
                self@.layers == v.layers,
                self@.anti_layers == v.anti_layers,
                self@.sprites == v.sprites,
                forall|k: int| 0 <= k < i ==> self@.collisions[k] == detected(v, k, filter),
                forall|k: int| i <= k < n ==> self@.collisions[k] == v.collisions[k],
            decreases n - i,
        {
            assert(self@.collisions[i as int] == collisions_view(self.collisions@[i as int]));
            if self.collisions[i].is_some() && member_exec(self.layers[i], filter) {
                match (self.colliders[i], self.transforms[i]) {
                    (Some(c1), Some(t1)) => {
                        let (list, bottom) = self.hits_of(i, filter, c1, t1);
                        proof {
                            lemma_hits_same(self@, v, i as int, filter, n as int);
                        }
                        let ghost h = list@;
                        self.collisions.set(i, Some(Collisions { list, hit_bottom: bottom }));
                        assert(self@.collisions[i as int] == Some((h, bottom)));
                    },
                    _ => {},
                }
            }
            proof {
                assert forall|k: int| 0 <= k <= i implies self@.collisions[k] == detected(
                    v,
                    k,
                    filter,
                ) by {
                    if k < i {
                    } else {
                        assert(self@.collisions[k] == collisions_view(self.collisions@[k]));
                    }
                }
            }
            i += 1;
        }
        assert(self@.collisions =~= detect_view(v, filter).collisions);
    }

    /// Applies, for every entity with collisions, a transform and a rigid body,
    /// all its recorded collisions in order.
    pub fn repulse(&mut self)
        requires
            old(self).wf(),
        ensures
            final(self).wf(),
            final(self)@ == repulse_view(old(self)@),
    {
        let n = self.transforms.len();
        let ghost v = old(self)@;
        let mut i: usize = 0;
        while i < n
            invariant
                self.wf(),
                v.wf(),
                v == old(self)@,
                n == self@.len(),
                n == v.len(),
                i <= n,
                self@.colliders == v.colliders,
                self@.collisions == v.collisions,
                self@.layers == v.layers,
                self@.anti_layers == v.anti_layers,
                self@.sprites == v.sprites,
                forall|k: int|
                    0 <= k < i ==> self@.transforms[k] == repulse_view(v).transforms[k]
                        && self@.bodies[k] == repulse_view(v).bodies[k],
                forall|k: int|
                    i <= k < n ==> self@.transforms[k] == v.transforms[k] && self@.bodies[k]
                        == v.bodies[k],
            decreases n - i,
        {
            assert(self@.collisions[i as int] == collisions_view(self.collisions@[i as int]));
            match (&self.collisions[i], self.transforms[i], self.bodies[i]) {
                (Some(cs), Some(t0), Some(b0)) => {
                    let mut t = t0;
                    let mut b = b0;
                    let mut k: usize = 0;
                    while k < cs.list.len()
                        invariant
                            t0.wf(),
                            b0.wf(),
                            t.wf(),
                            b.wf(),
                            k <= cs.list@.len(),
                            (t, b) == push_all((t0, b0), cs.list@, k as int),
                        decreases cs.list@.len() - k,
                    {
                        push_one_exec(&mut t, &mut b, cs.list[k].at);
                        k += 1;
                    }
                    self.transforms.set(i, Some(t));
                    self.bodies.set(i, Some(b));
                },
                _ => {},
            }
            i += 1;
        }
        assert(self@.transforms =~= repulse_view(v).transforms);
        assert(self@.bodies =~= repulse_view(v).bodies);
    }
}

/// A world together with the configuration of its tick.
pub struct Game {
    pub world: World,
    /// The acceleration that every movable body receives each tick.
    pub gravity: Vec2,
    /// The filters under which collisions are detected, in order: a layer, or
    /// `None` for all entities.
    pub layers: Vec<Option<u32>>,
}

impl Game {
    /// The gravity, on both axes, and the layers are valid.
    pub open spec fn wf(&self) -> bool {
        &&& self.world.wf()
        &&& self.gravity.in_world()
        &&& forall|k: int| 0 <= k < self.layers@.len() ==> valid_filter(self.layers@[k])
    }

    /// An empty game with the default gravity and detection in layers 0 then 1.
    pub fn new() -> (r: Self)
        ensures
            r.wf(),
            r.world@.len() == 0,
            r.gravity@ == (0int, GRAVITY_Y as int),
            r.layers@ == seq![Some(0u32), Some(1u32)],
    {
        let mut layers: Vec<Option<u32>> = Vec::new();
        layers.push(Some(0));
        layers.push(Some(1));
        Game { world: World::new(), gravity: Vec2 { x: 0, y: GRAVITY_Y }, layers }
    }

    /// An empty game with the given gravity and detection filters.
    pub fn with_config(gravity: Vec2, layers: Vec<Option<u32>>) -> (r: Self)
        requires
            gravity.in_world(),
            forall|k: int| 0 <= k < layers@.len() ==> valid_filter(layers@[k]),
        ensures
            r.wf(),
            r.world@.len() == 0,
            r.gravity == gravity,
            r.layers@ == layers@,
    {
        Game { world: World::new(), gravity, layers }
    }

    /// Runs one tick: physics, detection in each layer in turn, repulsion.
    pub fn run_sys(&mut self)
        requires
            old(self).wf(),
        ensures
            final(self).wf(),
            final(self)@ == old(self)@,
            final(self).world@ == tick_view(old(self).world@, old(self).gravity, old(self).layers@),
            final(self).world@.len() == old(self).world@.len(),
    {
        let ghost v0 = self.world@;
        self.world.physics(self.gravity);
        let mut k: usize = 0;
        while k < self.layers.len()
            invariant
                self.wf(),
                self.gravity == old(self).gravity,
                self.layers@ == old(self).layers@,
                self.world@.len() == old(self).world@.len(),
                k <= self.layers@.len(),
                self.world@ == detect_layers(
                    physics_view(v0, self.gravity),
                    self.layers@,
                    k as int,
                ),
            decreases self.layers@.len() - k,
        {
            self.world.detect(self.layers[k]);
            k += 1;
        }
        self.world.repulse();
        self.world.update_sprites();
    }
}

impl View for Game {
    type V = (Vec2, Seq<Option<u32>>);

    /// The configuration: gravity and detection filters.
    open spec fn view(&self) -> (Vec2, Seq<Option<u32>>) {
        (self.gravity, self.layers@)
    }
}

} // verus!
