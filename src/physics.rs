//! Rigid bodies and the semi-implicit Euler step that moves them.
use vstd::prelude::*;
use crate::vector::{clamp_add, in_world, to_vec, Vec2, WORLD_LIMIT};

verus! {

/// The default gravity, in engine units per tick squared: 9.9 pixels per second
/// squared, downward, at 60 ticks per second.
pub const GRAVITY_Y: i64 = -165;

/// `a / b` rounded toward zero.
pub open spec fn trunc_div(a: int, b: int) -> int {
    if a >= 0 {
        a / b
    } else {
        -((-a) / b)
    }
}

#[derive(Clone, Copy, Debug, PartialEq, Eq, Structural)]
pub struct RigidBody {
    /// Mass; a body of mass zero or less is immovable.
    pub mass: i64,
    /// The impulses received since the last step.
    pub force: Vec2,
    pub acceleration: Vec2,
    pub velocity: Vec2,
}

/// The acceleration of a step: the force divided by the mass, plus gravity, for
/// a movable body; zero for an immovable one.
pub open spec fn step_acceleration(b: RigidBody, gravity: Vec2) -> (int, int) {
    if b.mass > 0 {
        clamp_add((trunc_div(b.force.x as int, b.mass as int), trunc_div(b.force.y as int, b.mass as int)), gravity@)
    } else {
        (0, 0)
    }
}

/// The velocity after a step: the old one plus the step's acceleration, for a
/// movable body; zero for an immovable one.
pub open spec fn step_velocity(b: RigidBody, gravity: Vec2) -> (int, int) {
    if b.mass > 0 {
        clamp_add(b.velocity@, step_acceleration(b, gravity))
    } else {
        (0, 0)
    }
}

/// The body after a step: its force is used up.
pub open spec fn stepped_body(b: RigidBody, gravity: Vec2) -> RigidBody {
    RigidBody {
        mass: b.mass,
        force: Vec2 { x: 0, y: 0 },
        acceleration: to_vec(step_acceleration(b, gravity)),
        velocity: to_vec(step_velocity(b, gravity)),
    }
}

/// The position after a step: moved by the new velocity.
pub open spec fn stepped_position(p: Vec2, b: RigidBody, gravity: Vec2) -> Vec2 {
    to_vec(clamp_add(p@, step_velocity(b, gravity)))
}

/// The body with `pulse` added to its force.
pub open spec fn with_impulse(b: RigidBody, pulse: Vec2) -> RigidBody {
    RigidBody { force: to_vec(clamp_add(b.force@, pulse@)), ..b }
}

/// Body and position after `n` steps.
pub open spec fn steps(b: RigidBody, p: Vec2, gravity: Vec2, n: nat) -> (RigidBody, Vec2)
    decreases n,
{
    if n == 0 {
        (b, p)
    } else {
        let (b1, p1) = steps(b, p, gravity, (n - 1) as nat);
        (stepped_body(b1, gravity), stepped_position(p1, b1, gravity))
    }
}

impl RigidBody {
    /// Force, acceleration and velocity lie inside the world.
    pub open spec fn wf(&self) -> bool {
        self.force.in_world() && self.acceleration.in_world() && self.velocity.in_world()
    }

    /// Adds `pulse` to the force that the next step uses up.
    pub fn impulse(&mut self, pulse: Vec2)
        requires
            old(self).wf(),
            pulse.in_world(),
        ensures
            *final(self) == with_impulse(*old(self), pulse),
            final(self).wf(),
    {
        self.force = self.force.plus(pulse);
    }

    /// One step of semi-implicit Euler integration, moving `position`.
    pub fn step(&mut self, position: &mut Vec2, gravity: Vec2)
        requires
            old(self).wf(),
            old(position).in_world(),
            gravity.in_world(),
        ensures
            *final(self) == stepped_body(*old(self), gravity),
            *final(position) == stepped_position(*old(position), *old(self), gravity),
            final(self).wf(),
            final(position).in_world(),
    {
        if self.mass > 0 {
            let fx = if self.force.x >= 0 {
                self.force.x / self.mass
            } else {
                -((-self.force.x) / self.mass)
            };
            let fy = if self.force.y >= 0 {
                self.force.y / self.mass
            } else {
                -((-self.force.y) / self.mass)
            };
            proof {
                assert(-WORLD_LIMIT <= fx <= WORLD_LIMIT) by (nonlinear_arith)
                    requires
                        fx == trunc_div(self.force.x as int, self.mass as int),
                        in_world(self.force.x as int),
                        self.mass >= 1,
                ;
                assert(-WORLD_LIMIT <= fy <= WORLD_LIMIT) by (nonlinear_arith)
                    requires
                        fy == trunc_div(self.force.y as int, self.mass as int),
                        in_world(self.force.y as int),
                        self.mass >= 1,
                ;
            }
            self.acceleration = Vec2 { x: fx, y: fy }.plus(gravity);
            self.velocity = self.velocity.plus(self.acceleration);
        } else {
            self.acceleration = Vec2 { x: 0, y: 0 };
            self.velocity = Vec2 { x: 0, y: 0 };
        }
        self.force = Vec2 { x: 0, y: 0 };
        *position = position.plus(self.velocity);
    }
}

/// An immovable body keeps its position, and has zero velocity and
/// acceleration, after any number of steps.
pub proof fn lemma_immovable(b: RigidBody, p: Vec2, gravity: Vec2, n: nat)
    requires
        b.mass <= 0,
        p.in_world(),
        n >= 1,
    ensures
        steps(b, p, gravity, n).0.velocity@ == (0int, 0int),
        steps(b, p, gravity, n).0.acceleration@ == (0int, 0int),
        steps(b, p, gravity, n).1 == p,
        steps(b, p, gravity, n).0.mass == b.mass,
    decreases n,
{
    let (b1, p1) = steps(b, p, gravity, (n - 1) as nat);
    if n > 1 {
        lemma_immovable(b, p, gravity, (n - 1) as nat);
    }
    assert(b1.mass <= 0);
    assert(p1 == p);
    assert(step_velocity(b1, gravity) == (0int, 0int));
    assert(clamp_add(p1@, (0int, 0int)) == p@);
    assert(stepped_position(p1, b1, gravity) == p);
}

/// An impulse acts on exactly one step: the step after it adds `pulse / mass` to
/// the acceleration from gravity, and the step after that has gravity alone.
pub proof fn lemma_impulse_decay(b: RigidBody, pulse: Vec2, gravity: Vec2)
    requires
        b.wf(),
        b.mass > 0,
        b.force@ == (0int, 0int),
        pulse.in_world(),
        gravity.in_world(),
    ensures
        ({
            let b1 = stepped_body(with_impulse(b, pulse), gravity);
            let b2 = stepped_body(b1, gravity);
            &&& b1.acceleration@ == clamp_add(
                (trunc_div(pulse.x as int, b.mass as int), trunc_div(pulse.y as int, b.mass as int)),
                gravity@,
            )
            &&& b1.force@ == (0int, 0int)
            &&& b2.acceleration == gravity
        }),
{
    let b1 = stepped_body(with_impulse(b, pulse), gravity);
    assert(with_impulse(b, pulse).force@ == pulse@);
    assert(trunc_div(0, b.mass as int) == 0);
    assert(stepped_body(b1, gravity).acceleration@ == gravity@);
}

/// Collects the parts of a rigid body; an unset mass is zero.
pub struct RigidBodyBuilder {
    mass: Option<i64>,
}

impl View for RigidBodyBuilder {
    type V = Option<i64>;

    closed spec fn view(&self) -> Option<i64> {
        self.mass
    }
}

impl RigidBodyBuilder {
    pub fn new() -> (r: Self)
        ensures
            r@ == None::<i64>,
    {
        RigidBodyBuilder { mass: None }
    }

    pub fn set_mass(self, mass: i64) -> (r: Self)
        ensures
            r@ == Some(mass),
    {
        RigidBodyBuilder { mass: Some(mass) }
    }

    /// A body at rest with the chosen mass.
    pub fn build(self) -> (r: RigidBody)
        ensures
            r.mass == (match self@ {
                Some(m) => m,
                None => 0,
            }),
            r.force@ == (0int, 0int),
            r.acceleration@ == (0int, 0int),
            r.velocity@ == (0int, 0int),
            r.wf(),
    {
        RigidBody {
            mass: match self.mass {
                Some(x) => x,
                None => 0,
            },
            force: Vec2 { x: 0, y: 0 },
            acceleration: Vec2 { x: 0, y: 0 },
            velocity: Vec2 { x: 0, y: 0 },
        }
    }
}

} // verus!
