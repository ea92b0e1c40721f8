//! The player's controller: key presses and ground contact decide how the
//! player moves and which animation it plays.
use vstd::prelude::*;
use vstd::string::StringExecFns;
use crate::input::KeyPress;
use crate::physics::{with_impulse, RigidBody};
use crate::transform::Transform;
use crate::vector::{clamp_add, to_vec, Vec2, UNITS_PER_PIXEL};

verus! {

/// Ticks that an attack lasts.
pub const ATTACK_TICKS: i32 = 15;

/// Upward impulse of a jump, in engine units.
pub const JUMP_IMPULSE: i64 = 50 * UNITS_PER_PIXEL;

/// Walking speed, in engine units per tick; running is twice as fast.
pub const WALK_SPEED: i64 = UNITS_PER_PIXEL;

#[derive(Clone, Copy, Debug)]
pub enum PlayerState {
    Idle,
    Walk,
    Jump,
    /// Attacking, with the ticks left.
    Attack(i32),
}

/// Two states are the same kind when they are the same variant; the ticks left
/// of an attack do not count.
pub open spec fn same_kind(a: PlayerState, b: PlayerState) -> bool {
    match (a, b) {
        (PlayerState::Idle, PlayerState::Idle) => true,
        (PlayerState::Walk, PlayerState::Walk) => true,
        (PlayerState::Jump, PlayerState::Jump) => true,
        (PlayerState::Attack(_), PlayerState::Attack(_)) => true,
        _ => false,
    }
}

impl PartialEq for PlayerState {
    fn eq(&self, other: &PlayerState) -> (r: bool)
        ensures
            r == same_kind(*self, *other),
    {
        match (self, other) {
            (PlayerState::Idle, PlayerState::Idle) => true,
            (PlayerState::Walk, PlayerState::Walk) => true,
            (PlayerState::Jump, PlayerState::Jump) => true,
            (PlayerState::Attack(_), PlayerState::Attack(_)) => true,
            _ => false,
        }
    }
}

impl vstd::std_specs::cmp::PartialEqSpecImpl for PlayerState {
    open spec fn obeys_eq_spec() -> bool {
        true
    }

    open spec fn eq_spec(&self, other: &PlayerState) -> bool {
        same_kind(*self, *other)
    }
}

impl Default for PlayerState {
    fn default() -> (r: Self)
        ensures
            r is Idle,
    {
        PlayerState::Idle
    }
}

/// The name of the animation that goes with a state.
pub open spec fn animation_name(s: PlayerState) -> Seq<char> {
    match s {
        PlayerState::Idle => "idle"@,
        PlayerState::Walk => "walk"@,
        PlayerState::Jump => "jump_beg"@,
        PlayerState::Attack(_) => "attack"@,
    }
}

impl PlayerState {
    pub fn to_string(&self) -> (r: String)
        ensures
            r@ == animation_name(*self),
    {
        match self {
            PlayerState::Idle => String::from_str("idle"),
            PlayerState::Walk => String::from_str("walk"),
            PlayerState::Jump => String::from_str("jump_beg"),
            PlayerState::Attack(_) => String::from_str("attack"),
        }
    }
}

/// The state that a tick leads to, before kinds are compared.
pub open spec fn wanted_state(s: PlayerState, kp: KeyPress, on_ground: bool) -> PlayerState {
    match s {
        PlayerState::Idle | PlayerState::Walk => {
            let s1 = if kp.key_d || kp.key_a {
                PlayerState::Walk
            } else {
                PlayerState::Idle
            };
            let s2 = if kp.key_w {
                PlayerState::Jump
            } else {
                s1
            };
            let s3 = if kp.key_k {
                PlayerState::Attack(ATTACK_TICKS)
            } else {
                s2
            };
            if !on_ground {
                PlayerState::Jump
            } else {
                s3
            }
        },
        PlayerState::Jump => {
            let s1 = if kp.key_k {
                PlayerState::Attack(ATTACK_TICKS)
            } else {
                PlayerState::Jump
            };
            if on_ground {
                PlayerState::Idle
            } else {
                s1
            }
        },
        PlayerState::Attack(n) => {
            if left_ticks(n) < 0 {
                if on_ground {
                    PlayerState::Idle
                } else {
                    PlayerState::Jump
                }
            } else {
                s
            }
        },
    }
}

/// The ticks left of an attack after one more tick, stopping at `i32::MIN`.
pub open spec fn left_ticks(n: i32) -> int {
    if n > i32::MIN {
        n - 1
    } else {
        n as int
    }
}

/// The state after a tick: the wanted state when its kind differs; otherwise
/// the old one, with one tick less of an attack.
pub open spec fn next_state(s: PlayerState, kp: KeyPress, on_ground: bool) -> PlayerState {
    let w = wanted_state(s, kp, on_ground);
    if !same_kind(w, s) {
        w
    } else {
        match s {
            PlayerState::Attack(n) => PlayerState::Attack(left_ticks(n) as i32),
            _ => s,
        }
    }
}

/// The walking speed for the keys held.
pub open spec fn speed(kp: KeyPress) -> int {
    if !kp.shift_left {
        2 * WALK_SPEED
    } else {
        WALK_SPEED as int
    }
}

/// `t` moved by `dx` along x, facing right (`right`) or left.
pub open spec fn stepped_aside(t: Transform, dx: int, right: bool) -> Transform {
    Transform {
        position: to_vec(clamp_add(t.position@, (dx, 0))),
        scale: Vec2 {
            x: (if (right && t.scale.x < 0) || (!right && t.scale.x > 0) {
                -t.scale.x
            } else {
                t.scale.x as int
            }) as i64,
            y: t.scale.y,
        },
        ..t
    }
}

/// The transform after a tick: a step right for D, then a step left for A.
pub open spec fn walked(t: Transform, kp: KeyPress) -> Transform {
    let t1 = if kp.key_d {
        stepped_aside(t, speed(kp), true)
    } else {
        t
    };
    if kp.key_a {
        stepped_aside(t1, -speed(kp), false)
    } else {
        t1
    }
}

/// The rigid body after a tick: W on the ground, or while walking, jumps.
pub open spec fn jumped(s: PlayerState, kp: KeyPress, r: RigidBody) -> RigidBody {
    if (s is Idle || s is Walk) && kp.key_w {
        with_impulse(r, Vec2 { x: 0, y: JUMP_IMPULSE })
    } else {
        r
    }
}

/// The player component.
#[derive(Clone, Copy, Debug)]
pub struct Player {
    pub state: PlayerState,
}

impl Player {
    pub fn new() -> (r: Player)
        ensures
            r.state is Idle,
    {
        Player { state: PlayerState::Idle }
    }

    fn step_aside(t: &mut Transform, dx: i64, right: bool)
        requires
            old(t).wf(),
            -2 * WALK_SPEED <= dx <= 2 * WALK_SPEED,
        ensures
            *final(t) == stepped_aside(*old(t), dx as int, right),
            final(t).wf(),
    {
        t.translate(Vec2 { x: dx, y: 0 });
        if right {
            t.face_right();
        } else {
            t.face_left();
        }
    }

    /// One tick of control: moves `t`, may give `r` a jump impulse, and changes
    /// the state. Returns the name of the animation to play when the kind of
    /// state changes.
    pub fn control(
        &mut self,
        kp: &KeyPress,
        on_ground: bool,
        t: &mut Transform,
        r: &mut RigidBody,
    ) -> (anim: Option<String>)
        requires
            old(t).wf(),
            old(r).wf(),
        ensures
            final(self).state == next_state(old(self).state, *kp, on_ground),
            *final(t) == walked(*old(t), *kp),
            *final(r) == jumped(old(self).state, *kp, *old(r)),
            final(t).wf(),
            final(r).wf(),
            match anim {
                Some(a) => !same_kind(wanted_state(old(self).state, *kp, on_ground), old(self).state)
                    && a@ == animation_name(wanted_state(old(self).state, *kp, on_ground)),
                None => same_kind(wanted_state(old(self).state, *kp, on_ground), old(self).state),
            },
    {
        let speed: i64 = if !kp.shift_left {
            2 * WALK_SPEED
        } else {
            WALK_SPEED
        };
        if kp.key_d {
            Player::step_aside(t, speed, true);
        }
        if kp.key_a {
            Player::step_aside(t, -speed, false);
        }
        let old_state = self.state;
        let mut wanted = self.state;
        match self.state {
            PlayerState::Idle | PlayerState::Walk => {
                wanted = PlayerState::Idle;
                if kp.key_d {
                    wanted = PlayerState::Walk;
                }
                if kp.key_a {
                    wanted = PlayerState::Walk;
                }
                if kp.key_w {
                    wanted = PlayerState::Jump;
                    r.impulse(Vec2 { x: 0, y: JUMP_IMPULSE });
                }
                if kp.key_k {
                    wanted = PlayerState::Attack(ATTACK_TICKS);
                }
                if !on_ground {
                    wanted = PlayerState::Jump;
                }
            },
            PlayerState::Jump => {
                if kp.key_k {
                    wanted = PlayerState::Attack(ATTACK_TICKS);
                }
                if on_ground {
                    wanted = PlayerState::Idle;
                }
            },
            PlayerState::Attack(n) => {
                let left = if n > i32::MIN {
                    n - 1
                } else {
                    n
                };
                self.state = PlayerState::Attack(left);
                if left < 0 {
                    if on_ground {
                        wanted = PlayerState::Idle;
                    } else {
                        wanted = PlayerState::Jump;
                    }
                }
            },
        }
        if wanted != old_state {
            self.state = wanted;
            Some(wanted.to_string())
        } else {
            None
        }
    }
}

} // verus!
