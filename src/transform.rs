//! Where an entity stands and which way it faces.
use vstd::prelude::*;
use crate::vector::{clamp_add, Vec2};

verus! {

#[derive(Clone, Copy, Debug, PartialEq, Eq, Structural)]
pub struct Transform {
    pub position: Vec2,
    /// Rotation, in the caller's units; the physics does not read it.
    pub rotation: i64,
    /// Scale; the sign of `scale.x` tells whether the entity faces right (positive)
    /// or left (negative).
    pub scale: Vec2,
}

/// The transform at the origin, unrotated, with scale `(1, 1)`.
pub open spec fn default_transform() -> Transform {
    Transform { position: Vec2 { x: 0, y: 0 }, rotation: 0, scale: Vec2 { x: 1, y: 1 } }
}

impl Default for Transform {
    fn default() -> (r: Self)
        ensures
            r == default_transform(),
    {
        Transform { position: Vec2 { x: 0, y: 0 }, rotation: 0, scale: Vec2 { x: 1, y: 1 } }
    }
}

impl Transform {
    /// Position and scale lie inside the world.
    pub open spec fn wf(&self) -> bool {
        self.position.in_world() && self.scale.in_world()
    }

    pub fn position(&self) -> (r: &Vec2)
        ensures
            *r == self.position,
    {
        &self.position
    }

    pub fn position_mut(&mut self) -> (r: &mut Vec2)
        ensures
            *r == old(self).position,
            *final(self) == (Transform { position: *final(r), ..*old(self) }),
    {
        &mut self.position
    }

    pub fn scale(&self) -> (r: &Vec2)
        ensures
            *r == self.scale,
    {
        &self.scale
    }

    pub fn scale_mut(&mut self) -> (r: &mut Vec2)
        ensures
            *r == old(self).scale,
            *final(self) == (Transform { scale: *final(r), ..*old(self) }),
    {
        &mut self.scale
    }

    /// Moves the position by `other`, stopping at the edge of the world.
    pub fn translate(&mut self, other: Vec2)
        requires
            old(self).wf(),
            other.in_world(),
        ensures
            final(self).position@ == clamp_add(old(self).position@, other@),
            final(self).rotation == old(self).rotation,
            final(self).scale == old(self).scale,
            final(self).wf(),
    {
        self.position = self.position.plus(other);
    }

    /// Turns the entity around.
    pub fn flip_side(&mut self)
        requires
            old(self).wf(),
        ensures
            *final(self) == (Transform {
                scale: Vec2 { x: -old(self).scale.x as i64, y: old(self).scale.y },
                ..*old(self)
            }),
            final(self).wf(),
    {
        self.scale.x = -self.scale.x;
    }

    /// Makes the entity face left, flipping it if it faces right.
    pub fn face_left(&mut self)
        requires
            old(self).wf(),
        ensures
            old(self).scale.x > 0 ==> final(self).scale.x == -old(self).scale.x,
            old(self).scale.x <= 0 ==> final(self).scale.x == old(self).scale.x,
            final(self).scale.y == old(self).scale.y,
            final(self).position == old(self).position,
            final(self).rotation == old(self).rotation,
            final(self).wf(),
    {
        if self.scale.x > 0 {
            self.flip_side();
        }
    }

    /// Makes the entity face right, flipping it if it faces left.
    pub fn face_right(&mut self)
        requires
            old(self).wf(),
        ensures
            old(self).scale.x < 0 ==> final(self).scale.x == -old(self).scale.x,
            old(self).scale.x >= 0 ==> final(self).scale.x == old(self).scale.x,
            final(self).scale.y == old(self).scale.y,
            final(self).position == old(self).position,
            final(self).rotation == old(self).rotation,
            final(self).wf(),
    {
        if self.scale.x < 0 {
            self.flip_side();
        }
    }
}

/// Collects the parts of a transform; the ones left unset take the values of
/// `default_transform`.
pub struct TransformBuilder {
    position: Option<Vec2>,
    rotation: Option<i64>,
    scale: Option<Vec2>,
}

impl View for TransformBuilder {
    type V = (Option<Vec2>, Option<i64>, Option<Vec2>);

    closed spec fn view(&self) -> Self::V {
        (self.position, self.rotation, self.scale)
    }
}

impl TransformBuilder {
    pub fn new() -> (r: Self)
        ensures
            r@ == (None::<Vec2>, None::<i64>, None::<Vec2>),
    {
        TransformBuilder { position: None, rotation: None, scale: None }
    }

    pub fn position(self, pos: Vec2) -> (r: Self)
        ensures
            r@ == (Some(pos), self@.1, self@.2),
    {
        TransformBuilder { position: Some(pos), ..self }
    }

    pub fn rotation(self, rot: i64) -> (r: Self)
        ensures
            r@ == (self@.0, Some(rot), self@.2),
    {
        TransformBuilder { rotation: Some(rot), ..self }
    }

    pub fn scale(self, scal: Vec2) -> (r: Self)
        ensures
            r@ == (self@.0, self@.1, Some(scal)),
    {
        TransformBuilder { scale: Some(scal), ..self }
    }

    pub fn build(self) -> (r: Transform)
        ensures
            r.position == (match self@.0 {
                Some(p) => p,
                None => default_transform().position,
            }),
            r.rotation == (match self@.1 {
                Some(a) => a,
                None => default_transform().rotation,
            }),
            r.scale == (match self@.2 {
                Some(s) => s,
                None => default_transform().scale,
            }),
    {
        Transform {
            position: match self.position {
                Some(v) => v,
                None => Vec2 { x: 0, y: 0 },
            },
            rotation: match self.rotation {
                Some(v) => v,
                None => 0,
            },
            scale: match self.scale {
                Some(v) => v,
                None => Vec2 { x: 1, y: 1 },
            },
        }
    }
}

/// The point of view: the world is drawn around its transform.
pub struct Camera {
    transform: Transform,
}

impl View for Camera {
    type V = Transform;

    closed spec fn view(&self) -> Transform {
        self.transform
    }
}

impl Default for Camera {
    fn default() -> (r: Self)
        ensures
            r@ == default_transform(),
    {
        Camera { transform: Transform::default() }
    }
}

impl Camera {
    pub fn transform(&self) -> (r: &Transform)
        ensures
            *r == self@,
    {
        &self.transform
    }

    pub fn transform_mut(&mut self) -> (r: &mut Transform)
        ensures
            *r == old(self)@,
            final(self)@ == *final(r),
    {
        &mut self.transform
    }
}

} // verus!
