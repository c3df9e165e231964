//! Entities: a shape with its transform and optional components.
use vstd::prelude::*;
use crate::components::{Clickable, Color, Physics, Shape, Transform};
use crate::scalar::Scalar;
use crate::vector::Vec2;

verus! {

/// Square of the distance from its anchor, a tenth of a unit, within which
/// a text counts as hit; in squared raw units.
pub const TEXT_REACH_SQUARED: u128 = 10_000_000_000_000_000;

/// One simulated object. The variant names the kind of shape it carries.
#[derive(Clone, Debug)]
pub enum Entity {
    Circle {
        transform: Transform,
        physics: Option<Physics>,
        shape: Shape,
        clickable: Option<Clickable>,
    },
    Text {
        transform: Transform,
        physics: Option<Physics>,
        shape: Shape,
        clickable: Option<Clickable>,
    },
    Rectangle {
        transform: Transform,
        physics: Option<Physics>,
        shape: Shape,
        clickable: Option<Clickable>,
    },
}

impl Entity {
    pub open spec fn spec_transform(self) -> Transform {
        match self {
            Entity::Circle { transform, .. } => transform,
            Entity::Text { transform, .. } => transform,
            Entity::Rectangle { transform, .. } => transform,
        }
    }

    pub open spec fn spec_physics(self) -> Option<Physics> {
        match self {
            Entity::Circle { physics, .. } => physics,
            Entity::Text { physics, .. } => physics,
            Entity::Rectangle { physics, .. } => physics,
        }
    }

    pub open spec fn spec_shape(self) -> Shape {
        match self {
            Entity::Circle { shape, .. } => shape,
            Entity::Text { shape, .. } => shape,
            Entity::Rectangle { shape, .. } => shape,
        }
    }

    pub open spec fn spec_clickable(self) -> Option<Clickable> {
        match self {
            Entity::Circle { clickable, .. } => clickable,
            Entity::Text { clickable, .. } => clickable,
            Entity::Rectangle { clickable, .. } => clickable,
        }
    }

    /// The same entity with `transform` in place of its own.
    pub open spec fn with_transform(self, transform: Transform) -> Entity {
        match self {
            Entity::Circle { physics, shape, clickable, .. } => Entity::Circle {
                transform,
                physics,
                shape,
                clickable,
            },
            Entity::Text { physics, shape, clickable, .. } => Entity::Text {
                transform,
                physics,
                shape,
                clickable,
            },
            Entity::Rectangle { physics, shape, clickable, .. } => Entity::Rectangle {
                transform,
                physics,
                shape,
                clickable,
            },
        }
    }

    /// The same entity with `physics` in place of its own.
    pub open spec fn with_physics_spec(self, physics: Option<Physics>) -> Entity {
        match self {
            Entity::Circle { transform, shape, clickable, .. } => Entity::Circle {
                transform,
                physics,
                shape,
                clickable,
            },
            Entity::Text { transform, shape, clickable, .. } => Entity::Text {
                transform,
                physics,
                shape,
                clickable,
            },
            Entity::Rectangle { transform, shape, clickable, .. } => Entity::Rectangle {
                transform,
                physics,
                shape,
                clickable,
            },
        }
    }

    /// The same entity with `shape` in place of its own.
    pub open spec fn with_shape(self, shape: Shape) -> Entity {
        match self {
            Entity::Circle { transform, physics, clickable, .. } => Entity::Circle {
                transform,
                physics,
                shape,
                clickable,
            },
            Entity::Text { transform, physics, clickable, .. } => Entity::Text {
                transform,
                physics,
                shape,
                clickable,
            },
            Entity::Rectangle { transform, physics, clickable, .. } => Entity::Rectangle {
                transform,
                physics,
                shape,
                clickable,
            },
        }
    }

    /// The same entity with `clickable` in place of its own.
    pub open spec fn with_clickable_spec(self, clickable: Option<Clickable>) -> Entity {
        match self {
            Entity::Circle { transform, physics, shape, .. } => Entity::Circle {
                transform,
                physics,
                shape,
                clickable,
            },
            Entity::Text { transform, physics, shape, .. } => Entity::Text {
                transform,
                physics,
                shape,
                clickable,
            },
            Entity::Rectangle { transform, physics, shape, .. } => Entity::Rectangle {
                transform,
                physics,
                shape,
                clickable,
            },
        }
    }

    /// The same entity at `position`, and with `velocity` where it has
    /// physics.
    pub open spec fn placed(self, position: Vec2, velocity: Vec2) -> Entity {
        let moved = self.with_transform(Transform { position, ..self.spec_transform() });
        match self.spec_physics() {
            Some(physics) => moved.with_physics_spec(Some(Physics { velocity, ..physics })),
            None => moved,
        }
    }

    /// Whether `point` lies on the entity: inside a circle's radius, inside
    /// a rectangle's half extents, or within a tenth of a unit of a text's
    /// anchor. Distances are compared exactly, in squared raw units.
    pub open spec fn covers(self, point: Vec2) -> bool {
        let offset = point.sub_spec(self.spec_transform().position);
        match self.spec_shape() {
            Shape::Circle { radius, .. } => offset.norm_sq() <= radius@ * radius@,
            Shape::Rectangle { length, height, .. } => {
                &&& offset.x.abs_spec()@ <= length.half_spec()@
                &&& offset.y.abs_spec()@ <= height.half_spec()@
            },
            Shape::Text { .. } => offset.norm_sq() <= TEXT_REACH_SQUARED,
        }
    }

    /// The shape is of the kind that the entity's variant names.
    pub open spec fn well_formed(self) -> bool {
        match self {
            Entity::Circle { shape, .. } => shape is Circle,
            Entity::Text { shape, .. } => shape is Text,
            Entity::Rectangle { shape, .. } => shape is Rectangle,
        }
    }

    /// A circle at `position`, with no physics and not clickable.
    pub fn new_circle(position: Vec2, radius: Scalar, color: Color) -> (e: Entity)
        ensures
            e == (Entity::Circle {
                transform: Transform::at(position),
                physics: None,
                shape: Shape::Circle { radius, color },
                clickable: None,
            }),
            e.well_formed(),
    {
        Entity::Circle {
            transform: Transform::new(position),
            physics: None,
            shape: Shape::Circle { radius, color },
            clickable: None,
        }
    }

    /// An axis-aligned rectangle centred at `position`.
    pub fn new_rectangle(position: Vec2, length: Scalar, height: Scalar, color: Color) -> (e:
        Entity)
        ensures
            e == (Entity::Rectangle {
                transform: Transform::at(position),
                physics: None,
                shape: Shape::Rectangle { length, height, color },
                clickable: None,
            }),
            e.well_formed(),
    {
        Entity::Rectangle {
            transform: Transform::new(position),
            physics: None,
            shape: Shape::Rectangle { length, height, color },
            clickable: None,
        }
    }

    /// A line of text anchored at `position`. Text never collides.
    pub fn new_text(position: Vec2, content: String, font_size: Scalar, color: Color) -> (e:
        Entity)
        ensures
            e == (Entity::Text {
                transform: Transform::at(position),
                physics: None,
                shape: Shape::Text { content, font_size, color },
                clickable: None,
            }),
            e.well_formed(),
    {
        Entity::Text {
            transform: Transform::new(position),
            physics: None,
            shape: Shape::Text { content, font_size, color },
            clickable: None,
        }
    }

    pub fn with_physics(self, physics: Physics) -> (e: Entity)
        ensures
            e == self.with_physics_spec(Some(physics)),
            e.well_formed() == self.well_formed(),
    {
        match self {
            Entity::Circle { transform, shape, clickable, .. } => Entity::Circle {
                transform,
                physics: Some(physics),
                shape,
                clickable,
            },
            Entity::Text { transform, shape, clickable, .. } => Entity::Text {
                transform,
                physics: Some(physics),
                shape,
                clickable,
            },
            Entity::Rectangle { transform, shape, clickable, .. } => Entity::Rectangle {
                transform,
                physics: Some(physics),
                shape,
                clickable,
            },
        }
    }

    pub fn with_clickable(self, clickable: Clickable) -> (e: Entity)
        ensures
            e == self.with_clickable_spec(Some(clickable)),
            e.well_formed() == self.well_formed(),
    {
        match self {
            Entity::Circle { transform, physics, shape, .. } => Entity::Circle {
                transform,
                physics,
                shape,
                clickable: Some(clickable),
            },
            Entity::Text { transform, physics, shape, .. } => Entity::Text {
                transform,
                physics,
                shape,
                clickable: Some(clickable),
            },
            Entity::Rectangle { transform, physics, shape, .. } => Entity::Rectangle {
                transform,
                physics,
                shape,
                clickable: Some(clickable),
            },
        }
    }

    pub fn transform(&self) -> (t: &Transform)
        ensures
            *t == self.spec_transform(),
    {
        match self {
            Entity::Circle { transform, .. }
            | Entity::Text { transform, .. }
            | Entity::Rectangle { transform, .. } => transform,
        }
    }

    pub fn transform_mut(&mut self) -> (t: &mut Transform)
        ensures
            *t == old(self).spec_transform(),
            *final(self) == old(self).with_transform(*final(t)),
    {
        match self {
            Entity::Circle { transform, .. } => transform,
            Entity::Text { transform, .. } => transform,
            Entity::Rectangle { transform, .. } => transform,
        }
    }

    pub fn physics(&self) -> (p: Option<&Physics>)
        ensures
            match p {
                Some(physics) => self.spec_physics() == Some(*physics),
                None => self.spec_physics() is None,
            },
    {
        match self {
            Entity::Circle { physics, .. }
            | Entity::Text { physics, .. }
            | Entity::Rectangle { physics, .. } => physics.as_ref(),
        }
    }

    pub fn physics_mut(&mut self) -> (p: Option<&mut Physics>)
        ensures
            match p {
                Some(physics) => {
                    &&& old(self).spec_physics() == Some(*physics)
                    &&& *final(self) == old(self).with_physics_spec(Some(*final(physics)))
                },
                None => old(self).spec_physics() is None && *final(self) == *old(self),
            },
    {
        match self {
            Entity::Circle { physics, .. } => physics.as_mut(),
            Entity::Text { physics, .. } => physics.as_mut(),
            Entity::Rectangle { physics, .. } => physics.as_mut(),
        }
    }

    /// Both the physics and the transform, where the entity has physics.
    pub fn physics_and_transform_mut(&mut self) -> (r: Option<(&mut Physics, &mut Transform)>)
        ensures
            match r {
                Some((physics, transform)) => {
                    &&& old(self).spec_physics() == Some(*physics)
                    &&& old(self).spec_transform() == *transform
                    &&& *final(self) == old(self).with_physics_spec(
                        Some(*final(physics)),
                    ).with_transform(*final(transform))
                },
                None => old(self).spec_physics() is None && *final(self) == *old(self),
            },
    {
        match self {
            Entity::Circle { physics: Some(p), transform, .. } => Some((p, transform)),
            Entity::Text { physics: Some(p), transform, .. } => Some((p, transform)),
            Entity::Rectangle { physics: Some(p), transform, .. } => Some((p, transform)),
            _ => None,
        }
    }

    pub fn shape(&self) -> (s: &Shape)
        ensures
            *s == self.spec_shape(),
    {
        match self {
            Entity::Circle { shape, .. }
            | Entity::Text { shape, .. }
            | Entity::Rectangle { shape, .. } => shape,
        }
    }

    /// The shape, for change. Keeping it of the entity's own kind is the
    /// caller's part: nothing checks it afterwards.
    pub fn shape_mut(&mut self) -> (s: &mut Shape)
        ensures
            *s == old(self).spec_shape(),
            *final(self) == old(self).with_shape(*final(s)),
    {
        match self {
            Entity::Circle { shape, .. } => shape,
            Entity::Text { shape, .. } => shape,
            Entity::Rectangle { shape, .. } => shape,
        }
    }

    pub fn clickable(&self) -> (c: Option<&Clickable>)
        ensures
            match c {
                Some(clickable) => self.spec_clickable() == Some(*clickable),
                None => self.spec_clickable() is None,
            },
    {
        match self {
            Entity::Circle { clickable, .. }
            | Entity::Text { clickable, .. }
            | Entity::Rectangle { clickable, .. } => clickable.as_ref(),
        }
    }

    pub fn clickable_mut(&mut self) -> (c: Option<&mut Clickable>)
        ensures
            match c {
                Some(clickable) => {
                    &&& old(self).spec_clickable() == Some(*clickable)
                    &&& *final(self) == old(self).with_clickable_spec(Some(*final(clickable)))
                },
                None => old(self).spec_clickable() is None && *final(self) == *old(self),
            },
    {
        match self {
            Entity::Circle { clickable, .. } => clickable.as_mut(),
            Entity::Text { clickable, .. } => clickable.as_mut(),
            Entity::Rectangle { clickable, .. } => clickable.as_mut(),
        }
    }

    /// Moves the entity to `position` and, where it has physics, sets its
    /// velocity.
    pub fn place(&mut self, position: Vec2, velocity: Vec2)
        ensures
            *final(self) == old(self).placed(position, velocity),
    {
        let transform = self.transform_mut();
        transform.position = position;
        match self.physics_mut() {
            Some(physics) => {
                physics.velocity = velocity;
            },
            None => {},
        }
    }

    /// Whether `point`, in normalized device coordinates, is on the entity.
    pub fn contains_point(&self, point: Vec2) -> (inside: bool)
        ensures
            inside == self.covers(point),
    {
        let offset = point.sub(self.transform().position);
        match self.shape() {
            Shape::Circle { radius, .. } => {
                let r: u128 = radius.magnitude();
                assert(r * r <= 0x4000_0000_0000_0000_0000_0000_0000_0000) by (nonlinear_arith)
                    requires
                        0 <= r <= 0x8000_0000_0000_0000,
                ;
                assert(r * r == radius@ * radius@) by (nonlinear_arith)
                    requires
                        r == radius@ || r == -radius@,
                ;
                offset.norm_squared() <= r * r
            },
            Shape::Rectangle { length, height, .. } => {
                offset.x.abs().raw <= length.half().raw && offset.y.abs().raw <= height.half().raw
            },
            Shape::Text { .. } => {
                offset.norm_squared() <= TEXT_REACH_SQUARED
            },
        }
    }
}

} // verus!
