//! Plain value data attached to entities.
use vstd::prelude::*;
use crate::scalar::{Scalar, SCALE, LIMIT};
use crate::vector::Vec2;

verus! {

/// Red, green and blue, each from zero to one.
#[derive(Clone, Copy, Debug, PartialEq, Eq, Structural)]
pub struct Color {
    pub r: Scalar,
    pub g: Scalar,
    pub b: Scalar,
}

impl Color {
    pub fn new(r: Scalar, g: Scalar, b: Scalar) -> (c: Color)
        ensures
            c == (Color { r, g, b }),
    {
        Color { r, g, b }
    }
}

/// Where an entity is. Only `position` takes part in the simulation.
#[derive(Clone, Copy, Debug, PartialEq, Eq, Structural)]
pub struct Transform {
    /// Centre, in normalized device coordinates.
    pub position: Vec2,
    /// Radians.
    pub rotation: Scalar,
    pub scale: Vec2,
}

impl Transform {
    /// The transform at `position`, not rotated, at unit scale.
    pub open spec fn at(position: Vec2) -> Transform {
        Transform {
            position,
            rotation: Scalar { raw: 0 },
            scale: Vec2 { x: Scalar { raw: SCALE }, y: Scalar { raw: SCALE } },
        }
    }

    pub fn new(position: Vec2) -> (t: Transform)
        ensures
            t == Transform::at(position),
    {
        Transform {
            position,
            rotation: Scalar::zero(),
            scale: Vec2::new(Scalar::one(), Scalar::one()),
        }
    }
}

/// How an entity moves and answers contact.
#[derive(Clone, Copy, Debug, PartialEq, Eq, Structural)]
pub struct Physics {
    pub velocity: Vec2,
    /// Forces gathered for the coming tick; cleared by every step.
    pub acceleration: Vec2,
    /// Positive, or infinite for a body that nothing can push.
    pub mass: Scalar,
    /// Whether global gravity is added to the acceleration each tick.
    pub apply_gravity: bool,
    /// Whether the body is integrated and displaced by contact.
    pub dynamic: bool,
    /// Bounciness, from zero to one.
    pub restitution: Scalar,
    /// Coulomb coefficient, not negative.
    pub friction: Scalar,
}

impl Physics {
    /// A moving body of unit mass under gravity.
    pub open spec fn standard() -> Physics {
        Physics {
            velocity: Vec2 { x: Scalar { raw: 0 }, y: Scalar { raw: 0 } },
            acceleration: Vec2 { x: Scalar { raw: 0 }, y: Scalar { raw: 0 } },
            mass: Scalar { raw: SCALE },
            apply_gravity: true,
            dynamic: true,
            restitution: Scalar { raw: 800_000_000 },
            friction: Scalar { raw: 500_000_000 },
        }
    }

    /// An obstacle of infinite mass that never moves.
    pub open spec fn fixed() -> Physics {
        Physics {
            mass: Scalar { raw: LIMIT },
            dynamic: false,
            apply_gravity: false,
            restitution: Scalar { raw: 500_000_000 },
            ..Physics::standard()
        }
    }

    pub fn new() -> (p: Physics)
        ensures
            p == Physics::standard(),
    {
        Physics {
            velocity: Vec2::new(Scalar::from_raw(0), Scalar::from_raw(0)),
            acceleration: Vec2::new(Scalar::from_raw(0), Scalar::from_raw(0)),
            mass: Scalar::from_raw(SCALE),
            apply_gravity: true,
            dynamic: true,
            restitution: Scalar::from_raw(800_000_000),
            friction: Scalar::from_raw(500_000_000),
        }
    }

    pub fn new_static() -> (p: Physics)
        ensures
            p == Physics::fixed(),
    {
        Physics {
            velocity: Vec2::new(Scalar::from_raw(0), Scalar::from_raw(0)),
            acceleration: Vec2::new(Scalar::from_raw(0), Scalar::from_raw(0)),
            mass: Scalar::from_raw(LIMIT),
            apply_gravity: false,
            dynamic: false,
            restitution: Scalar::from_raw(500_000_000),
            friction: Scalar::from_raw(500_000_000),
        }
    }

    pub fn with_velocity(self, velocity: Vec2) -> (p: Physics)
        ensures
            p == (Physics { velocity, ..self }),
    {
        let mut p = self;
        p.velocity = velocity;
        p
    }
}

/// What an entity looks like, and its extent for contact.
#[derive(Clone, Debug)]
pub enum Shape {
    Circle { radius: Scalar, color: Color },
    Text { content: String, font_size: Scalar, color: Color },
    Rectangle { length: Scalar, height: Scalar, color: Color },
}

/// Marks an entity as a target for the pointer.
#[derive(Clone, Copy, Debug, PartialEq, Eq, Structural)]
pub struct Clickable {
    pub enabled: bool,
    pub hovered: bool,
}

impl Clickable {
    pub fn new() -> (c: Clickable)
        ensures
            c.enabled,
            !c.hovered,
    {
        Clickable { enabled: true, hovered: false }
    }
}

} // verus!
