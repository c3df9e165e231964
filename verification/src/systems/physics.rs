//! Fixed-timestep integration, contact detection and contact resolution.
use vstd::prelude::*;
use crate::algebra::{one, origin, zero};
use crate::components::{Physics, Shape, Transform};
use crate::entity::Entity;
use crate::scalar::{Scalar, LIMIT, SCALE};
use crate::systems::laws::{
    has_extent, is_axis, lemma_circle_contact, lemma_circle_rect_contact,
    lemma_contact_normal_is_unit, lemma_rect_contact, lemma_resolve_evolves,
    lemma_response_keeps_immovable, lemma_separating_contact_keeps_velocities,
    lemma_solve_rows_evolves, lemma_step_evolves, nearly_unit, within_unit,
};
use crate::systems::pairs::{ordered, PairSet};
use crate::vector::Vec2;
use crate::world::World;

verus! {

/// Squared distance, a hundredth of a unit squared, at or under which two
/// points count as coincident; in squared raw units.
pub const CONTACT_EPSILON_SQUARED: u128 = 100_000_000_000_000;

/// The unit vector along the x axis, to the right or to the left.
pub open spec fn axis_x(positive: bool) -> Vec2 {
    Vec2 { x: Scalar { raw: if positive { SCALE } else { (-SCALE) as i64 } }, y: Scalar { raw: 0 } }
}

/// The unit vector along the y axis, upward or downward.
pub open spec fn axis_y(positive: bool) -> Vec2 {
    Vec2 { x: Scalar { raw: 0 }, y: Scalar { raw: if positive { SCALE } else { (-SCALE) as i64 } } }
}

/// Contact between two circles: they overlap when their centres are
/// nearer than the sum of the radii, and further apart than the epsilon.
/// The normal points from the first centre to the second; the depth is
/// what is missing to the sum of the radii.
pub open spec fn circle_circle_contact(pos_a: Vec2, r_a: Scalar, pos_b: Vec2, r_b: Scalar)
    -> Option<(Vec2, Scalar)> {
    let offset = pos_b.sub_spec(pos_a);
    let reach = r_a.add_spec(r_b);
    if offset.norm_sq() < reach.square() && offset.norm_sq() > CONTACT_EPSILON_SQUARED {
        let distance = offset.length_spec();
        Some((offset.divide_spec(distance), reach.sub_spec(distance)))
    } else {
        None
    }
}

/// The point of an axis-aligned rectangle nearest to `point`.
pub open spec fn closest_point(point: Vec2, rect_pos: Vec2, half_w: Scalar, half_h: Scalar)
    -> Vec2 {
    let rel = point.sub_spec(rect_pos);
    Vec2 {
        x: rel.x.clamp_spec(half_w.neg_spec(), half_w).add_spec(rect_pos.x),
        y: rel.y.clamp_spec(half_h.neg_spec(), half_h).add_spec(rect_pos.y),
    }
}

/// Contact between a circle and an axis-aligned rectangle; the normal
/// points from the circle to the rectangle. Where the circle's centre is
/// further than the epsilon from the rectangle, the normal points to the
/// rectangle's nearest point and the depth is what the distance to it
/// lacks to the radius. Where the centre is on or in the rectangle, the
/// normal lies along the axis on which the centre is nearer to an edge,
/// and points to the side of the rectangle's centre, so that the circle
/// leaves through the nearer edge on its own side; the depth is the
/// radius and the distance to that edge.
pub open spec fn circle_rect_contact(
    circle_pos: Vec2,
    radius: Scalar,
    rect_pos: Vec2,
    length: Scalar,
    height: Scalar,
) -> Option<(Vec2, Scalar)> {
    let half_w = length.half_spec();
    let half_h = height.half_spec();
    let rel = circle_pos.sub_spec(rect_pos);
    let offset = closest_point(circle_pos, rect_pos, half_w, half_h).sub_spec(circle_pos);
    if offset.norm_sq() < radius.square() {
        if offset.norm_sq() > CONTACT_EPSILON_SQUARED {
            let distance = offset.length_spec();
            Some((offset.divide_spec(distance), radius.sub_spec(distance)))
        } else {
            let x_to_edge = half_w.sub_spec(rel.x.abs_spec());
            let y_to_edge = half_h.sub_spec(rel.y.abs_spec());
            if x_to_edge@ < y_to_edge@ {
                Some((axis_x(circle_pos.x@ <= rect_pos.x@), radius.add_spec(x_to_edge)))
            } else {
                Some((axis_y(circle_pos.y@ <= rect_pos.y@), radius.add_spec(y_to_edge)))
            }
        }
    } else {
        None
    }
}

/// Contact between two axis-aligned rectangles: they overlap when both
/// axes overlap, and separate along the axis of the smaller overlap, the
/// second away from the first.
pub open spec fn rect_rect_contact(
    pos_a: Vec2,
    len_a: Scalar,
    height_a: Scalar,
    pos_b: Vec2,
    len_b: Scalar,
    height_b: Scalar,
) -> Option<(Vec2, Scalar)> {
    let offset = pos_b.sub_spec(pos_a);
    let overlap_x = len_a.half_spec().add_spec(len_b.half_spec()).sub_spec(offset.x.abs_spec());
    let overlap_y = height_a.half_spec().add_spec(height_b.half_spec()).sub_spec(
        offset.y.abs_spec(),
    );
    if overlap_x@ > 0 && overlap_y@ > 0 {
        if overlap_x@ < overlap_y@ {
            Some((axis_x(offset.x@ > 0), overlap_x))
        } else {
            Some((axis_y(offset.y@ > 0), overlap_y))
        }
    } else {
        None
    }
}

/// The contact's normal turned round.
pub open spec fn reversed(contact: Option<(Vec2, Scalar)>) -> Option<(Vec2, Scalar)> {
    match contact {
        Some((normal, depth)) => Some((normal.neg_spec(), depth)),
        None => None,
    }
}

/// Contact between two entities, the normal pointing from the first to
/// the second. There is none where neither has physics, nor with a text.
pub open spec fn contact_between(a: Entity, b: Entity) -> Option<(Vec2, Scalar)> {
    let pos_a = a.spec_transform().position;
    let pos_b = b.spec_transform().position;
    if a.spec_physics() is None && b.spec_physics() is None {
        None
    } else {
        match (a.spec_shape(), b.spec_shape()) {
            (Shape::Circle { radius: r_a, .. }, Shape::Circle { radius: r_b, .. }) => {
                circle_circle_contact(pos_a, r_a, pos_b, r_b)
            },
            (Shape::Circle { radius, .. }, Shape::Rectangle { length, height, .. }) => {
                circle_rect_contact(pos_a, radius, pos_b, length, height)
            },
            (Shape::Rectangle { length, height, .. }, Shape::Circle { radius, .. }) => {
                reversed(circle_rect_contact(pos_b, radius, pos_a, length, height))
            },
            (
                Shape::Rectangle { length: l_a, height: h_a, .. },
                Shape::Rectangle { length: l_b, height: h_b, .. },
            ) => rect_rect_contact(pos_a, l_a, h_a, pos_b, l_b, h_b),
            _ => None,
        }
    }
}

/// What contact resolution reads of one side of a contact.
#[derive(Clone, Copy, Debug, PartialEq, Eq, Structural)]
pub struct Side {
    pub position: Vec2,
    pub velocity: Vec2,
    pub mass: Scalar,
    pub dynamic: bool,
    pub restitution: Scalar,
    pub friction: Scalar,
}

/// The side that an entity presents. One without physics stands as an
/// obstacle at rest: infinite mass, not dynamic, restitution a half and
/// friction three tenths.
pub open spec fn side_of(entity: Entity) -> Side {
    let position = entity.spec_transform().position;
    match entity.spec_physics() {
        Some(physics) => Side {
            position,
            velocity: physics.velocity,
            mass: physics.mass,
            dynamic: physics.dynamic,
            restitution: physics.restitution,
            friction: physics.friction,
        },
        None => Side {
            position,
            velocity: origin(),
            mass: Scalar { raw: LIMIT },
            dynamic: false,
            restitution: Scalar { raw: 500_000_000 },
            friction: Scalar { raw: 300_000_000 },
        },
    }
}

impl Side {
    /// One over the mass; zero for a side that is not dynamic or whose
    /// mass is infinite, which nothing can then move.
    pub open spec fn inverse_mass(self) -> Scalar {
        if self.dynamic && self.mass.finite() {
            one().div_spec(self.mass)
        } else {
            zero()
        }
    }

    /// Reads the side that an entity presents.
    pub fn of(entity: &Entity) -> (side: Side)
        ensures
            side == side_of(*entity),
    {
        let position = entity.transform().position;
        match entity.physics() {
            Some(physics) => Side {
                position,
                velocity: physics.velocity,
                mass: physics.mass,
                dynamic: physics.dynamic,
                restitution: physics.restitution,
                friction: physics.friction,
            },
            None => Side {
                position,
                velocity: Vec2::new(Scalar::from_raw(0), Scalar::from_raw(0)),
                mass: Scalar::from_raw(LIMIT),
                dynamic: false,
                restitution: Scalar::from_raw(500_000_000),
                friction: Scalar::from_raw(300_000_000),
            },
        }
    }

    /// One over the mass, or zero for a side that nothing can move.
    pub fn inv_mass(&self) -> (inverse: Scalar)
        ensures
            inverse == self.inverse_mass(),
    {
        if self.dynamic && self.mass.is_finite() {
            Scalar::one().div(self.mass)
        } else {
            Scalar::zero()
        }
    }
}

/// Where one contact leaves its two sides.
#[derive(Clone, Copy, Debug, PartialEq, Eq, Structural)]
pub struct Response {
    pub position_a: Vec2,
    pub velocity_a: Vec2,
    pub position_b: Vec2,
    pub velocity_b: Vec2,
    /// Whether an impulse was applied, which uses the pair up for the
    /// rest of the step.
    pub impulse: bool,
}

/// Velocity of the first side relative to the second, along `normal`.
/// Resolution takes a positive value to mean that the two are already
/// separating.
pub open spec fn normal_speed(a: Side, b: Side, normal: Vec2) -> Scalar {
    a.velocity.sub_spec(b.velocity).dot_spec(normal)
}

/// Restitution of a pair: the geometric mean of the two coefficients.
pub open spec fn combined_restitution(a: Side, b: Side) -> Scalar {
    a.restitution.mul_spec(b.restitution).sqrt_spec()
}

/// Friction of a pair: the arithmetic mean of the two coefficients.
pub open spec fn combined_friction(a: Side, b: Side) -> Scalar {
    a.friction.add_spec(b.friction).half_spec()
}

/// Magnitude of the impulse along the normal: minus one plus the
/// restitution, times the speed along the normal, over the total inverse
/// mass.
pub open spec fn normal_impulse(a: Side, b: Side, normal: Vec2) -> Scalar {
    let total = a.inverse_mass().add_spec(b.inverse_mass());
    one().add_spec(combined_restitution(a, b)).neg_spec().mul_spec(
        normal_speed(a, b, normal),
    ).div_spec(total)
}

/// Magnitude of the impulse along the tangent: what would stop the
/// sliding, held within the normal impulse times the friction.
pub open spec fn tangent_impulse(a: Side, b: Side, normal: Vec2) -> Scalar {
    let total = a.inverse_mass().add_spec(b.inverse_mass());
    let sliding = a.velocity.sub_spec(b.velocity).dot_spec(normal.perp_spec());
    let limit = normal_impulse(a, b, normal).abs_spec().mul_spec(combined_friction(a, b));
    sliding.neg_spec().div_spec(total).clamp_spec(limit.neg_spec(), limit)
}

/// The impulse that a contact exchanges: the first side gains it, the
/// second loses it, each in proportion to its inverse mass.
pub open spec fn contact_impulse(a: Side, b: Side, normal: Vec2) -> Vec2 {
    normal.scale_spec(normal_impulse(a, b, normal)).add_spec(
        normal.perp_spec().scale_spec(tangent_impulse(a, b, normal)),
    )
}

/// Whether an entity takes part in motion: it has physics, and its
/// physics is dynamic.
pub open spec fn is_dynamic(entity: Entity) -> bool {
    match entity.spec_physics() {
        Some(physics) => physics.dynamic,
        None => false,
    }
}

/// The entity with everything that a step may change taken away: put at
/// the origin, and where it has physics, at rest and free of forces.
pub open spec fn frame(entity: Entity) -> Entity {
    let cleared = entity.with_transform(
        Transform { position: origin(), ..entity.spec_transform() },
    );
    match entity.spec_physics() {
        Some(physics) => cleared.with_physics_spec(
            Some(Physics { velocity: origin(), acceleration: origin(), ..physics }),
        ),
        None => cleared,
    }
}

/// `after` holds the entities of `before`, index by index, changed in
/// position, velocity and acceleration at most, and those that are not
/// dynamic not changed at all.
pub open spec fn evolved(before: Seq<Entity>, after: Seq<Entity>) -> bool {
    &&& after.len() == before.len()
    &&& forall|k: int|
        0 <= k < before.len() ==> {
            &&& frame(#[trigger] after[k]) == frame(before[k])
            &&& !is_dynamic(before[k]) ==> after[k] == before[k]
        }
}

/// The state that the passes over the pairs work on.
pub struct Solve {
    pub entities: Seq<Entity>,
    /// The pairs that have had their impulse in this step.
    pub applied: Set<(int, int)>,
}

/// An entity after the position phase: one that is dynamic has moved by
/// its velocity times the tick.
pub open spec fn drifted(entity: Entity, dt: Scalar) -> Entity {
    match entity.spec_physics() {
        Some(physics) => if physics.dynamic {
            let transform = entity.spec_transform();
            entity.with_transform(
                Transform {
                    position: transform.position.add_spec(physics.velocity.scale_spec(dt)),
                    ..transform
                },
            )
        } else {
            entity
        },
        None => entity,
    }
}

/// The solver's tunable constants.
#[derive(Clone, Copy, Debug, PartialEq, Eq, Structural)]
pub struct PhysicsSystem {
    /// Acceleration added each tick to every body that takes gravity.
    pub gravity: Vec2,
    /// Passes over all pairs in one step.
    pub collision_iterations: u32,
    /// Speed under which a body is put to rest.
    pub sleep_velocity_threshold: Scalar,
    /// Factor applied to every velocity each tick.
    pub air_damping: Scalar,
    /// Share of the penetration beyond the slop that one pass corrects.
    pub correction_percent: Scalar,
    /// Penetration that is left uncorrected.
    pub slop: Scalar,
}

impl PhysicsSystem {
    /// Gravity of half a unit downward, four passes, sleep under a
    /// thousandth, damping 0.98, correction 0.8 and slop a hundredth.
    pub open spec fn standard() -> PhysicsSystem {
        PhysicsSystem {
            gravity: Vec2 { x: Scalar { raw: 0 }, y: Scalar { raw: (-500_000_000) as i64 } },
            collision_iterations: 4,
            sleep_velocity_threshold: Scalar { raw: 1_000_000 },
            air_damping: Scalar { raw: 980_000_000 },
            correction_percent: Scalar { raw: 800_000_000 },
            slop: Scalar { raw: 10_000_000 },
        }
    }

    pub fn new() -> (system: PhysicsSystem)
        ensures
            system == PhysicsSystem::standard(),
    {
        PhysicsSystem {
            gravity: Vec2::new(Scalar::from_raw(0), Scalar::from_raw(-500_000_000)),
            collision_iterations: 4,
            sleep_velocity_threshold: Scalar::from_raw(1_000_000),
            air_damping: Scalar::from_raw(980_000_000),
            correction_percent: Scalar::from_raw(800_000_000),
            slop: Scalar::from_raw(10_000_000),
        }
    }

    /// Physics after the force phase. A dynamic body takes gravity if it
    /// asks for it, gains its acceleration times the tick, is damped, is
    /// put to rest under the sleep threshold, and has its acceleration
    /// cleared. Any other body is left as it is.
    pub open spec fn accelerated(self, physics: Physics, dt: Scalar) -> Physics {
        if physics.dynamic {
            let acceleration = if physics.apply_gravity {
                physics.acceleration.add_spec(self.gravity)
            } else {
                physics.acceleration
            };
            let velocity = physics.velocity.add_spec(acceleration.scale_spec(dt)).scale_spec(
                self.air_damping,
            );
            Physics {
                velocity: if velocity.norm_sq() < self.sleep_velocity_threshold.square() {
                    origin()
                } else {
                    velocity
                },
                acceleration: origin(),
                ..physics
            }
        } else {
            physics
        }
    }

    /// An entity after the force phase.
    pub open spec fn forced(self, entity: Entity, dt: Scalar) -> Entity {
        match entity.spec_physics() {
            Some(physics) => entity.with_physics_spec(Some(self.accelerated(physics, dt))),
            None => entity,
        }
    }

    /// An entity after both integration phases.
    pub open spec fn integrated(self, entity: Entity, dt: Scalar) -> Entity {
        drifted(self.forced(entity, dt), dt)
    }

    /// The state after resolving one contact between entities `i` and `j`.
    pub open spec fn resolve(self, state: Solve, i: int, j: int, normal: Vec2, depth: Scalar)
        -> Solve {
        let a = state.entities[i];
        let b = state.entities[j];
        let r = self.response(
            side_of(a),
            side_of(b),
            normal,
            depth,
            state.applied.contains(ordered(i, j)),
        );
        Solve {
            entities: state.entities.update(i, a.placed(r.position_a, r.velocity_a)).update(
                j,
                b.placed(r.position_b, r.velocity_b),
            ),
            applied: if r.impulse {
                state.applied.insert(ordered(i, j))
            } else {
                state.applied
            },
        }
    }

    /// The state after looking at the pair of `i` and `j`: resolved where
    /// the two are in contact, unchanged where they are not.
    pub open spec fn visit(self, state: Solve, i: int, j: int) -> Solve {
        match contact_between(state.entities[i], state.entities[j]) {
            Some((normal, depth)) => self.resolve(state, i, j, normal, depth),
            None => state,
        }
    }

    /// The state after visiting, in order, the pairs of `i` with every
    /// index from `i + 1` up to but not including `upto`.
    pub open spec fn solve_row(self, state: Solve, i: int, upto: int) -> Solve
        decreases upto - i,
    {
        if upto <= i + 1 {
            state
        } else {
            self.visit(self.solve_row(state, i, upto - 1), i, upto - 1)
        }
    }

    /// The state after the rows of the first `rows` indices.
    pub open spec fn solve_rows(self, state: Solve, rows: int) -> Solve
        decreases rows,
    {
        if rows <= 0 {
            state
        } else {
            self.solve_row(self.solve_rows(state, rows - 1), rows - 1, state.entities.len() as int)
        }
    }

    /// The state after `passes` passes over all pairs.
    pub open spec fn solve(self, state: Solve, passes: nat) -> Solve
        decreases passes,
    {
        if passes == 0 {
            state
        } else {
            let before = self.solve(state, (passes - 1) as nat);
            self.solve_rows(before, state.entities.len() as int)
        }
    }

    /// The entities after one step of length `dt`: each integrated, then
    /// the configured number of passes over all pairs, starting with no
    /// pair marked.
    pub open spec fn stepped(self, entities: Seq<Entity>, dt: Scalar) -> Seq<Entity> {
        self.solve(
            Solve {
                entities: Seq::new(entities.len(), |k: int| self.integrated(entities[k], dt)),
                applied: Set::empty(),
            },
            self.collision_iterations as nat,
        ).entities
    }

    /// Distance by which one pass moves a side of inverse mass `inverse`
    /// out of a contact of the given depth: the depth beyond the slop,
    /// times the correction share, times the side's part of the total
    /// inverse mass. Zero where the total is not positive or the side
    /// cannot move.
    pub open spec fn correction(self, depth: Scalar, inverse: Scalar, total: Scalar) -> Scalar {
        if total@ > 0 && inverse@ > 0 {
            let excess = depth.sub_spec(self.slop);
            let kept = if excess@ > 0 {
                excess
            } else {
                zero()
            };
            kept.mul_spec(self.correction_percent).mul_spec(inverse.div_spec(total))
        } else {
            zero()
        }
    }

    /// What a contact with the given normal and depth does to its sides.
    /// `seen` tells whether the pair has had its impulse in this step.
    ///
    /// Nothing happens where neither side is dynamic. Otherwise each side
    /// that can move is first pushed out along the normal, the first
    /// against it and the second with it. Then, unless the speed along
    /// the normal is positive or the pair was seen, the impulse is
    /// exchanged.
    #[verifier::opaque]
    pub open spec fn response(self, a: Side, b: Side, normal: Vec2, depth: Scalar, seen: bool)
        -> Response {
        let inv_a = a.inverse_mass();
        let inv_b = b.inverse_mass();
        let total = inv_a.add_spec(inv_b);
        if !a.dynamic && !b.dynamic {
            Response {
                position_a: a.position,
                velocity_a: a.velocity,
                position_b: b.position,
                velocity_b: b.velocity,
                impulse: false,
            }
        } else {
            let position_a = if total@ > 0 && inv_a@ > 0 {
                a.position.sub_spec(normal.scale_spec(self.correction(depth, inv_a, total)))
            } else {
                a.position
            };
            let position_b = if total@ > 0 && inv_b@ > 0 {
                b.position.add_spec(normal.scale_spec(self.correction(depth, inv_b, total)))
            } else {
                b.position
            };
            if normal_speed(a, b, normal)@ > 0 || seen {
                Response {
                    position_a,
                    velocity_a: a.velocity,
                    position_b,
                    velocity_b: b.velocity,
                    impulse: false,
                }
            } else {
                let impulse = contact_impulse(a, b, normal);
                Response {
                    position_a,
                    velocity_a: if inv_a@ > 0 {
                        a.velocity.add_spec(impulse.scale_spec(inv_a))
                    } else {
                        a.velocity
                    },
                    position_b,
                    velocity_b: if inv_b@ > 0 {
                        b.velocity.sub_spec(impulse.scale_spec(inv_b))
                    } else {
                        b.velocity
                    },
                    impulse: true,
                }
            }
        }
    }

    /// Computes what a contact does to its two sides, changing nothing.
    pub fn respond(&self, a: Side, b: Side, normal: Vec2, depth: Scalar, seen: bool) -> (r:
        Response)
        ensures
            r == self.response(a, b, normal, depth, seen),
            !a.dynamic ==> r.position_a == a.position && r.velocity_a == a.velocity,
            !b.dynamic ==> r.position_b == b.position && r.velocity_b == b.velocity,
            normal_speed(a, b, normal)@ >= 0 ==> r.velocity_a == a.velocity && r.velocity_b
                == b.velocity,
            seen ==> r.velocity_a == a.velocity && r.velocity_b == b.velocity,
            r.impulse == ((a.dynamic || b.dynamic) && !seen && normal_speed(a, b, normal)@ <= 0),
    {
        proof {
            reveal(PhysicsSystem::response);
            lemma_response_keeps_immovable(*self, a, b, normal, depth, seen);
            if normal_speed(a, b, normal)@ >= 0 {
                lemma_separating_contact_keeps_velocities(*self, a, b, normal, depth, seen);
            }
        }
        let mut r = Response {
            position_a: a.position,
            velocity_a: a.velocity,
            position_b: b.position,
            velocity_b: b.velocity,
            impulse: false,
        };
        if !a.dynamic && !b.dynamic {
            return r;
        }
        let inv_a = a.inv_mass();
        let inv_b = b.inv_mass();
        let total = inv_a.add(inv_b);
        if total.raw > 0 {
            let excess = depth.sub(self.slop);
            let kept = if excess.raw > 0 {
                excess
            } else {
                Scalar::zero()
            };
            let scaled = kept.mul(self.correction_percent);
            if inv_a.raw > 0 {
                r.position_a = a.position.sub(normal.scale(scaled.mul(inv_a.div(total))));
            }
            if inv_b.raw > 0 {
                r.position_b = b.position.add(normal.scale(scaled.mul(inv_b.div(total))));
            }
        }
        let relative = a.velocity.sub(b.velocity);
        let along_normal = relative.dot(normal);
        if along_normal.raw > 0 || seen {
            return r;
        }
        let restitution = a.restitution.mul(b.restitution).sqrt();
        let j = Scalar::one().add(restitution).neg().mul(along_normal).div(total);
        let tangent = normal.perp();
        let along_tangent = relative.dot(tangent);
        let friction = a.friction.add(b.friction).half();
        let limit = j.abs().mul(friction);
        let jt = along_tangent.neg().div(total).clamp(limit.neg(), limit);
        let impulse = normal.scale(j).add(tangent.scale(jt));
        if inv_a.raw > 0 {
            r.velocity_a = a.velocity.add(impulse.scale(inv_a));
        }
        if inv_b.raw > 0 {
            r.velocity_b = b.velocity.sub(impulse.scale(inv_b));
        }
        r.impulse = true;
        r
    }

    /// Advances the whole world by one tick of length `dt`: forces and
    /// velocities, then positions, then the passes over all pairs.
    pub fn update(&self, world: &mut World, dt: Scalar)
        requires
            dt@ > 0,
        ensures
            final(world)@ == self.stepped(old(world)@, dt),
            evolved(old(world)@, final(world)@),
    {
        proof {
            lemma_step_evolves(*self, world@, dt);
        }
        let ghost before = world@;
        let n: usize = world.entities().len();
        let mut i: usize = 0;
        while i < n
            invariant
                i <= n,
                world@.len() == n,
                before.len() == n,
                forall|k: int| 0 <= k < i ==> world@[k] == self.forced(before[k], dt),
                forall|k: int| i <= k < n ==> world@[k] == before[k],
            decreases n - i,
        {
            let entities = world.entities_mut();
            match entities[i].physics_and_transform_mut() {
                Some((physics, _)) => {
                    if physics.dynamic {
                        if physics.apply_gravity {
                            physics.acceleration = physics.acceleration.add(self.gravity);
                        }
                        physics.velocity = physics.velocity.add(
                            physics.acceleration.scale(dt),
                        ).scale(self.air_damping);
                        if physics.velocity.norm_squared()
                            < self.sleep_velocity_threshold.squared() {
                            physics.velocity = Vec2::zero();
                        }
                        physics.acceleration = Vec2::zero();
                    }
                },
                None => {},
            }
            i += 1;
        }
        let ghost forced = world@;
        let mut i: usize = 0;
        while i < n
            invariant
                i <= n,
                world@.len() == n,
                forced.len() == n,
                forall|k: int| 0 <= k < i ==> world@[k] == drifted(forced[k], dt),
                forall|k: int| i <= k < n ==> world@[k] == forced[k],
            decreases n - i,
        {
            let entities = world.entities_mut();
            match entities[i].physics_and_transform_mut() {
                Some((physics, transform)) => {
                    if physics.dynamic {
                        transform.position = transform.position.add(physics.velocity.scale(dt));
                    }
                },
                None => {},
            }
            i += 1;
        }
        let mut applied = PairSet::new();
        let ghost start = Solve { entities: world@, applied: applied@ };
        assert(start.entities =~= Seq::new(before.len(), |k: int| self.integrated(before[k], dt)));
        let mut pass: u32 = 0;
        while pass < self.collision_iterations
            invariant
                pass <= self.collision_iterations,
                world@.len() == start.entities.len(),
                (Solve { entities: world@, applied: applied@ }) == self.solve(start, pass as nat),
            decreases self.collision_iterations - pass,
        {
            self.resolve_collisions(world, &mut applied, dt);
            pass += 1;
        }
    }

    /// One pass over all pairs, in order of the first and then the second
    /// index: detects contact and resolves it.
    pub fn resolve_collisions(&self, world: &mut World, applied: &mut PairSet, dt: Scalar)
        ensures
            (Solve { entities: final(world)@, applied: final(applied)@ }) == self.solve_rows(
                Solve { entities: old(world)@, applied: old(applied)@ },
                old(world)@.len() as int,
            ),
            evolved(old(world)@, final(world)@),
    {
        let ghost start = Solve { entities: world@, applied: applied@ };
        proof {
            lemma_solve_rows_evolves(*self, start, start.entities.len() as int);
        }
        let n: usize = world.entities().len();
        let mut i: usize = 0;
        while i < n
            invariant
                i <= n,
                world@.len() == n,
                start.entities.len() == n,
                (Solve { entities: world@, applied: applied@ }) == self.solve_rows(start, i as int),
            decreases n - i,
        {
            let ghost row = Solve { entities: world@, applied: applied@ };
            let mut j: usize = i + 1;
            while j < n
                invariant
                    i < j <= n,
                    world@.len() == n,
                    (Solve { entities: world@, applied: applied@ }) == self.solve_row(
                        row,
                        i as int,
                        j as int,
                    ),
                decreases n - j,
            {
                let contact = self.check_collision(&world.entities()[i], &world.entities()[j]);
                match contact {
                    Some((normal, depth)) => {
                        self.resolve_collision_pair(world, applied, i, j, normal, depth, dt);
                    },
                    None => {},
                }
                j += 1;
            }
            i += 1;
        }
    }

    /// Resolves one contact between the entities at `idx_a` and `idx_b`:
    /// pushes apart those that can move and, unless the pair is in
    /// `applied` or is separating, exchanges the impulse and adds the
    /// pair to `applied`. The response does not depend on `dt`.
    pub fn resolve_collision_pair(
        &self,
        world: &mut World,
        applied: &mut PairSet,
        idx_a: usize,
        idx_b: usize,
        normal: Vec2,
        depth: Scalar,
        dt: Scalar,
    )
        requires
            idx_a < old(world)@.len(),
            idx_b < old(world)@.len(),
            idx_a != idx_b,
        ensures
            (Solve { entities: final(world)@, applied: final(applied)@ }) == self.resolve(
                Solve { entities: old(world)@, applied: old(applied)@ },
                idx_a as int,
                idx_b as int,
                normal,
                depth,
            ),
            evolved(old(world)@, final(world)@),
    {
        proof {
            lemma_resolve_evolves(
                *self,
                Solve { entities: world@, applied: applied@ },
                idx_a as int,
                idx_b as int,
                normal,
                depth,
            );
        }
        let a = Side::of(&world.entities()[idx_a]);
        let b = Side::of(&world.entities()[idx_b]);
        let seen = applied.contains(idx_a, idx_b);
        let r = self.respond(a, b, normal, depth, seen);
        let entities = world.entities_mut();
        entities[idx_a].place(r.position_a, r.velocity_a);
        entities[idx_b].place(r.position_b, r.velocity_b);
        if r.impulse {
            applied.insert(idx_a, idx_b);
        }
    }

    pub fn check_circle_circle(&self, pos_a: Vec2, r_a: Scalar, pos_b: Vec2, r_b: Scalar) -> (contact:
        Option<(Vec2, Scalar)>)
        ensures
            contact == circle_circle_contact(pos_a, r_a, pos_b, r_b),
            contact is Some <==> CONTACT_EPSILON_SQUARED < pos_b.sub_spec(pos_a).norm_sq()
                < r_a.add_spec(r_b).square(),
            contact is Some ==> within_unit(contact->Some_0.0),
            r_a@ >= 0 && r_b@ >= 0 && contact is Some ==> nearly_unit(contact->Some_0.0)
                && contact->Some_0.1@ > 0,
    {
        proof {
            lemma_circle_contact(pos_a, r_a, pos_b, r_b);
        }
        let offset = pos_b.sub(pos_a);
        let reach = r_a.add(r_b);
        let dist_sq: u128 = offset.norm_squared();
        if dist_sq < reach.squared() && dist_sq > CONTACT_EPSILON_SQUARED {
            let distance = offset.length();
            Some((offset.divide(distance), reach.sub(distance)))
        } else {
            None
        }
    }

    pub fn check_circle_rect(
        &self,
        circle_pos: Vec2,
        radius: Scalar,
        rect_pos: Vec2,
        length: Scalar,
        height: Scalar,
    ) -> (contact: Option<(Vec2, Scalar)>)
        ensures
            contact == circle_rect_contact(circle_pos, radius, rect_pos, length, height),
            contact is Some ==> within_unit(contact->Some_0.0),
    {
        proof {
            lemma_circle_rect_contact(circle_pos, radius, rect_pos, length, height);
        }
        let half_w = length.half();
        let half_h = height.half();
        let rel = circle_pos.sub(rect_pos);
        let closest = Vec2::new(
            rel.x.clamp(half_w.neg(), half_w).add(rect_pos.x),
            rel.y.clamp(half_h.neg(), half_h).add(rect_pos.y),
        );
        let offset = closest.sub(circle_pos);
        let dist_sq: u128 = offset.norm_squared();
        if dist_sq < radius.squared() {
            if dist_sq > CONTACT_EPSILON_SQUARED {
                let distance = offset.length();
                Some((offset.divide(distance), radius.sub(distance)))
            } else {
                let x_to_edge = half_w.sub(rel.x.abs());
                let y_to_edge = half_h.sub(rel.y.abs());
                if x_to_edge.raw < y_to_edge.raw {
                    let sign: i64 = if circle_pos.x.raw > rect_pos.x.raw {
                        -SCALE
                    } else {
                        SCALE
                    };
                    Some(
                        (
                            Vec2::new(Scalar::from_raw(sign), Scalar::from_raw(0)),
                            radius.add(x_to_edge),
                        ),
                    )
                } else {
                    let sign: i64 = if circle_pos.y.raw > rect_pos.y.raw {
                        -SCALE
                    } else {
                        SCALE
                    };
                    Some(
                        (
                            Vec2::new(Scalar::from_raw(0), Scalar::from_raw(sign)),
                            radius.add(y_to_edge),
                        ),
                    )
                }
            }
        } else {
            None
        }
    }

    pub fn check_rect_rect(
        &self,
        pos_a: Vec2,
        len_a: Scalar,
        height_a: Scalar,
        pos_b: Vec2,
        len_b: Scalar,
        height_b: Scalar,
    ) -> (contact: Option<(Vec2, Scalar)>)
        ensures
            contact == rect_rect_contact(pos_a, len_a, height_a, pos_b, len_b, height_b),
            contact is Some ==> is_axis(contact->Some_0.0) && contact->Some_0.1@ > 0,
    {
        proof {
            lemma_rect_contact(pos_a, len_a, height_a, pos_b, len_b, height_b);
        }
        let offset = pos_b.sub(pos_a);
        let overlap_x = len_a.half().add(len_b.half()).sub(offset.x.abs());
        let overlap_y = height_a.half().add(height_b.half()).sub(offset.y.abs());
        if overlap_x.raw > 0 && overlap_y.raw > 0 {
            if overlap_x.raw < overlap_y.raw {
                let sign: i64 = if offset.x.raw > 0 {
                    SCALE
                } else {
                    -SCALE
                };
                Some((Vec2::new(Scalar::from_raw(sign), Scalar::from_raw(0)), overlap_x))
            } else {
                let sign: i64 = if offset.y.raw > 0 {
                    SCALE
                } else {
                    -SCALE
                };
                Some((Vec2::new(Scalar::from_raw(0), Scalar::from_raw(sign)), overlap_y))
            }
        } else {
            None
        }
    }

    /// Detects contact between two entities without changing either.
    pub fn check_collision(&self, entity_a: &Entity, entity_b: &Entity) -> (contact: Option<
        (Vec2, Scalar),
    >)
        ensures
            contact == contact_between(*entity_a, *entity_b),
            entity_a.spec_physics() is None && entity_b.spec_physics() is None ==> contact is None,
            entity_a.spec_shape() is Text || entity_b.spec_shape() is Text ==> contact is None,
            contact is Some ==> within_unit(contact->Some_0.0),
            contact is Some && has_extent(*entity_a) && has_extent(*entity_b) ==> nearly_unit(
                contact->Some_0.0,
            ),
    {
        proof {
            lemma_contact_normal_is_unit(*entity_a, *entity_b);
        }
        if entity_a.physics().is_none() && entity_b.physics().is_none() {
            return None;
        }
        let pos_a = entity_a.transform().position;
        let pos_b = entity_b.transform().position;
        match (entity_a.shape(), entity_b.shape()) {
            (Shape::Circle { radius: r_a, .. }, Shape::Circle { radius: r_b, .. }) => {
                self.check_circle_circle(pos_a, *r_a, pos_b, *r_b)
            },
            (Shape::Circle { radius, .. }, Shape::Rectangle { length, height, .. }) => {
                self.check_circle_rect(pos_a, *radius, pos_b, *length, *height)
            },
            (Shape::Rectangle { length, height, .. }, Shape::Circle { radius, .. }) => {
                match self.check_circle_rect(pos_b, *radius, pos_a, *length, *height) {
                    Some((normal, depth)) => Some((normal.neg(), depth)),
                    None => None,
                }
            },
            (
                Shape::Rectangle { length: l_a, height: h_a, .. },
                Shape::Rectangle { length: l_b, height: h_b, .. },
            ) => self.check_rect_rect(pos_a, *l_a, *h_a, pos_b, *l_b, *h_b),
            _ => None,
        }
    }
}

} // verus!
