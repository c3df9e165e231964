//! What holds of every step, proved from the definitions of the solver.
use vstd::prelude::*;
use crate::algebra::{
    lemma_add_origin, lemma_add_zero, lemma_div_self, lemma_div_whole, lemma_half_zero,
    lemma_mul_minus_one,
    lemma_mul_one, lemma_mul_shrinks, lemma_mul_whole, lemma_mul_zero, lemma_scale_shrinks,
    lemma_scale_zero, lemma_sqrt_one, lemma_zero_div, one, origin, zero,
};
use crate::components::{Physics, Shape};
use crate::entity::Entity;
use crate::scalar::{
    lemma_floor_sqrt_of_squares, lemma_product_sign, magnitude, quotient, Scalar, LIMIT, SCALE,
};
use crate::systems::physics::{
    axis_x, axis_y, circle_circle_contact, circle_rect_contact, closest_point, normal_speed,
    combined_friction, combined_restitution, contact_between, contact_impulse, drifted, evolved,
    frame, is_dynamic, normal_impulse, rect_rect_contact, side_of, tangent_impulse,
    PhysicsSystem, Side, Solve, CONTACT_EPSILON_SQUARED,
};
use crate::vector::Vec2;

verus! {

/// Putting an entity where it is, at the velocity it has, changes nothing;
/// putting it anywhere keeps its frame.
pub proof fn lemma_placed(entity: Entity, position: Vec2, velocity: Vec2)
    ensures
        frame(entity.placed(position, velocity)) == frame(entity),
        is_dynamic(entity.placed(position, velocity)) == is_dynamic(entity),
        position == side_of(entity).position && velocity == side_of(entity).velocity
            ==> entity.placed(position, velocity) == entity,
{
}

/// A side that is not dynamic comes out of every contact where it went in.
pub proof fn lemma_response_keeps_immovable(
    system: PhysicsSystem,
    a: Side,
    b: Side,
    normal: Vec2,
    depth: Scalar,
    seen: bool,
)
    ensures
        !a.dynamic ==> {
            &&& system.response(a, b, normal, depth, seen).position_a == a.position
            &&& system.response(a, b, normal, depth, seen).velocity_a == a.velocity
        },
        !b.dynamic ==> {
            &&& system.response(a, b, normal, depth, seen).position_b == b.position
            &&& system.response(a, b, normal, depth, seen).velocity_b == b.velocity
        },
{
    reveal(PhysicsSystem::response);
}

/// Integration leaves an entity that is not dynamic as it is, and changes
/// of any other only position, velocity and acceleration.
pub proof fn lemma_integrated(system: PhysicsSystem, entity: Entity, dt: Scalar)
    ensures
        frame(system.integrated(entity, dt)) == frame(entity),
        !is_dynamic(entity) ==> system.integrated(entity, dt) == entity,
{
    let forced = system.forced(entity, dt);
    assert(frame(forced) == frame(entity));
    assert(frame(drifted(forced, dt)) == frame(forced));
}

/// Resolving a contact between two different entities evolves the state.
pub proof fn lemma_resolve_evolves(
    system: PhysicsSystem,
    state: Solve,
    i: int,
    j: int,
    normal: Vec2,
    depth: Scalar,
)
    requires
        0 <= i < state.entities.len(),
        0 <= j < state.entities.len(),
        i != j,
    ensures
        evolved(state.entities, system.resolve(state, i, j, normal, depth).entities),
{
    let a = state.entities[i];
    let b = state.entities[j];
    let seen = state.applied.contains(crate::systems::pairs::ordered(i, j));
    let r = system.response(side_of(a), side_of(b), normal, depth, seen);
    lemma_response_keeps_immovable(system, side_of(a), side_of(b), normal, depth, seen);
    lemma_placed(a, r.position_a, r.velocity_a);
    lemma_placed(b, r.position_b, r.velocity_b);
    let after = system.resolve(state, i, j, normal, depth).entities;
    assert forall|k: int| 0 <= k < state.entities.len() implies {
        &&& frame(#[trigger] after[k]) == frame(state.entities[k])
        &&& !is_dynamic(state.entities[k]) ==> after[k] == state.entities[k]
    } by {
        if k == j {
        } else if k == i {
        } else {
        }
    }
}

/// To evolve is transitive.
pub proof fn lemma_evolved_chain(first: Seq<Entity>, second: Seq<Entity>, third: Seq<Entity>)
    requires
        evolved(first, second),
        evolved(second, third),
    ensures
        evolved(first, third),
{
    assert forall|k: int| 0 <= k < first.len() implies {
        &&& frame(#[trigger] third[k]) == frame(first[k])
        &&& !is_dynamic(first[k]) ==> third[k] == first[k]
    } by {
        assert(frame(second[k]) == frame(first[k]));
        assert(frame(third[k]) == frame(second[k]));
    }
}

/// Visiting a pair evolves the state.
pub proof fn lemma_visit_evolves(system: PhysicsSystem, state: Solve, i: int, j: int)
    requires
        0 <= i < state.entities.len(),
        0 <= j < state.entities.len(),
        i != j,
    ensures
        evolved(state.entities, system.visit(state, i, j).entities),
{
    match contact_between(state.entities[i], state.entities[j]) {
        Some((normal, depth)) => {
            lemma_resolve_evolves(system, state, i, j, normal, depth);
        },
        None => {},
    }
}

/// A row of pairs evolves the state.
pub proof fn lemma_solve_row_evolves(system: PhysicsSystem, state: Solve, i: int, upto: int)
    requires
        0 <= i,
        upto <= state.entities.len(),
    ensures
        evolved(state.entities, system.solve_row(state, i, upto).entities),
    decreases upto - i,
{
    if upto > i + 1 {
        let before = system.solve_row(state, i, upto - 1);
        lemma_solve_row_evolves(system, state, i, upto - 1);
        lemma_visit_evolves(system, before, i, upto - 1);
        lemma_evolved_chain(
            state.entities,
            before.entities,
            system.visit(before, i, upto - 1).entities,
        );
    }
}

/// The first rows of a pass evolve the state.
pub proof fn lemma_solve_rows_evolves(system: PhysicsSystem, state: Solve, rows: int)
    requires
        rows <= state.entities.len(),
    ensures
        evolved(state.entities, system.solve_rows(state, rows).entities),
    decreases rows,
{
    if rows > 0 {
        let before = system.solve_rows(state, rows - 1);
        lemma_solve_rows_evolves(system, state, rows - 1);
        lemma_solve_row_evolves(system, before, rows - 1, state.entities.len() as int);
        lemma_evolved_chain(
            state.entities,
            before.entities,
            system.solve_row(before, rows - 1, state.entities.len() as int).entities,
        );
    }
}

/// Any number of passes evolves the state.
pub proof fn lemma_solve_evolves(system: PhysicsSystem, state: Solve, passes: nat)
    ensures
        evolved(state.entities, system.solve(state, passes).entities),
    decreases passes,
{
    if passes > 0 {
        let before = system.solve(state, (passes - 1) as nat);
        lemma_solve_evolves(system, state, (passes - 1) as nat);
        lemma_solve_rows_evolves(system, before, state.entities.len() as int);
        lemma_evolved_chain(
            state.entities,
            before.entities,
            system.solve_rows(before, state.entities.len() as int).entities,
        );
    }
}

/// A step keeps every entity's shape, components and constants: it
/// changes positions, velocities and accelerations only. An entity
/// without physics, or whose physics is not dynamic, is not changed at
/// all, whatever touches it.
pub proof fn lemma_step_evolves(system: PhysicsSystem, entities: Seq<Entity>, dt: Scalar)
    ensures
        evolved(entities, system.stepped(entities, dt)),
{
    let integrated = Seq::new(entities.len(), |k: int| system.integrated(entities[k], dt));
    assert forall|k: int| 0 <= k < entities.len() implies {
        &&& frame(#[trigger] integrated[k]) == frame(entities[k])
        &&& !is_dynamic(entities[k]) ==> integrated[k] == entities[k]
    } by {
        lemma_integrated(system, entities[k], dt);
    }
    let start = Solve { entities: integrated, applied: Set::empty() };
    lemma_solve_evolves(system, start, system.collision_iterations as nat);
    lemma_evolved_chain(entities, integrated, system.stepped(entities, dt));
}

/// A contact that counts as separating exchanges no velocity: where the
/// speed along the normal is zero or more, both sides keep the velocity
/// they had, whether or not the pair was seen before.
pub proof fn lemma_separating_contact_keeps_velocities(
    system: PhysicsSystem,
    a: Side,
    b: Side,
    normal: Vec2,
    depth: Scalar,
    seen: bool,
)
    requires
        normal_speed(a, b, normal)@ >= 0,
    ensures
        system.response(a, b, normal, depth, seen).velocity_a == a.velocity,
        system.response(a, b, normal, depth, seen).velocity_b == b.velocity,
{
    reveal(PhysicsSystem::response);
    if normal_speed(a, b, normal)@ == 0 {
        let total = a.inverse_mass().add_spec(b.inverse_mass());
        let bounce = one().add_spec(combined_restitution(a, b)).neg_spec();
        lemma_mul_zero(bounce);
        lemma_zero_div(total);
        assert(normal_impulse(a, b, normal) == zero());
        lemma_mul_zero(combined_friction(a, b));
        assert(tangent_impulse(a, b, normal) == zero());
        lemma_scale_zero(normal, zero());
        lemma_scale_zero(normal.perp_spec(), zero());
        assert(contact_impulse(a, b, normal) == origin());
        lemma_scale_zero(origin(), a.inverse_mass());
        lemma_scale_zero(origin(), b.inverse_mass());
        lemma_add_origin(a.velocity);
        lemma_add_origin(b.velocity);
    }
}

/// The distance by which a pass pushes a side out of a contact is never
/// negative and never more than the depth beyond the slop, so no pass
/// drives two bodies further apart than just touching within the slop;
/// and it is nothing where the depth is within the slop. This holds for a
/// correction share from zero to one and a side whose inverse mass is at
/// most the total.
pub proof fn lemma_correction_never_overshoots(
    system: PhysicsSystem,
    depth: Scalar,
    inverse: Scalar,
    total: Scalar,
)
    requires
        0 <= system.correction_percent@ <= SCALE,
        inverse@ <= total@,
    ensures
        0 <= system.correction(depth, inverse, total)@,
        system.correction(depth, inverse, total)@ <= magnitude(depth.sub_spec(system.slop)@),
        depth.sub_spec(system.slop)@ <= 0 ==> system.correction(depth, inverse, total)@ == 0,
{
    if total@ > 0 && inverse@ > 0 {
        let excess = depth.sub_spec(system.slop);
        let kept = if excess@ > 0 {
            excess
        } else {
            zero()
        };
        let share = inverse.div_spec(total);
        lemma_share_is_a_fraction(inverse, total);
        lemma_mul_shrinks(kept, system.correction_percent);
        lemma_mul_shrinks(kept.mul_spec(system.correction_percent), share);
        if excess@ <= 0 {
            lemma_mul_zero(system.correction_percent);
            lemma_mul_zero(share);
        }
    }
}

/// A positive part of a positive total, divided by the total, lies from
/// zero to one.
pub proof fn lemma_share_is_a_fraction(part: Scalar, total: Scalar)
    requires
        0 < part@ <= total@,
    ensures
        0 <= part.div_spec(total)@ <= SCALE,
{
    reveal(quotient);
    lemma_product_sign(part@, SCALE as int);
    let p = part@;
    let t = total@;
    assert(0 <= (p * SCALE) / t <= SCALE) by (nonlinear_arith)
        requires
            0 < p <= t,
            SCALE > 0,
    ;
}

/// A body that is dynamic, free of gravity and of forces, and slower
/// than the sleep threshold, is at rest after the force phase, whatever
/// the tick; this holds for a damping factor from minus one to one.
pub proof fn lemma_slow_body_rests(system: PhysicsSystem, physics: Physics, dt: Scalar)
    requires
        physics.dynamic,
        !physics.apply_gravity,
        physics.acceleration == origin(),
        physics.velocity.norm_sq() < system.sleep_velocity_threshold.square(),
        magnitude(system.air_damping@) <= SCALE,
    ensures
        system.accelerated(physics, dt) == (Physics { velocity: origin(), ..physics }),
{
    lemma_scale_zero(origin(), dt);
    lemma_add_origin(physics.velocity);
    lemma_scale_shrinks(physics.velocity, system.air_damping);
}

/// The entities after `count` steps of length `dt`.
pub open spec fn stepped_times(system: PhysicsSystem, entities: Seq<Entity>, dt: Scalar, count: nat)
    -> Seq<Entity>
    decreases count,
{
    if count == 0 {
        entities
    } else {
        system.stepped(stepped_times(system, entities, dt, (count - 1) as nat), dt)
    }
}

/// A world of at most one entity has no pair, so the passes change nothing.
pub proof fn lemma_no_pairs(system: PhysicsSystem, state: Solve, passes: nat)
    requires
        state.entities.len() <= 1,
    ensures
        system.solve(state, passes) == state,
    decreases passes,
{
    if passes > 0 {
        lemma_no_pairs(system, state, (passes - 1) as nat);
        let n = state.entities.len() as int;
        assert(system.solve_rows(state, 0) == state);
        if n == 1 {
            assert(system.solve_row(state, 0, 1) == state);
            assert(system.solve_rows(state, 1) == state);
        }
    }
}

/// The entity with its velocity replaced by zero.
pub open spec fn at_rest(entity: Entity) -> Entity {
    match entity.spec_physics() {
        Some(physics) => entity.with_physics_spec(Some(Physics { velocity: origin(), ..physics })),
        None => entity,
    }
}

/// A single dynamic entity, free of gravity and of forces and slower than
/// the sleep threshold, is at rest where it was after any number of
/// steps: its velocity is exactly zero and nothing else of it changes.
pub proof fn lemma_rest_is_kept(
    system: PhysicsSystem,
    entity: Entity,
    dt: Scalar,
    count: nat,
)
    requires
        count >= 1,
        magnitude(system.air_damping@) <= SCALE,
        match entity.spec_physics() {
            Some(physics) => {
                &&& physics.dynamic
                &&& !physics.apply_gravity
                &&& physics.acceleration == origin()
                &&& physics.velocity.norm_sq() < system.sleep_velocity_threshold.square()
            },
            None => false,
        },
    ensures
        stepped_times(system, seq![entity], dt, count) == seq![at_rest(entity)],
    decreases count,
{
    let physics = entity.spec_physics()->Some_0;
    if count == 1 {
        assert(stepped_times(system, seq![entity], dt, 0) == seq![entity]);
        lemma_single_step_rests(system, entity, dt);
    } else {
        lemma_rest_is_kept(system, entity, dt, (count - 1) as nat);
        let rested = at_rest(entity);
        let vx = physics.velocity.x@;
        let vy = physics.velocity.y@;
        assert(vx * vx + vy * vy >= 0) by (nonlinear_arith);
        assert(origin().norm_sq() == 0);
        assert(at_rest(rested) == rested);
        lemma_single_step_rests(system, rested, dt);
    }
}

/// One step of a world of one slow, force-free, dynamic entity.
proof fn lemma_single_step_rests(system: PhysicsSystem, entity: Entity, dt: Scalar)
    requires
        magnitude(system.air_damping@) <= SCALE,
        match entity.spec_physics() {
            Some(physics) => {
                &&& physics.dynamic
                &&& !physics.apply_gravity
                &&& physics.acceleration == origin()
                &&& physics.velocity.norm_sq() < system.sleep_velocity_threshold.square()
            },
            None => false,
        },
    ensures
        system.stepped(seq![entity], dt) == seq![at_rest(entity)],
{
    let physics = entity.spec_physics()->Some_0;
    lemma_slow_body_rests(system, physics, dt);
    lemma_scale_zero(origin(), dt);
    lemma_add_origin(entity.spec_transform().position);
    assert(system.integrated(entity, dt) == at_rest(entity));
    let entities = seq![entity];
    let integrated = Seq::new(entities.len(), |k: int| system.integrated(entities[k], dt));
    assert(integrated =~= seq![at_rest(entity)]);
    let start = Solve { entities: integrated, applied: Set::empty() };
    lemma_no_pairs(system, start, system.collision_iterations as nat);
}

/// Two sides of equal inverse mass exchange their impulse exactly: what
/// one gains in velocity the other loses, so the sum of the two
/// velocities is kept, wherever the new velocities are finite.
pub proof fn lemma_equal_masses_keep_momentum(
    system: PhysicsSystem,
    a: Side,
    b: Side,
    normal: Vec2,
    depth: Scalar,
    seen: bool,
)
    requires
        a.inverse_mass() == b.inverse_mass(),
        system.response(a, b, normal, depth, seen).velocity_a.x.finite(),
        system.response(a, b, normal, depth, seen).velocity_a.y.finite(),
        system.response(a, b, normal, depth, seen).velocity_b.x.finite(),
        system.response(a, b, normal, depth, seen).velocity_b.y.finite(),
    ensures
        ({
            let r = system.response(a, b, normal, depth, seen);
            &&& r.velocity_a.x@ + r.velocity_b.x@ == a.velocity.x@ + b.velocity.x@
            &&& r.velocity_a.y@ + r.velocity_b.y@ == a.velocity.y@ + b.velocity.y@
        }),
{
    reveal(PhysicsSystem::response);
}

/// Largest magnitude of a velocity component, a thousand million units,
/// for which the exchange below is free of saturation.
pub open spec fn exchange_bound() -> int {
    1_000_000_000_000_000_000
}

/// Two dynamic bodies of unit mass, perfectly elastic and free of
/// friction, that meet along an axis with a speed along the normal that
/// is not positive exchange their velocities along that axis and keep
/// them across it, exactly. The sum of their squared speeds, and so
/// their kinetic energy, is kept.
pub proof fn lemma_elastic_exchange(
    system: PhysicsSystem,
    a: Side,
    b: Side,
    normal: Vec2,
    depth: Scalar,
)
    requires
        a.dynamic && b.dynamic,
        a.mass == one() && b.mass == one(),
        a.restitution == one() && b.restitution == one(),
        a.friction == zero() && b.friction == zero(),
        normal == axis_x(true) || normal == axis_x(false) || normal == axis_y(true) || normal
            == axis_y(false),
        normal_speed(a, b, normal)@ <= 0,
        magnitude(a.velocity.x@) <= exchange_bound(),
        magnitude(a.velocity.y@) <= exchange_bound(),
        magnitude(b.velocity.x@) <= exchange_bound(),
        magnitude(b.velocity.y@) <= exchange_bound(),
    ensures
        ({
            let r = system.response(a, b, normal, depth, false);
            &&& r.impulse
            &&& normal.y@ == 0 ==> {
                &&& r.velocity_a == (Vec2 { x: b.velocity.x, y: a.velocity.y })
                &&& r.velocity_b == (Vec2 { x: a.velocity.x, y: b.velocity.y })
            }
            &&& normal.x@ == 0 ==> {
                &&& r.velocity_a == (Vec2 { x: a.velocity.x, y: b.velocity.y })
                &&& r.velocity_b == (Vec2 { x: b.velocity.x, y: a.velocity.y })
            }
            &&& r.velocity_a.norm_sq() + r.velocity_b.norm_sq() == a.velocity.norm_sq()
                + b.velocity.norm_sq()
        }),
{
    reveal(PhysicsSystem::response);
    lemma_div_self(one());
    assert(a.inverse_mass() == one() && b.inverse_mass() == one());
    let total = a.inverse_mass().add_spec(b.inverse_mass());
    assert(total == Scalar::of(2 * SCALE));
    let relative = a.velocity.sub_spec(b.velocity);
    let along = normal_speed(a, b, normal);
    lemma_mul_one(relative.x);
    lemma_mul_one(relative.y);
    lemma_mul_minus_one(relative.x);
    lemma_mul_minus_one(relative.y);
    lemma_mul_zero(relative.x);
    lemma_mul_zero(relative.y);
    lemma_add_zero(relative.x);
    lemma_add_zero(relative.y);
    lemma_add_zero(relative.x.neg_spec());
    lemma_add_zero(relative.y.neg_spec());
    lemma_sqrt_one();
    lemma_mul_one(one());
    assert(combined_restitution(a, b) == one());
    let bounce = one().add_spec(combined_restitution(a, b)).neg_spec();
    assert(bounce == Scalar::of(-2 * SCALE));
    lemma_mul_whole(along, -2);
    assert(bounce.mul_spec(along) == Scalar::of(-2 * along@));
    lemma_div_whole(along.neg_spec(), 2);
    assert(-2 * along@ == 2 * along.neg_spec()@);
    let j = normal_impulse(a, b, normal);
    assert(j == along.neg_spec());
    lemma_half_zero();
    assert(combined_friction(a, b) == zero());
    lemma_mul_zero(j.abs_spec());
    assert(tangent_impulse(a, b, normal) == zero());
    lemma_scale_zero(normal.perp_spec(), zero());
    lemma_add_origin(normal.scale_spec(j));
    let impulse = contact_impulse(a, b, normal);
    assert(impulse == normal.scale_spec(j));
    lemma_mul_one(j);
    lemma_mul_minus_one(j);
    lemma_mul_zero(j);
    lemma_mul_one(impulse.x);
    lemma_mul_one(impulse.y);
    let r = system.response(a, b, normal, depth, false);
    if normal.y@ == 0 {
        assert(impulse.y == zero());
    } else {
        assert(impulse.x == zero());
    }
}

/// Whether a vector is one of the four unit vectors along the axes.
pub open spec fn is_axis(normal: Vec2) -> bool {
    normal == axis_x(true) || normal == axis_x(false) || normal == axis_y(true) || normal
        == axis_y(false)
}

/// Neither component exceeds one in magnitude.
pub open spec fn within_unit(normal: Vec2) -> bool {
    magnitude(normal.x@) <= SCALE && magnitude(normal.y@) <= SCALE
}

/// The normal is of unit length to within what rounding loses: its
/// squared length lies between those of lengths two billionths under
/// one and a hundred billionths over one.
pub open spec fn nearly_unit(normal: Vec2) -> bool {
    (SCALE - 2) * (SCALE - 2) < normal.norm_sq() < (SCALE + 100) * (SCALE + 100)
}

/// The normal does not point against `offset` on either axis.
pub open spec fn along(normal: Vec2, offset: Vec2) -> bool {
    normal.x@ * offset.x@ >= 0 && normal.y@ * offset.y@ >= 0
}

/// A component `x` of a vector of length `d`, rounded down, divided by
/// that length: the quotient `n` times the length is at most the
/// component times the scale, and falls short of it by less than the
/// length.
proof fn lemma_component(x: int, d: int)
    requires
        0 <= x,
        0 < d,
    ensures
        ({
            let n = (x * SCALE) / d;
            &&& 0 <= n
            &&& n * d <= x * SCALE
            &&& x * SCALE - d < n * d
        }),
{
    let n = (x * SCALE) / d;
    assert(0 <= n && n * d <= x * SCALE && x * SCALE - d < n * d) by (nonlinear_arith)
        requires
            n == (x * SCALE) / d,
            0 <= x,
            0 < d,
            SCALE > 0,
    ;
}

/// The squares of two rounded components against the squared length.
proof fn lemma_nearly_unit(x: int, y: int, d: int, nx: int, ny: int)
    requires
        0 <= x,
        0 <= y,
        10_000_000 <= d,
        d * d <= x * x + y * y < (d + 1) * (d + 1),
        0 <= nx,
        0 <= ny,
        nx * d <= x * SCALE,
        ny * d <= y * SCALE,
        x * SCALE - d < nx * d,
        y * SCALE - d < ny * d,
    ensures
        (SCALE - 2) * (SCALE - 2) < nx * nx + ny * ny < (SCALE + 100) * (SCALE + 100),
{
    let big_x = x * SCALE;
    let big_y = y * SCALE;
    let px = nx * d;
    let py = ny * d;
    let total = x * x + y * y;
    assert(big_x * big_x + big_y * big_y == SCALE * SCALE * total) by (nonlinear_arith)
        requires
            big_x == x * SCALE,
            big_y == y * SCALE,
            total == x * x + y * y,
    ;
    assert(px * px <= big_x * big_x) by (nonlinear_arith)
        requires
            0 <= px <= big_x,
    ;
    assert(py * py <= big_y * big_y) by (nonlinear_arith)
        requires
            0 <= py <= big_y,
    ;
    let top = (SCALE + 100) * d;
    assert(SCALE * SCALE * total < top * top) by (nonlinear_arith)
        requires
            total < (d + 1) * (d + 1),
            top == (SCALE + 100) * d,
            d >= 10_000_000,
            SCALE == 1_000_000_000,
    ;
    assert(px * px + py * py == (nx * nx + ny * ny) * (d * d)) by (nonlinear_arith)
        requires
            px == nx * d,
            py == ny * d,
    ;
    assert(top * top == ((SCALE + 100) * (SCALE + 100)) * (d * d)) by (nonlinear_arith)
        requires
            top == (SCALE + 100) * d,
    ;
    let dd = d * d;
    assert(dd > 0) by (nonlinear_arith)
        requires
            dd == d * d,
            d > 0,
    ;
    assert(nx * nx + ny * ny < (SCALE + 100) * (SCALE + 100)) by (nonlinear_arith)
        requires
            (nx * nx + ny * ny) * dd < ((SCALE + 100) * (SCALE + 100)) * dd,
            dd > 0,
    ;
    // From below: each product falls short of its component by less than
    // the length, and the two components together are less than one and
    // a half lengths.
    assert(px * px >= big_x * big_x - 2 * d * big_x) by (nonlinear_arith)
        requires
            0 <= px,
            big_x - d < px,
            0 <= big_x,
            0 < d,
    ;
    assert(py * py >= big_y * big_y - 2 * d * big_y) by (nonlinear_arith)
        requires
            0 <= py,
            big_y - d < py,
            0 <= big_y,
            0 < d,
    ;
    let sum = big_x + big_y;
    assert(sum * sum <= 2 * (big_x * big_x + big_y * big_y)) by (nonlinear_arith)
        requires
            sum == big_x + big_y,
    ;
    let cap = 3 * SCALE * (d + 1);
    assert(4 * (2 * (SCALE * SCALE * total)) < cap * cap) by (nonlinear_arith)
        requires
            total < (d + 1) * (d + 1),
            cap == 3 * SCALE * (d + 1),
            d > 0,
            SCALE > 0,
    ;
    assert(0 < cap) by (nonlinear_arith)
        requires
            cap == 3 * SCALE * (d + 1),
            d > 0,
            SCALE > 0,
    ;
    assert(0 <= sum) by (nonlinear_arith)
        requires
            sum == x * SCALE + y * SCALE,
            0 <= x,
            0 <= y,
            SCALE > 0,
    ;
    assert(4 * (sum * sum) < cap * cap);
    assert(2 * sum < cap) by (nonlinear_arith)
        requires
            4 * (sum * sum) < cap * cap,
            0 <= sum,
            0 < cap,
    ;
    assert(2 * d * big_x + 2 * d * big_y == d * (2 * sum)) by (nonlinear_arith)
        requires
            sum == big_x + big_y,
    ;
    assert(d * (2 * sum) < d * cap) by (nonlinear_arith)
        requires
            2 * sum < cap,
            d > 0,
    ;
    assert(d * cap <= (3 * SCALE + 300) * dd) by (nonlinear_arith)
        requires
            cap == 3 * SCALE * (d + 1),
            dd == d * d,
            d >= 10_000_000,
            SCALE == 1_000_000_000,
    ;
    assert(SCALE * SCALE * total >= SCALE * SCALE * dd) by (nonlinear_arith)
        requires
            total >= dd,
            SCALE > 0,
    ;
    assert((nx * nx + ny * ny) * dd > (SCALE * SCALE - 3 * SCALE - 300) * dd) by (nonlinear_arith)
        requires
            px * px + py * py == (nx * nx + ny * ny) * dd,
            px * px >= big_x * big_x - 2 * d * big_x,
            py * py >= big_y * big_y - 2 * d * big_y,
            big_x * big_x + big_y * big_y == SCALE * SCALE * total,
            SCALE * SCALE * total >= SCALE * SCALE * dd,
            2 * d * big_x + 2 * d * big_y == d * (2 * sum),
            d * (2 * sum) < d * cap,
            d * cap <= (3 * SCALE + 300) * dd,
    ;
    assert(nx * nx + ny * ny > SCALE * SCALE - 3 * SCALE - 300) by (nonlinear_arith)
        requires
            (nx * nx + ny * ny) * dd > (SCALE * SCALE - 3 * SCALE - 300) * dd,
            dd > 0,
    ;
    assert(SCALE * SCALE - 3 * SCALE - 300 >= (SCALE - 2) * (SCALE - 2)) by (nonlinear_arith)
        requires
            SCALE == 1_000_000_000,
    ;
}

/// A vector longer than the contact epsilon, divided by its own length:
/// the result has no component beyond one, does not point against the
/// vector, and, where the length can be held, is of unit length to
/// within what rounding loses. The length is positive, and where it can
/// be held its square is at most the squared length.
pub proof fn lemma_direction_within_unit(offset: Vec2)
    requires
        offset.norm_sq() > CONTACT_EPSILON_SQUARED,
    ensures
        within_unit(offset.divide_spec(offset.length_spec())),
        along(offset.divide_spec(offset.length_spec()), offset),
        offset.length_spec()@ >= 10_000_000,
        offset.length_spec()@ < LIMIT ==> offset.length_spec().square() <= offset.norm_sq(),
        offset.length_spec()@ < LIMIT ==> nearly_unit(offset.divide_spec(offset.length_spec())),
{
    reveal(quotient);
    let n = offset.norm_sq();
    lemma_floor_sqrt_of_squares(offset.x@, offset.y@);
    let root = crate::scalar::floor_sqrt(n);
    assert(root >= 10_000_000) by (nonlinear_arith)
        requires
            n > 100_000_000_000_000,
            n < (root + 1) * (root + 1),
            0 <= root,
    ;
    let length = offset.length_spec()@;
    let x = magnitude(offset.x@);
    let y = magnitude(offset.y@);
    lemma_product_sign(offset.x@, SCALE as int);
    lemma_product_sign(offset.y@, SCALE as int);
    let normal = offset.divide_spec(offset.length_spec());
    if root <= LIMIT {
        assert(length == root);
        assert((x * SCALE) / length <= SCALE && (x * SCALE) / length >= 0) by (nonlinear_arith)
            requires
                0 <= x <= length,
                length > 0,
                SCALE > 0,
        ;
        assert((y * SCALE) / length <= SCALE && (y * SCALE) / length >= 0) by (nonlinear_arith)
            requires
                0 <= y <= length,
                length > 0,
                SCALE > 0,
        ;
        let nx = (x * SCALE) / length;
        let ny = (y * SCALE) / length;
        assert(magnitude(normal.x@) == nx && magnitude(normal.y@) == ny);
        lemma_component(x, length);
        lemma_component(y, length);
        assert(x * x + y * y == n) by (nonlinear_arith)
            requires
                x == offset.x@ || x == -offset.x@,
                y == offset.y@ || y == -offset.y@,
                n == offset.x@ * offset.x@ + offset.y@ * offset.y@,
        ;
        lemma_nearly_unit(x, y, length, nx, ny);
        assert(normal.norm_sq() == nx * nx + ny * ny) by (nonlinear_arith)
            requires
                nx == normal.x@ || nx == -normal.x@,
                ny == normal.y@ || ny == -normal.y@,
                normal.norm_sq() == normal.x@ * normal.x@ + normal.y@ * normal.y@,
        ;
    } else {
        assert(length == LIMIT);
        assert(x <= LIMIT + 1 && y <= LIMIT + 1);
        assert((x * SCALE) / length <= SCALE && (x * SCALE) / length >= 0) by (nonlinear_arith)
            requires
                0 <= x <= length + 1,
                length > SCALE,
                SCALE > 0,
        ;
        assert((y * SCALE) / length <= SCALE && (y * SCALE) / length >= 0) by (nonlinear_arith)
            requires
                0 <= y <= length + 1,
                length > SCALE,
                SCALE > 0,
        ;
    }
    assert(along(normal, offset)) by {
        lemma_product_sign(normal.x@, offset.x@);
        lemma_product_sign(normal.y@, offset.y@);
    }
}

/// Two circles are in contact exactly when the square of the distance
/// of their centres lies between the epsilon and the square of the sum of
/// the radii. The normal of a contact has no component beyond one and
/// does not point against the way from the first centre to the second.
/// For radii that are not negative it is of unit length to within what
/// rounding loses, and the depth is positive and less than the sum of
/// the radii.
pub proof fn lemma_circle_contact(pos_a: Vec2, r_a: Scalar, pos_b: Vec2, r_b: Scalar)
    ensures
        circle_circle_contact(pos_a, r_a, pos_b, r_b) is Some <==> CONTACT_EPSILON_SQUARED
            < pos_b.sub_spec(pos_a).norm_sq() < r_a.add_spec(r_b).square(),
        match circle_circle_contact(pos_a, r_a, pos_b, r_b) {
            Some((normal, depth)) => {
                &&& within_unit(normal)
                &&& along(normal, pos_b.sub_spec(pos_a))
                &&& r_a@ >= 0 && r_b@ >= 0 ==> {
                    &&& nearly_unit(normal)
                    &&& 0 < depth@ <= r_a.add_spec(r_b)@ - 10_000_000
                }
            },
            None => true,
        },
{
    let offset = pos_b.sub_spec(pos_a);
    let reach = r_a.add_spec(r_b);
    if circle_circle_contact(pos_a, r_a, pos_b, r_b) is Some {
        lemma_direction_within_unit(offset);
        if r_a@ >= 0 && r_b@ >= 0 {
            let length = offset.length_spec()@;
            let n = offset.norm_sq();
            let root = crate::scalar::floor_sqrt(n);
            lemma_floor_sqrt_of_squares(offset.x@, offset.y@);
            assert(root < reach@) by (nonlinear_arith)
                requires
                    root * root <= n,
                    n < reach@ * reach@,
                    0 <= root,
                    0 <= reach@,
            ;
        }
    }
}

/// The normal of a contact between two rectangles is a unit vector along
/// an axis, and the depth is positive.
pub proof fn lemma_rect_contact(
    pos_a: Vec2,
    len_a: Scalar,
    height_a: Scalar,
    pos_b: Vec2,
    len_b: Scalar,
    height_b: Scalar,
)
    ensures
        match rect_rect_contact(pos_a, len_a, height_a, pos_b, len_b, height_b) {
            Some((normal, depth)) => is_axis(normal) && depth@ > 0,
            None => true,
        },
{
}

/// The normal of a contact between a circle and a rectangle has no
/// component beyond one. Where the circle's centre is further than the
/// epsilon from the rectangle, the normal does not point against the way
/// from the centre to the rectangle's nearest point, and for a radius
/// that is not negative it is of unit length to within what rounding
/// loses and the depth is positive and less than the radius. Else the
/// normal is a unit vector along an axis.
pub proof fn lemma_circle_rect_contact(
    circle_pos: Vec2,
    radius: Scalar,
    rect_pos: Vec2,
    length: Scalar,
    height: Scalar,
)
    ensures
        match circle_rect_contact(circle_pos, radius, rect_pos, length, height) {
            Some((normal, depth)) => {
                let offset = closest_point(
                    circle_pos,
                    rect_pos,
                    length.half_spec(),
                    height.half_spec(),
                ).sub_spec(circle_pos);
                &&& within_unit(normal)
                &&& if offset.norm_sq() > CONTACT_EPSILON_SQUARED {
                    &&& along(normal, offset)
                    &&& radius@ >= 0 ==> nearly_unit(normal) && 0 < depth@ <= radius@
                        - 10_000_000
                } else {
                    is_axis(normal)
                }
            },
            None => true,
        },
{
    let offset = closest_point(
        circle_pos,
        rect_pos,
        length.half_spec(),
        height.half_spec(),
    ).sub_spec(circle_pos);
    if circle_rect_contact(circle_pos, radius, rect_pos, length, height) is Some {
        if offset.norm_sq() > CONTACT_EPSILON_SQUARED {
            lemma_direction_within_unit(offset);
            if radius@ >= 0 {
                let n = offset.norm_sq();
                let root = crate::scalar::floor_sqrt(n);
                lemma_floor_sqrt_of_squares(offset.x@, offset.y@);
                assert(root < radius@) by (nonlinear_arith)
                    requires
                        root * root <= n,
                        n < radius@ * radius@,
                        0 <= root,
                        0 <= radius@,
                ;
            }
        }
    }
}

/// A body at rest, free of gravity and of forces, and any body that is
/// not dynamic, comes out of integration as it went in.
pub proof fn lemma_resting_body_is_not_integrated(system: PhysicsSystem, entity: Entity, dt: Scalar)
    requires
        match entity.spec_physics() {
            Some(physics) => !physics.dynamic || {
                &&& !physics.apply_gravity
                &&& physics.acceleration == origin()
                &&& physics.velocity == origin()
            },
            None => true,
        },
    ensures
        system.integrated(entity, dt) == entity,
{
    lemma_scale_zero(origin(), dt);
    lemma_scale_zero(origin(), system.air_damping);
    lemma_add_origin(origin());
    lemma_add_origin(entity.spec_transform().position);
}

/// How far from an exact exchange two equal masses may come out, in raw
/// units: what rounding the impulse down, and then its effect, can lose.
pub open spec fn exchange_tolerance(inverse: Scalar) -> int {
    inverse@ / (SCALE as int) + 2
}

/// Dividing by `d` and multiplying by it again loses less than `d`;
/// dividing the result by the scale loses less than one more.
proof fn lemma_round_trip(w: int, d: int)
    requires
        w >= 0,
        d > 0,
    ensures
        ({
            let q = (w * SCALE) / d;
            let back = (q * d) / (SCALE as int);
            w - (d / (SCALE as int) + 2) <= back <= w
        }),
{
    let q = (w * SCALE) / d;
    let back = (q * d) / (SCALE as int);
    let lost = d / (SCALE as int);
    assert(q * d <= w * SCALE && q * d > w * SCALE - d) by (nonlinear_arith)
        requires
            q == (w * SCALE) / d,
            d > 0,
            w * SCALE >= 0,
    ;
    assert(back <= w) by (nonlinear_arith)
        requires
            back == (q * d) / (SCALE as int),
            q * d <= w * SCALE,
            SCALE > 0,
    ;
    assert(back * SCALE > q * d - SCALE) by (nonlinear_arith)
        requires
            back == (q * d) / (SCALE as int),
            SCALE > 0,
    ;
    assert(lost * SCALE > d - SCALE) by (nonlinear_arith)
        requires
            lost == d / (SCALE as int),
            SCALE > 0,
    ;
    assert(back >= w - (lost + 2)) by (nonlinear_arith)
        requires
            back * SCALE > q * d - SCALE,
            q * d > w * SCALE - d,
            lost * SCALE > d - SCALE,
            SCALE > 0,
    ;
}

/// Two dynamic bodies of equal mass, perfectly elastic and free of
/// friction, that meet along an axis with a speed along the normal that
/// is not positive exchange their velocities along that axis to within
/// the tolerance, and keep them across it exactly. This holds where the
/// impulse is finite.
pub proof fn lemma_equal_masses_exchange(
    system: PhysicsSystem,
    a: Side,
    b: Side,
    normal: Vec2,
    depth: Scalar,
)
    requires
        a.dynamic && b.dynamic,
        a.mass == b.mass,
        0 < a.inverse_mass()@ <= exchange_bound(),
        a.restitution == one() && b.restitution == one(),
        a.friction == zero() && b.friction == zero(),
        is_axis(normal),
        normal_speed(a, b, normal)@ <= 0,
        magnitude(a.velocity.x@) <= exchange_bound(),
        magnitude(a.velocity.y@) <= exchange_bound(),
        magnitude(b.velocity.x@) <= exchange_bound(),
        magnitude(b.velocity.y@) <= exchange_bound(),
        normal_impulse(a, b, normal).finite(),
    ensures
        ({
            let r = system.response(a, b, normal, depth, false);
            let tolerance = exchange_tolerance(a.inverse_mass());
            &&& r.impulse
            &&& normal.y@ == 0 ==> {
                &&& magnitude(r.velocity_a.x@ - b.velocity.x@) <= tolerance
                &&& magnitude(r.velocity_b.x@ - a.velocity.x@) <= tolerance
                &&& r.velocity_a.y == a.velocity.y
                &&& r.velocity_b.y == b.velocity.y
            }
            &&& normal.x@ == 0 ==> {
                &&& magnitude(r.velocity_a.y@ - b.velocity.y@) <= tolerance
                &&& magnitude(r.velocity_b.y@ - a.velocity.y@) <= tolerance
                &&& r.velocity_a.x == a.velocity.x
                &&& r.velocity_b.x == b.velocity.x
            }
        }),
{
    reveal(PhysicsSystem::response);
    let inverse = a.inverse_mass();
    assert(b.inverse_mass() == inverse);
    let total = inverse.add_spec(inverse);
    assert(total == Scalar::of(2 * inverse@));
    let relative = a.velocity.sub_spec(b.velocity);
    let along = normal_speed(a, b, normal);
    lemma_mul_one(relative.x);
    lemma_mul_one(relative.y);
    lemma_mul_minus_one(relative.x);
    lemma_mul_minus_one(relative.y);
    lemma_mul_zero(relative.x);
    lemma_mul_zero(relative.y);
    lemma_add_zero(relative.x);
    lemma_add_zero(relative.y);
    lemma_add_zero(relative.x.neg_spec());
    lemma_add_zero(relative.y.neg_spec());
    lemma_sqrt_one();
    lemma_mul_one(one());
    assert(combined_restitution(a, b) == one());
    let bounce = one().add_spec(combined_restitution(a, b)).neg_spec();
    assert(bounce == Scalar::of(-2 * SCALE));
    lemma_mul_whole(along, -2);
    let w = -along@;
    assert(bounce.mul_spec(along) == Scalar::of(2 * w));
    let j = normal_impulse(a, b, normal);
    let q = (w * SCALE) / inverse@;
    assert(j@ == q) by {
        reveal(quotient);
        lemma_product_sign(2 * w, SCALE as int);
        assert(((2 * w) * SCALE) / (2 * inverse@) == (w * SCALE) / inverse@) by (nonlinear_arith)
            requires
                inverse@ > 0,
                w >= 0,
                SCALE > 0,
        ;
        assert(q >= 0) by (nonlinear_arith)
            requires
                q == (w * SCALE) / inverse@,
                inverse@ > 0,
                w >= 0,
                SCALE > 0,
        ;
    }
    lemma_half_zero();
    assert(combined_friction(a, b) == zero());
    lemma_mul_zero(j.abs_spec());
    assert(tangent_impulse(a, b, normal) == zero());
    lemma_scale_zero(normal.perp_spec(), zero());
    lemma_add_origin(normal.scale_spec(j));
    let impulse = contact_impulse(a, b, normal);
    assert(impulse == normal.scale_spec(j));
    lemma_mul_one(j);
    lemma_mul_minus_one(j);
    lemma_mul_zero(j);
    lemma_mul_zero(inverse);
    lemma_round_trip(w, inverse@);
    let back = (q * inverse@) / (SCALE as int);
    assert(j.mul_spec(inverse)@ == back && j.neg_spec().mul_spec(inverse)@ == -back) by {
        reveal(quotient);
        lemma_product_sign(q, inverse@);
        lemma_product_sign(-q, inverse@);
        assert((-q) * inverse@ == -(q * inverse@)) by (nonlinear_arith);
    }
}

/// A unit vector along an axis is of unit length, and so is its
/// negation.
pub proof fn lemma_axis_is_unit(normal: Vec2)
    requires
        is_axis(normal),
    ensures
        nearly_unit(normal),
        within_unit(normal),
        is_axis(normal.neg_spec()),
{
    assert((SCALE - 2) * (SCALE - 2) < SCALE * SCALE + 0 * 0 < (SCALE + 100) * (SCALE + 100))
        by (nonlinear_arith)
        requires
            SCALE == 1_000_000_000,
    ;
    assert((-SCALE) * (-SCALE) == SCALE * SCALE) by (nonlinear_arith);
}

/// Turning a normal round keeps its length.
pub proof fn lemma_reversed_normal(normal: Vec2)
    requires
        within_unit(normal),
    ensures
        within_unit(normal.neg_spec()),
        normal.neg_spec().norm_sq() == normal.norm_sq(),
{
    let x = normal.x@;
    let y = normal.y@;
    assert((-x) * (-x) == x * x && (-y) * (-y) == y * y) by (nonlinear_arith);
}

/// The extents of an entity's shape are not negative.
pub open spec fn has_extent(entity: Entity) -> bool {
    match entity.spec_shape() {
        Shape::Circle { radius, .. } => radius@ >= 0,
        Shape::Rectangle { length, height, .. } => length@ >= 0 && height@ >= 0,
        Shape::Text { .. } => true,
    }
}

/// The normal of every contact between two entities has no component
/// beyond one; between entities whose extents are not negative it is of
/// unit length to within what rounding loses.
pub proof fn lemma_contact_normal_is_unit(a: Entity, b: Entity)
    ensures
        match contact_between(a, b) {
            Some((normal, depth)) => {
                &&& within_unit(normal)
                &&& has_extent(a) && has_extent(b) ==> nearly_unit(normal)
            },
            None => true,
        },
{
    let pos_a = a.spec_transform().position;
    let pos_b = b.spec_transform().position;
    if contact_between(a, b) is Some {
        match (a.spec_shape(), b.spec_shape()) {
            (Shape::Circle { radius: r_a, .. }, Shape::Circle { radius: r_b, .. }) => {
                lemma_circle_contact(pos_a, r_a, pos_b, r_b);
            },
            (Shape::Circle { radius, .. }, Shape::Rectangle { length, height, .. }) => {
                lemma_circle_rect_contact(pos_a, radius, pos_b, length, height);
                let normal = circle_rect_contact(pos_a, radius, pos_b, length, height)->Some_0.0;
                if is_axis(normal) {
                    lemma_axis_is_unit(normal);
                }
            },
            (Shape::Rectangle { length, height, .. }, Shape::Circle { radius, .. }) => {
                lemma_circle_rect_contact(pos_b, radius, pos_a, length, height);
                let normal = circle_rect_contact(pos_b, radius, pos_a, length, height)->Some_0.0;
                if is_axis(normal) {
                    lemma_axis_is_unit(normal);
                }
                lemma_reversed_normal(normal);
            },
            (
                Shape::Rectangle { length: l_a, height: h_a, .. },
                Shape::Rectangle { length: l_b, height: h_b, .. },
            ) => {
                lemma_rect_contact(pos_a, l_a, h_a, pos_b, l_b, h_b);
                lemma_axis_is_unit(rect_rect_contact(pos_a, l_a, h_a, pos_b, l_b, h_b)->Some_0.0);
            },
            _ => {},
        }
    }
}

/// A pair that has had its impulse in this step gets none again: both
/// sides keep their velocities, and the pair is not marked anew.
pub proof fn lemma_seen_pair_keeps_velocities(
    system: PhysicsSystem,
    a: Side,
    b: Side,
    normal: Vec2,
    depth: Scalar,
)
    ensures
        system.response(a, b, normal, depth, true).velocity_a == a.velocity,
        system.response(a, b, normal, depth, true).velocity_b == b.velocity,
        !system.response(a, b, normal, depth, true).impulse,
{
    reveal(PhysicsSystem::response);
}

/// The impulse along the tangent is never larger than the impulse along
/// the normal times the friction, for coefficients that are not
/// negative.
pub proof fn lemma_friction_is_bounded(a: Side, b: Side, normal: Vec2)
    requires
        a.friction@ >= 0,
        b.friction@ >= 0,
    ensures
        magnitude(tangent_impulse(a, b, normal)@) <= normal_impulse(a, b, normal).abs_spec().mul_spec(
            combined_friction(a, b),
        )@,
{
    reveal(quotient);
    let friction = combined_friction(a, b);
    assert(friction@ >= 0);
    let j = normal_impulse(a, b, normal).abs_spec();
    lemma_product_sign(j@, friction@);
    let limit = j.mul_spec(friction);
    assert(limit@ >= 0) by (nonlinear_arith)
        requires
            limit@ == crate::scalar::saturate(
                if (j@ * friction@ < 0) == (SCALE < 0) {
                    magnitude(j@ * friction@) / magnitude(SCALE as int)
                } else {
                    -(magnitude(j@ * friction@) / magnitude(SCALE as int))
                },
            ),
            j@ * friction@ >= 0,
            SCALE > 0,
    ;
}

/// What the restitution of a pair may fall short of the smaller
/// coefficient, in raw units: the square root of what rounding the
/// product down can lose.
pub open spec fn restitution_tolerance() -> int {
    31_624
}

/// The restitution of a pair is never more than the larger of the two
/// coefficients, so neither side makes the other more rigid than it is;
/// and it is not less than the smaller one, to within the tolerance.
/// This holds for coefficients from zero to one.
pub proof fn lemma_restitution_is_between(a: Side, b: Side)
    requires
        0 <= a.restitution@ <= b.restitution@ <= SCALE,
    ensures
        a.restitution@ - restitution_tolerance() <= combined_restitution(a, b)@ <= b.restitution@,
        combined_restitution(b, a) == combined_restitution(a, b),
{
    reveal(quotient);
    let low = a.restitution@;
    let high = b.restitution@;
    lemma_product_sign(low, high);
    lemma_product_sign(high, low);
    assert(low * high == high * low) by (nonlinear_arith);
    let product = (low * high) / (SCALE as int);
    assert(0 <= low * high && low * low <= low * high && low * high <= high * high)
        by (nonlinear_arith)
        requires
            0 <= low <= high,
    ;
    assert(0 <= product <= SCALE && product * SCALE <= low * high && product * SCALE > low * high
        - SCALE) by (nonlinear_arith)
        requires
            product == (low * high) / (SCALE as int),
            0 <= low * high,
            low * high <= high * high,
            0 <= high <= SCALE,
            SCALE > 0,
    ;
    assert(a.restitution.mul_spec(b.restitution)@ == product);
    assert(b.restitution.mul_spec(a.restitution)@ == product);
    let short = low - restitution_tolerance();
    if short > 0 {
        assert(short * short <= low * low - SCALE) by (nonlinear_arith)
            requires
                short == low - 31_624,
                short > 0,
                SCALE == 1_000_000_000,
        ;
    }
    if product > 0 {
        crate::scalar::lemma_floor_sqrt_exists(product * SCALE);
        let root = crate::scalar::floor_sqrt(product * SCALE);
        assert(root <= high) by (nonlinear_arith)
            requires
                0 <= root,
                root * root <= product * SCALE,
                product * SCALE <= high * high,
                0 <= high,
        ;
        if short > 0 {
            assert(short <= root) by (nonlinear_arith)
                requires
                    0 <= root,
                    0 < short,
                    product * SCALE < (root + 1) * (root + 1),
                    short * short <= product * SCALE,
            ;
        }
    } else {
        if short > 0 {
            assert(false) by (nonlinear_arith)
                requires
                    short * short <= low * low - SCALE,
                    low * low <= low * high,
                    low * high - SCALE < 0,
            ;
        }
    }
}

} // verus!
