//! How an overlap between an immovable circle and a resting one is
//! taken apart, pass by pass, where their centres lie along an axis.
use vstd::prelude::*;
use crate::algebra::{
    lemma_add_zero, lemma_div_self, lemma_mul_minus_one, lemma_mul_one, lemma_mul_shrinks,
    lemma_mul_zero, lemma_quotient_exact, lemma_zero_div, one, origin, zero,
};
use crate::components::Shape;
use crate::entity::Entity;
use crate::scalar::{is_floor_sqrt, lemma_floor_sqrt_unique, magnitude, Scalar, LIMIT, SCALE};
use crate::systems::laws::{
    is_axis, lemma_resting_body_is_not_integrated, lemma_axis_is_unit, lemma_placed,
    lemma_response_keeps_immovable, lemma_separating_contact_keeps_velocities, stepped_times,
};
use crate::systems::physics::{
    axis_x, axis_y, contact_between, is_dynamic, normal_speed, side_of, PhysicsSystem, Side,
    Solve,
};
use crate::vector::Vec2;

verus! {

/// The vector of length `distance`, in raw units, along an axis.
pub open spec fn span(axis: Vec2, distance: int) -> Vec2 {
    if axis == axis_x(true) {
        Vec2 { x: Scalar::of(distance), y: zero() }
    } else if axis == axis_x(false) {
        Vec2 { x: Scalar::of(-distance), y: zero() }
    } else if axis == axis_y(true) {
        Vec2 { x: zero(), y: Scalar::of(distance) }
    } else {
        Vec2 { x: zero(), y: Scalar::of(-distance) }
    }
}

/// A vector along an axis has the length it was made with and the axis
/// for its direction.
pub proof fn lemma_span(axis: Vec2, distance: int)
    requires
        is_axis(axis),
        0 < distance <= LIMIT,
    ensures
        span(axis, distance).norm_sq() == distance * distance,
        span(axis, distance).length_spec() == Scalar::of(distance),
        span(axis, distance).divide_spec(Scalar::of(distance)) == axis,
        span(axis.neg_spec(), distance) == span(axis, distance).neg_spec(),
        is_axis(axis.neg_spec()),
{
    let length = Scalar::of(distance);
    assert(is_floor_sqrt(distance * distance, distance)) by (nonlinear_arith)
        requires
            distance > 0,
    ;
    lemma_floor_sqrt_unique(distance * distance, distance);
    lemma_div_self(length);
    lemma_zero_div(length);
    lemma_quotient_exact(-(SCALE as int), distance);
    assert((-distance) * SCALE == (-(SCALE as int)) * distance) by (nonlinear_arith);
    assert(length.neg_spec().div_spec(length) == one().neg_spec());
    assert((-distance) * (-distance) == distance * distance) by (nonlinear_arith);
    lemma_axis_is_unit(axis);
    let v = span(axis, distance);
    if axis == axis_x(true) {
        assert(v == (Vec2 { x: length, y: zero() }));
        assert(v.x@ * v.x@ + v.y@ * v.y@ == distance * distance) by (nonlinear_arith)
            requires
                v.x@ == distance,
                v.y@ == 0,
        ;
    } else if axis == axis_x(false) {
        assert(v == (Vec2 { x: length.neg_spec(), y: zero() }));
        assert(v.x@ * v.x@ + v.y@ * v.y@ == distance * distance) by (nonlinear_arith)
            requires
                v.x@ == -distance,
                v.y@ == 0,
        ;
    } else if axis == axis_y(true) {
        assert(v == (Vec2 { x: zero(), y: length }));
        assert(v.x@ * v.x@ + v.y@ * v.y@ == distance * distance) by (nonlinear_arith)
            requires
                v.y@ == distance,
                v.x@ == 0,
        ;
    } else {
        assert(v == (Vec2 { x: zero(), y: length.neg_spec() }));
        assert(v.x@ * v.x@ + v.y@ * v.y@ == distance * distance) by (nonlinear_arith)
            requires
                v.y@ == -distance,
                v.x@ == 0,
        ;
    }
}

/// A unit vector along an axis, scaled by a distance, is the vector of
/// that length along the axis.
pub proof fn lemma_scaled_axis(axis: Vec2, distance: Scalar)
    requires
        is_axis(axis),
        0 <= distance@,
    ensures
        axis.scale_spec(distance) == span(axis, distance@),
{
    lemma_mul_one(distance);
    lemma_mul_minus_one(distance);
    lemma_mul_zero(distance);
}

impl PhysicsSystem {
    /// The distance by which one pass moves a side that bears the whole
    /// correction: the correction share of the depth beyond the slop.
    pub open spec fn whole_correction(self, depth: Scalar) -> Scalar {
        let excess = depth.sub_spec(self.slop);
        if excess@ > 0 {
            excess.mul_spec(self.correction_percent)
        } else {
            zero()
        }
    }
}

/// A contact between a side that cannot move and one that rests moves
/// the resting side by the whole correction, away from the other where
/// the normal points from the first side to the second, and changes
/// nothing else: neither velocity, nor the side that cannot move. This
/// holds in either order of the two sides.
pub proof fn lemma_response_pushes(
    system: PhysicsSystem,
    fixed: Side,
    moving: Side,
    normal: Vec2,
    depth: Scalar,
    seen: bool,
)
    requires
        !fixed.dynamic,
        fixed.velocity == origin(),
        moving.velocity == origin(),
        moving.inverse_mass()@ > 0,
    ensures
        system.response(fixed, moving, normal, depth, seen).position_a == fixed.position,
        system.response(fixed, moving, normal, depth, seen).velocity_a == origin(),
        system.response(fixed, moving, normal, depth, seen).velocity_b == origin(),
        system.response(fixed, moving, normal, depth, seen).position_b == moving.position.add_spec(
            normal.scale_spec(system.whole_correction(depth)),
        ),
        system.response(moving, fixed, normal, depth, seen).position_b == fixed.position,
        system.response(moving, fixed, normal, depth, seen).velocity_b == origin(),
        system.response(moving, fixed, normal, depth, seen).velocity_a == origin(),
        system.response(moving, fixed, normal, depth, seen).position_a == moving.position.sub_spec(
            normal.scale_spec(system.whole_correction(depth)),
        ),
{
    let inverse = moving.inverse_mass();
    lemma_add_zero(inverse);
    lemma_div_self(inverse);
    lemma_mul_zero(normal.x);
    lemma_mul_zero(normal.y);
    lemma_add_zero(zero());
    assert(normal_speed(fixed, moving, normal) == zero());
    assert(normal_speed(moving, fixed, normal) == zero());
    lemma_separating_contact_keeps_velocities(system, fixed, moving, normal, depth, seen);
    lemma_separating_contact_keeps_velocities(system, moving, fixed, normal, depth, seen);
    lemma_response_keeps_immovable(system, fixed, moving, normal, depth, seen);
    lemma_response_keeps_immovable(system, moving, fixed, normal, depth, seen);
    let excess = depth.sub_spec(system.slop);
    let kept = if excess@ > 0 {
        excess
    } else {
        zero()
    };
    lemma_mul_one(kept.mul_spec(system.correction_percent));
    lemma_mul_zero(system.correction_percent);
    assert(system.correction(depth, inverse, inverse) == system.whole_correction(depth));
    reveal(PhysicsSystem::response);
}

/// The radius of a circle, and zero for any other shape.
pub open spec fn radius_of(entity: Entity) -> Scalar {
    match entity.spec_shape() {
        Shape::Circle { radius, .. } => radius,
        _ => zero(),
    }
}

/// The centre of an entity.
pub open spec fn centre_of(entity: Entity) -> Vec2 {
    entity.spec_transform().position
}

/// The point `distance` from `start` along an axis, in raw units.
pub open spec fn point_along(start: Vec2, axis: Vec2, distance: int) -> Vec2 {
    if axis == axis_x(true) {
        Vec2 { x: Scalar::of(start.x@ + distance), y: start.y }
    } else if axis == axis_x(false) {
        Vec2 { x: Scalar::of(start.x@ - distance), y: start.y }
    } else if axis == axis_y(true) {
        Vec2 { x: start.x, y: Scalar::of(start.y@ + distance) }
    } else {
        Vec2 { x: start.x, y: Scalar::of(start.y@ - distance) }
    }
}

/// How far the centre of `moving` lies from that of `fixed` along an
/// axis, in raw units.
pub open spec fn separation(fixed: Entity, moving: Entity, axis: Vec2) -> int {
    if axis == axis_x(true) {
        centre_of(moving).x@ - centre_of(fixed).x@
    } else if axis == axis_x(false) {
        centre_of(fixed).x@ - centre_of(moving).x@
    } else if axis == axis_y(true) {
        centre_of(moving).y@ - centre_of(fixed).y@
    } else {
        centre_of(fixed).y@ - centre_of(moving).y@
    }
}

/// A dynamic circle `moving` rests beside an immovable circle `fixed`:
/// its centre lies from the other's along `axis`, further than the
/// contact epsilon; neither has a velocity; `moving` is free of gravity
/// and of forces and has a positive inverse mass; and the system
/// corrects a share from zero to one of what lies beyond a slop that is
/// not negative. The centres are far enough from the ends of the range
/// of numbers for the circles to be drawn apart.
pub open spec fn rests_beside(system: PhysicsSystem, fixed: Entity, moving: Entity, axis: Vec2)
    -> bool {
    let reach = radius_of(fixed)@ + radius_of(moving)@;
    &&& is_axis(axis)
    &&& fixed.spec_shape() is Circle
    &&& moving.spec_shape() is Circle
    &&& radius_of(fixed)@ >= 0
    &&& radius_of(moving)@ >= 0
    &&& !is_dynamic(fixed)
    &&& side_of(fixed).velocity == origin()
    &&& match moving.spec_physics() {
        Some(physics) => {
            &&& physics.dynamic
            &&& !physics.apply_gravity
            &&& physics.acceleration == origin()
            &&& physics.velocity == origin()
        },
        None => false,
    }
    &&& side_of(moving).inverse_mass()@ > 0
    &&& 0 <= system.slop@
    &&& 0 <= system.correction_percent@ <= SCALE
    &&& centre_of(moving) == point_along(
        centre_of(fixed),
        axis,
        separation(fixed, moving, axis),
    )
    &&& 10_000_000 < separation(fixed, moving, axis)
    &&& reach <= LIMIT
    &&& magnitude(centre_of(fixed).x@) + reach <= LIMIT
    &&& magnitude(centre_of(fixed).y@) + reach <= LIMIT
    &&& magnitude(centre_of(fixed).x@) + separation(fixed, moving, axis) <= LIMIT
    &&& magnitude(centre_of(fixed).y@) + separation(fixed, moving, axis) <= LIMIT
}

/// The depth of the contact between two circles whose centres are
/// `apart`, where they are in contact.
pub open spec fn depth_at(fixed: Entity, moving: Entity, apart: int) -> Scalar {
    Scalar::of(radius_of(fixed)@ + radius_of(moving)@ - apart)
}

/// The distance by which one look at the pair pushes the moving circle
/// away: the whole correction of their depth, and nothing where they
/// are apart.
pub open spec fn push_of(system: PhysicsSystem, fixed: Entity, moving: Entity, axis: Vec2) -> int {
    let apart = separation(fixed, moving, axis);
    if apart < radius_of(fixed)@ + radius_of(moving)@ {
        system.whole_correction(depth_at(fixed, moving, apart))@
    } else {
        0
    }
}

/// The entity moved along an axis by `distance`, and at rest.
pub open spec fn shifted(entity: Entity, axis: Vec2, distance: int) -> Entity {
    entity.placed(point_along(centre_of(entity), axis, distance), origin())
}

/// The contact between the two circles, in either order: where they
/// overlap, the normal is the axis from the first to the second, and the
/// depth is what their distance lacks to the sum of the radii.
pub proof fn lemma_contact_along_axis(
    system: PhysicsSystem,
    fixed: Entity,
    moving: Entity,
    axis: Vec2,
)
    requires
        rests_beside(system, fixed, moving, axis),
    ensures
        ({
            let apart = separation(fixed, moving, axis);
            let depth = depth_at(fixed, moving, apart);
            if apart < radius_of(fixed)@ + radius_of(moving)@ {
                &&& contact_between(fixed, moving) == Some((axis, depth))
                &&& contact_between(moving, fixed) == Some((axis.neg_spec(), depth))
            } else {
                &&& contact_between(fixed, moving) is None
                &&& contact_between(moving, fixed) is None
            }
        }),
{
    let apart = separation(fixed, moving, axis);
    let start = centre_of(fixed);
    let end = centre_of(moving);
    let reach = radius_of(fixed).add_spec(radius_of(moving));
    assert(radius_of(moving).add_spec(radius_of(fixed)) == reach);
    lemma_span(axis, apart);
    lemma_span(axis.neg_spec(), apart);
    let forth = end.sub_spec(start);
    let back = start.sub_spec(end);
    assert(forth == span(axis, apart));
    assert(back == span(axis.neg_spec(), apart));
    if apart < reach@ {
        assert(apart * apart > 100_000_000_000_000) by (nonlinear_arith)
            requires
                apart > 10_000_000,
        ;
        assert(apart * apart < reach@ * reach@) by (nonlinear_arith)
            requires
                0 < apart < reach@,
        ;
    } else {
        assert(apart * apart >= reach@ * reach@) by (nonlinear_arith)
            requires
                apart >= reach@,
                reach@ >= 0,
        ;
    }
}

/// The larger of two integers.
pub open spec fn larger(x: int, y: int) -> int {
    if x < y {
        y
    } else {
        x
    }
}

/// The world of the two circles, in either order.
pub open spec fn pair_of(fixed: Entity, moving: Entity, moving_first: bool) -> Seq<Entity> {
    if moving_first {
        seq![moving, fixed]
    } else {
        seq![fixed, moving]
    }
}

/// The depth beyond the slop: what the distance of the centres lacks
/// to the sum of the radii less the slop, and nothing where it lacks
/// nothing.
pub open spec fn gap(system: PhysicsSystem, fixed: Entity, moving: Entity, axis: Vec2) -> int {
    larger(
        radius_of(fixed)@ + radius_of(moving)@ - system.slop@ - separation(fixed, moving, axis),
        0,
    )
}

/// The push is the correction share of the depth beyond the slop. It is
/// never negative and never more than that depth, so it takes the
/// circles no further apart than where they touch within the slop.
pub proof fn lemma_push_is_bounded(
    system: PhysicsSystem,
    fixed: Entity,
    moving: Entity,
    axis: Vec2,
)
    requires
        rests_beside(system, fixed, moving, axis),
    ensures
        push_of(system, fixed, moving, axis) == Scalar::of(
            gap(system, fixed, moving, axis),
        ).mul_spec(system.correction_percent)@,
        0 <= push_of(system, fixed, moving, axis) <= gap(system, fixed, moving, axis),
        separation(fixed, moving, axis) + push_of(system, fixed, moving, axis) <= larger(
            separation(fixed, moving, axis),
            radius_of(fixed)@ + radius_of(moving)@ - system.slop@,
        ),
{
    let depth = depth_at(fixed, moving, separation(fixed, moving, axis));
    let beyond = Scalar::of(gap(system, fixed, moving, axis));
    lemma_mul_shrinks(beyond, system.correction_percent);
    lemma_mul_zero(system.correction_percent);
}

/// A resting circle moved further along the axis, no further than where
/// the two touch, still rests beside the other, that much further away.
pub proof fn lemma_shifted_rests(
    system: PhysicsSystem,
    fixed: Entity,
    moving: Entity,
    axis: Vec2,
    push: int,
)
    requires
        rests_beside(system, fixed, moving, axis),
        0 <= push,
        separation(fixed, moving, axis) + push <= larger(
            separation(fixed, moving, axis),
            radius_of(fixed)@ + radius_of(moving)@,
        ),
    ensures
        rests_beside(system, fixed, shifted(moving, axis, push), axis),
        separation(fixed, shifted(moving, axis, push), axis) == separation(fixed, moving, axis)
            + push,
        radius_of(shifted(moving, axis, push)) == radius_of(moving),
        push == 0 ==> shifted(moving, axis, push) == moving,
{
    let apart = separation(fixed, moving, axis);
    let after = shifted(moving, axis, push);
    let start = centre_of(fixed);
    assert(centre_of(after) == point_along(start, axis, apart + push));
    lemma_placed(moving, centre_of(moving), origin());
    assert(side_of(after).inverse_mass() == side_of(moving).inverse_mass());
}

/// A point moved by a distance along an axis: the axis scaled by the
/// distance and added, or the opposite axis scaled and taken away.
pub proof fn lemma_moved_along(point: Vec2, axis: Vec2, amount: Scalar)
    requires
        is_axis(axis),
        0 <= amount@,
    ensures
        point.add_spec(axis.scale_spec(amount)) == point_along(point, axis, amount@),
        point.sub_spec(axis.neg_spec().scale_spec(amount)) == point_along(point, axis, amount@),
{
    lemma_scaled_axis(axis, amount);
    lemma_axis_is_unit(axis);
    lemma_scaled_axis(axis.neg_spec(), amount);
}

/// What one look at the pair leaves of the two circles, whichever comes
/// first: the fixed one as it is, and the moving one pushed away and at
/// rest.
pub proof fn lemma_look_pushes_out(
    system: PhysicsSystem,
    fixed: Entity,
    moving: Entity,
    axis: Vec2,
    seen: bool,
)
    requires
        rests_beside(system, fixed, moving, axis),
        separation(fixed, moving, axis) < radius_of(fixed)@ + radius_of(moving)@,
    ensures
        ({
            let depth = depth_at(fixed, moving, separation(fixed, moving, axis));
            let after = shifted(moving, axis, push_of(system, fixed, moving, axis));
            let forth = system.response(side_of(fixed), side_of(moving), axis, depth, seen);
            let back = system.response(
                side_of(moving),
                side_of(fixed),
                axis.neg_spec(),
                depth,
                seen,
            );
            &&& fixed.placed(forth.position_a, forth.velocity_a) == fixed
            &&& moving.placed(forth.position_b, forth.velocity_b) == after
            &&& moving.placed(back.position_a, back.velocity_a) == after
            &&& fixed.placed(back.position_b, back.velocity_b) == fixed
        }),
{
    let depth = depth_at(fixed, moving, separation(fixed, moving, axis));
    let amount = system.whole_correction(depth);
    lemma_response_pushes(system, side_of(fixed), side_of(moving), axis, depth, seen);
    lemma_response_pushes(system, side_of(fixed), side_of(moving), axis.neg_spec(), depth, seen);
    lemma_push_is_bounded(system, fixed, moving, axis);
    lemma_moved_along(centre_of(moving), axis, amount);
    lemma_placed(fixed, centre_of(fixed), origin());
}

/// Resolving a contact in a world of two entities leaves each where the
/// response puts it.
proof fn lemma_resolve_pair(
    system: PhysicsSystem,
    first: Entity,
    second: Entity,
    applied: Set<(int, int)>,
    normal: Vec2,
    depth: Scalar,
)
    ensures
        ({
            let r = system.response(
                side_of(first),
                side_of(second),
                normal,
                depth,
                applied.contains(crate::systems::pairs::ordered(0, 1)),
            );
            system.resolve(Solve { entities: seq![first, second], applied }, 0, 1, normal, depth).entities
                == seq![
                first.placed(r.position_a, r.velocity_a),
                second.placed(r.position_b, r.velocity_b),
            ]
        }),
{
    let state = Solve { entities: seq![first, second], applied };
    let r = system.response(
        side_of(first),
        side_of(second),
        normal,
        depth,
        applied.contains(crate::systems::pairs::ordered(0, 1)),
    );
    assert(system.resolve(state, 0, 1, normal, depth).entities =~= seq![
        first.placed(r.position_a, r.velocity_a),
        second.placed(r.position_b, r.velocity_b),
    ]);
}

/// One look at the pair where the fixed circle comes first.
proof fn lemma_visit_pushes_second(
    system: PhysicsSystem,
    fixed: Entity,
    moving: Entity,
    axis: Vec2,
    applied: Set<(int, int)>,
)
    requires
        rests_beside(system, fixed, moving, axis),
    ensures
        system.visit(Solve { entities: seq![fixed, moving], applied }, 0, 1).entities == seq![
            fixed,
            shifted(moving, axis, push_of(system, fixed, moving, axis)),
        ],
{
    let state = Solve { entities: seq![fixed, moving], applied };
    let seen = applied.contains(crate::systems::pairs::ordered(0, 1));
    let depth = depth_at(fixed, moving, separation(fixed, moving, axis));
    lemma_contact_along_axis(system, fixed, moving, axis);
    if separation(fixed, moving, axis) < radius_of(fixed)@ + radius_of(moving)@ {
        lemma_look_pushes_out(system, fixed, moving, axis, seen);
        lemma_resolve_pair(system, fixed, moving, applied, axis, depth);
        assert(system.visit(state, 0, 1) == system.resolve(state, 0, 1, axis, depth));
    } else {
        lemma_shifted_rests(system, fixed, moving, axis, 0);
        assert(system.visit(state, 0, 1) == state);
    }
}

/// One look at the pair where the moving circle comes first.
proof fn lemma_visit_pushes_first(
    system: PhysicsSystem,
    fixed: Entity,
    moving: Entity,
    axis: Vec2,
    applied: Set<(int, int)>,
)
    requires
        rests_beside(system, fixed, moving, axis),
    ensures
        system.visit(Solve { entities: seq![moving, fixed], applied }, 0, 1).entities == seq![
            shifted(moving, axis, push_of(system, fixed, moving, axis)),
            fixed,
        ],
{
    let state = Solve { entities: seq![moving, fixed], applied };
    let seen = applied.contains(crate::systems::pairs::ordered(0, 1));
    let depth = depth_at(fixed, moving, separation(fixed, moving, axis));
    lemma_contact_along_axis(system, fixed, moving, axis);
    if separation(fixed, moving, axis) < radius_of(fixed)@ + radius_of(moving)@ {
        lemma_look_pushes_out(system, fixed, moving, axis, seen);
        lemma_resolve_pair(system, moving, fixed, applied, axis.neg_spec(), depth);
        assert(system.visit(state, 0, 1) == system.resolve(
            state,
            0,
            1,
            axis.neg_spec(),
            depth,
        ));
    } else {
        lemma_shifted_rests(system, fixed, moving, axis, 0);
        assert(system.visit(state, 0, 1) == state);
    }
}

/// One look at the pair pushes the moving circle away from the fixed one
/// along the axis by the whole correction of their depth, and leaves
/// everything else as it was. This holds in either order of the two in
/// the world.
pub proof fn lemma_visit_pushes_out(
    system: PhysicsSystem,
    fixed: Entity,
    moving: Entity,
    axis: Vec2,
    moving_first: bool,
    applied: Set<(int, int)>,
)
    requires
        rests_beside(system, fixed, moving, axis),
    ensures
        system.visit(
            Solve { entities: pair_of(fixed, moving, moving_first), applied },
            0,
            1,
        ).entities == pair_of(
            fixed,
            shifted(moving, axis, push_of(system, fixed, moving, axis)),
            moving_first,
        ),
{
    if moving_first {
        lemma_visit_pushes_first(system, fixed, moving, axis, applied);
    } else {
        lemma_visit_pushes_second(system, fixed, moving, axis, applied);
    }
}

/// The moving circle after `passes` looks at the pair.
pub open spec fn pushed(
    system: PhysicsSystem,
    fixed: Entity,
    moving: Entity,
    axis: Vec2,
    passes: nat,
) -> Entity
    decreases passes,
{
    if passes == 0 {
        moving
    } else {
        let before = pushed(system, fixed, moving, axis, (passes - 1) as nat);
        shifted(before, axis, push_of(system, fixed, before, axis))
    }
}

/// However often the pair is looked at, the moving circle keeps resting
/// beside the fixed one, on the same axis; it never comes nearer to it,
/// and it never goes further from it than where it began or where the
/// two touch within the slop, whichever is further. With every look the
/// depth beyond the slop shrinks by its correction share, rounded down.
pub proof fn lemma_pushed_settles(
    system: PhysicsSystem,
    fixed: Entity,
    moving: Entity,
    axis: Vec2,
    passes: nat,
)
    requires
        rests_beside(system, fixed, moving, axis),
    ensures
        rests_beside(system, fixed, pushed(system, fixed, moving, axis, passes), axis),
        radius_of(pushed(system, fixed, moving, axis, passes)) == radius_of(moving),
        separation(fixed, moving, axis) <= separation(
            fixed,
            pushed(system, fixed, moving, axis, passes),
            axis,
        ),
        separation(fixed, pushed(system, fixed, moving, axis, passes), axis) <= larger(
            separation(fixed, moving, axis),
            radius_of(fixed)@ + radius_of(moving)@ - system.slop@,
        ),
        passes > 0 ==> ({
            let before = pushed(system, fixed, moving, axis, (passes - 1) as nat);
            let after = pushed(system, fixed, moving, axis, passes);
            gap(system, fixed, after, axis) == gap(system, fixed, before, axis) - Scalar::of(
                gap(system, fixed, before, axis),
            ).mul_spec(system.correction_percent)@
        }),
    decreases passes,
{
    if passes > 0 {
        let before = pushed(system, fixed, moving, axis, (passes - 1) as nat);
        lemma_pushed_settles(system, fixed, moving, axis, (passes - 1) as nat);
        lemma_push_is_bounded(system, fixed, before, axis);
        lemma_shifted_rests(system, fixed, before, axis, push_of(system, fixed, before, axis));
    }
}

/// Looks at the pair add up.
pub proof fn lemma_pushed_twice(
    system: PhysicsSystem,
    fixed: Entity,
    moving: Entity,
    axis: Vec2,
    first: nat,
    second: nat,
)
    ensures
        pushed(system, fixed, pushed(system, fixed, moving, axis, first), axis, second) == pushed(
            system,
            fixed,
            moving,
            axis,
            first + second,
        ),
    decreases second,
{
    if second > 0 {
        lemma_pushed_twice(system, fixed, moving, axis, first, (second - 1) as nat);
    }
}

/// A world of two entities has one pair, so a pass is one look at it.
pub proof fn lemma_pass_over_two(system: PhysicsSystem, state: Solve)
    requires
        state.entities.len() == 2,
    ensures
        system.solve_rows(state, 2) == system.visit(state, 0, 1),
{
    assert(system.solve_rows(state, 0) == state);
    assert(system.solve_row(state, 0, 1) == state);
    assert(system.solve_row(state, 0, 2) == system.visit(state, 0, 1));
    assert(system.solve_rows(state, 1) == system.visit(state, 0, 1));
    let visited = system.visit(state, 0, 1);
    assert(system.solve_row(visited, 1, 2) == visited);
}

/// Passes over the pair push the moving circle out once each, and change
/// nothing else.
pub proof fn lemma_solve_pushes_out(
    system: PhysicsSystem,
    fixed: Entity,
    moving: Entity,
    axis: Vec2,
    moving_first: bool,
    applied: Set<(int, int)>,
    passes: nat,
)
    requires
        rests_beside(system, fixed, moving, axis),
    ensures
        system.solve(
            Solve { entities: pair_of(fixed, moving, moving_first), applied },
            passes,
        ).entities == pair_of(fixed, pushed(system, fixed, moving, axis, passes), moving_first),
    decreases passes,
{
    let state = Solve { entities: pair_of(fixed, moving, moving_first), applied };
    if passes > 0 {
        let before = system.solve(state, (passes - 1) as nat);
        lemma_solve_pushes_out(system, fixed, moving, axis, moving_first, applied, (passes - 1) as nat);
        lemma_pushed_settles(system, fixed, moving, axis, (passes - 1) as nat);
        let resting = pushed(system, fixed, moving, axis, (passes - 1) as nat);
        lemma_pass_over_two(system, before);
        assert(before == (Solve {
            entities: pair_of(fixed, resting, moving_first),
            applied: before.applied,
        }));
        lemma_visit_pushes_out(system, fixed, resting, axis, moving_first, before.applied);
    }
}

/// Two circles whose centres lie along an axis, one immovable and one
/// dynamic and at rest, in either order: over any number of steps the
/// immovable one stays as it is, and the other is pushed out by one look
/// for every pass of every step. By `lemma_pushed_settles` it therefore
/// stays at rest on the axis, never comes nearer, never goes further
/// than where the two touch within the slop, and closes in on that
/// distance by the correction share with every pass.
pub proof fn lemma_overlap_is_pushed_out(
    system: PhysicsSystem,
    fixed: Entity,
    moving: Entity,
    axis: Vec2,
    moving_first: bool,
    dt: Scalar,
    count: nat,
)
    requires
        rests_beside(system, fixed, moving, axis),
    ensures
        stepped_times(system, pair_of(fixed, moving, moving_first), dt, count) == pair_of(
            fixed,
            pushed(system, fixed, moving, axis, count * system.collision_iterations as nat),
            moving_first,
        ),
    decreases count,
{
    let passes = system.collision_iterations as nat;
    if count > 0 {
        lemma_overlap_is_pushed_out(system, fixed, moving, axis, moving_first, dt, (count - 1) as nat);
        let done = ((count - 1) * passes) as nat;
        assert(count * passes == done + passes) by (nonlinear_arith)
            requires
                count > 0,
                done == (count - 1) * passes,
        ;
        let resting = pushed(system, fixed, moving, axis, done);
        lemma_pushed_settles(system, fixed, moving, axis, done);
        let entities = pair_of(fixed, resting, moving_first);
        lemma_resting_body_is_not_integrated(system, fixed, dt);
        lemma_resting_body_is_not_integrated(system, resting, dt);
        let integrated = Seq::new(entities.len(), |k: int| system.integrated(entities[k], dt));
        assert(integrated =~= entities);
        lemma_solve_pushes_out(system, fixed, resting, axis, moving_first, Set::empty(), passes);
        lemma_pushed_twice(system, fixed, moving, axis, done, passes);
    } else {
        assert(count * passes == 0) by (nonlinear_arith)
            requires
                count == 0,
        ;
    }
}

} // verus!
