use physics2d::components::{Clickable, Color, Physics, Shape};
use physics2d::entity::Entity;
use physics2d::scalar::Scalar;
use physics2d::systems::physics::PhysicsSystem;
use physics2d::vector::Vec2;
use physics2d::world::World;

fn units(x: f64) -> Scalar {
    Scalar::from_raw((x * 1e9).round() as i64)
}

fn at(x: f64, y: f64) -> Vec2 {
    Vec2::new(units(x), units(y))
}

fn raw(x: i64, y: i64) -> Vec2 {
    Vec2::new(Scalar::from_raw(x), Scalar::from_raw(y))
}

fn grey() -> Color {
    Color::new(units(0.5), units(0.5), units(0.5))
}

fn tick() -> Scalar {
    Scalar::from_raw(8_000_000)
}

fn floating() -> Physics {
    Physics { apply_gravity: false, ..Physics::new() }
}

fn position(world: &World, index: usize) -> Vec2 {
    world.entities()[index].transform().position
}

fn velocity(world: &World, index: usize) -> Vec2 {
    world.entities()[index].physics().unwrap().velocity
}

#[test]
fn default_constants() {
    let system = PhysicsSystem::new();
    assert_eq!(system.gravity, at(0.0, -0.5));
    assert_eq!(system.collision_iterations, 4);
    assert_eq!(system.sleep_velocity_threshold, units(0.001));
    assert_eq!(system.air_damping, units(0.98));
    assert_eq!(system.correction_percent, units(0.8));
    assert_eq!(system.slop, units(0.01));
}

#[test]
fn a_falling_body_gains_damped_velocity_then_moves_by_it() {
    let system = PhysicsSystem::new();
    let mut world = World::new();
    world.add_entity(Entity::new_circle(at(0.0, 0.35), units(0.1), grey()).with_physics(Physics::new()));
    system.update(&mut world, tick());
    assert_eq!(velocity(&world, 0), raw(0, -3_920_000));
    assert_eq!(position(&world, 0), raw(0, 349_968_640));
    assert_eq!(world.entities()[0].physics().unwrap().acceleration, Vec2::zero());
    system.update(&mut world, tick());
    // (-0.00392 - 0.004) * 0.98 = -0.0077616
    assert_eq!(velocity(&world, 0), raw(0, -7_761_600));
    assert_eq!(position(&world, 0), raw(0, 349_968_640 - 62_092));
}

#[test]
fn acceleration_is_spent_in_one_tick() {
    let system = PhysicsSystem::new();
    let mut world = World::new();
    let physics = Physics { acceleration: at(10.0, 0.0), ..floating() };
    world.add_entity(Entity::new_circle(at(0.0, 0.0), units(0.1), grey()).with_physics(physics));
    system.update(&mut world, tick());
    assert_eq!(velocity(&world, 0), at(0.0784, 0.0));
    assert_eq!(world.entities()[0].physics().unwrap().acceleration, Vec2::zero());
    system.update(&mut world, tick());
    assert_eq!(velocity(&world, 0), at(0.076832, 0.0));
}

#[test]
fn a_slow_body_is_put_to_rest() {
    let system = PhysicsSystem::new();
    let mut world = World::new();
    let physics = floating().with_velocity(raw(1_020_408, 0));
    world.add_entity(Entity::new_circle(at(0.1, 0.2), units(0.1), grey()).with_physics(physics));
    system.update(&mut world, tick());
    // 0.001020408 * 0.98 = 0.000999999 after rounding, under the threshold
    assert_eq!(velocity(&world, 0), Vec2::zero());
    assert_eq!(position(&world, 0), at(0.1, 0.2));

    let mut world = World::new();
    let physics = floating().with_velocity(raw(1_020_409, 0));
    world.add_entity(Entity::new_circle(at(0.1, 0.2), units(0.1), grey()).with_physics(physics));
    system.update(&mut world, tick());
    assert_eq!(velocity(&world, 0), raw(1_000_000, 0));
    assert_eq!(position(&world, 0), raw(100_000_000 + 8_000, 200_000_000));
}

#[test]
fn a_body_at_rest_stays_at_rest() {
    let system = PhysicsSystem::new();
    let mut world = World::new();
    let physics = floating().with_velocity(raw(600_000, -700_000));
    world.add_entity(
        Entity::new_rectangle(at(0.3, -0.2), units(0.2), units(0.1), grey()).with_physics(physics),
    );
    for _ in 0..50 {
        system.update(&mut world, tick());
        assert_eq!(velocity(&world, 0), Vec2::zero());
        assert_eq!(position(&world, 0), at(0.3, -0.2));
        assert_eq!(
            *world.entities()[0].physics().unwrap(),
            Physics { velocity: Vec2::zero(), ..physics }
        );
    }
}

#[test]
fn what_is_not_dynamic_is_never_changed() {
    let system = PhysicsSystem::new();
    let mut world = World::new();
    let frozen = Physics { dynamic: false, ..Physics::new() }.with_velocity(at(0.5, 0.5));
    world.add_entity(Entity::new_circle(at(0.0, 0.0), units(0.3), grey()));
    world.add_entity(
        Entity::new_circle(at(0.4, 0.0), units(0.2), grey())
            .with_physics(Physics::new().with_velocity(at(-1.0, 0.0))),
    );
    world.add_entity(
        Entity::new_rectangle(at(0.4, -0.3), units(0.6), units(0.3), grey())
            .with_physics(Physics::new_static()),
    );
    world.add_entity(
        Entity::new_rectangle(at(0.6, 0.0), units(0.2), units(0.2), grey()).with_physics(frozen),
    );
    for _ in 0..40 {
        system.update(&mut world, tick());
        assert_eq!(position(&world, 0), at(0.0, 0.0));
        assert!(world.entities()[0].physics().is_none());
        assert_eq!(position(&world, 2), at(0.4, -0.3));
        assert_eq!(*world.entities()[2].physics().unwrap(), Physics::new_static());
        assert_eq!(position(&world, 3), at(0.6, 0.0));
        assert_eq!(*world.entities()[3].physics().unwrap(), frozen);
    }
    assert_ne!(position(&world, 1), at(0.4, 0.0));
}

#[test]
fn a_step_changes_motion_only() {
    let system = PhysicsSystem::new();
    let mut world = World::new();
    let physics = Physics { mass: units(2.5), restitution: units(0.25), ..Physics::new() };
    let mut entity = Entity::new_circle(at(0.0, 0.0), units(0.3), grey())
        .with_physics(physics)
        .with_clickable(Clickable::new());
    entity.transform_mut().rotation = units(1.25);
    entity.transform_mut().scale = at(2.0, 3.0);
    world.add_entity(entity);
    world.add_entity(
        Entity::new_text(at(0.0, 0.0), String::from("score"), units(18.0), grey())
            .with_physics(Physics::new()),
    );
    system.update(&mut world, tick());
    assert_eq!(world.entities().len(), 2);
    let e = &world.entities()[0];
    assert!(matches!(e, Entity::Circle { .. }));
    assert!(matches!(e.shape(), Shape::Circle { radius, .. } if *radius == units(0.3)));
    assert_eq!(e.transform().rotation, units(1.25));
    assert_eq!(e.transform().scale, at(2.0, 3.0));
    assert_eq!(*e.clickable().unwrap(), Clickable::new());
    let p = e.physics().unwrap();
    assert_eq!(
        Physics { velocity: Vec2::zero(), ..*p },
        Physics { acceleration: Vec2::zero(), ..physics }
    );
    assert!(matches!(
        world.entities()[1].shape(),
        Shape::Text { content, .. } if content == "score"
    ));
    // both fell alike: the text took no part in any contact
    assert_eq!(position(&world, 0), position(&world, 1));
}

#[test]
fn an_empty_world_steps() {
    let system = PhysicsSystem::new();
    let mut world = World::new();
    system.update(&mut world, tick());
    assert!(world.entities().is_empty());
}

#[test]
fn overlapping_circles_are_pushed_apart_until_they_touch_within_the_slop() {
    let system = PhysicsSystem::new();
    let mut world = World::new();
    world.add_entity(
        Entity::new_circle(at(0.0, 0.0), units(0.3), grey()).with_physics(Physics::new_static()),
    );
    world.add_entity(Entity::new_circle(at(0.4, 0.0), units(0.2), grey()).with_physics(floating()));
    let expected = [489_856_000i64, 489_999_769, 489_999_999, 489_999_999, 489_999_999];
    let mut last = 400_000_000i64;
    for step in 0..expected.len() {
        system.update(&mut world, tick());
        let x = position(&world, 1).x.raw();
        assert_eq!(x, expected[step]);
        assert!(x >= last);
        assert!(x <= 500_000_000);
        last = x;
        assert_eq!(position(&world, 1).y.raw(), 0);
        assert_eq!(velocity(&world, 1), Vec2::zero());
        assert_eq!(position(&world, 0), at(0.0, 0.0));
    }
    for _ in 0..200 {
        system.update(&mut world, tick());
    }
    let distance = position(&world, 1).sub(position(&world, 0)).length();
    // sum of the radii less the slop, to one unit in the last place
    assert!(distance.raw() >= 500_000_000 - 10_000_000 - 1);
    assert!(distance.raw() <= 500_000_000);
}

#[test]
fn a_circle_below_an_immovable_one_is_pushed_down_whichever_comes_first() {
    let system = PhysicsSystem::new();
    let mut world = World::new();
    world.add_entity(
        Entity::new_circle(raw(5, -300_000_000), units(0.2), grey()).with_physics(floating()),
    );
    world.add_entity(Entity::new_circle(raw(5, 100_000_000), units(0.3), grey()));
    let expected = [-389_856_000i64, -389_999_769, -389_999_999, -389_999_999];
    for step in 0..expected.len() {
        system.update(&mut world, tick());
        assert_eq!(position(&world, 0), raw(5, expected[step]));
        assert_eq!(velocity(&world, 0), Vec2::zero());
        assert_eq!(position(&world, 1), raw(5, 100_000_000));
    }
}

#[test]
fn overlapping_circles_on_a_diagonal_converge_too() {
    let system = PhysicsSystem::new();
    let mut world = World::new();
    world.add_entity(Entity::new_circle(at(0.0, 0.0), units(0.3), grey()));
    world.add_entity(Entity::new_circle(at(0.2, 0.1), units(0.2), grey()).with_physics(floating()));
    let mut last = position(&world, 1).length().raw();
    for _ in 0..100 {
        system.update(&mut world, tick());
        let distance = position(&world, 1).length().raw();
        assert!(distance >= last);
        assert!(distance <= 500_000_010);
        last = distance;
    }
    assert!(last >= 500_000_000 - 10_000_000 - 10);
    assert_eq!(velocity(&world, 1), Vec2::zero());
}

#[test]
fn a_circle_moving_into_another_meets_it_along_the_line_of_centres() {
    let system = PhysicsSystem::new();
    let mut world = World::new();
    world.add_entity(
        Entity::new_circle(at(0.0, 0.0), units(0.3), grey())
            .with_physics(Physics::new().with_velocity(at(0.05, 0.0))),
    );
    world.add_entity(Entity::new_circle(at(0.5, 0.0), units(0.2), grey()).with_physics(Physics::new()));
    assert_eq!(system.check_collision(&world.entities()[0], &world.entities()[1]), None);
    system.update(&mut world, tick());
    assert_eq!(position(&world, 0), raw(392_000, -31_360));
    assert_eq!(position(&world, 1), raw(500_000_000, -31_360));
    let contact = system.check_collision(&world.entities()[0], &world.entities()[1]);
    assert_eq!(contact, Some((at(1.0, 0.0), Scalar::from_raw(392_000))));
    let (normal, _) = contact.unwrap();
    assert!((normal.x.raw() as f64 / 1e9 - 1.0).abs() < 1e-6);
    assert!((normal.y.raw() as f64 / 1e9).abs() < 1e-6);
    // the first circle's velocity along the normal is positive, so the
    // pair counts as separating and no impulse is exchanged
    assert_eq!(velocity(&world, 0), raw(49_000_000, -3_920_000));
    assert_eq!(velocity(&world, 1), raw(0, -3_920_000));
}

#[test]
fn a_circle_falling_onto_a_rectangle_is_detected_when_its_edge_crosses() {
    let system = PhysicsSystem::new();
    let mut world = World::new();
    world.add_entity(
        Entity::new_rectangle(at(0.0, 0.0), units(0.4), units(0.4), grey())
            .with_physics(Physics::new_static()),
    );
    world.add_entity(Entity::new_circle(at(0.0, 0.35), units(0.1), grey()).with_physics(Physics::new()));
    let mut ticks = 0;
    loop {
        let rect = &world.entities()[0];
        let circle = &world.entities()[1];
        let contact = system.check_collision(rect, circle);
        let bottom = circle.transform().position.y.raw() - 100_000_000;
        assert_eq!(contact.is_some(), bottom < 200_000_000);
        if let Some((normal, depth)) = contact {
            assert_eq!(normal, at(0.0, 1.0));
            assert!((normal.y.raw() as f64 / 1e9 - 1.0).abs() < 1e-6);
            assert_eq!(depth.raw(), 200_000_000 - bottom);
            assert_eq!(depth.raw(), 420_772);
            assert_eq!(
                system.check_circle_rect(
                    circle.transform().position,
                    units(0.1),
                    rect.transform().position,
                    units(0.4),
                    units(0.4)
                ),
                Some((at(0.0, -1.0), depth))
            );
            break;
        }
        system.update(&mut world, tick());
        ticks += 1;
        assert!(ticks < 1000);
    }
    assert_eq!(ticks, 69);
    assert_eq!(velocity(&world, 1), raw(0, -147_375_464));
    assert_eq!(position(&world, 1), raw(0, 299_579_228));
    assert_eq!(position(&world, 0), at(0.0, 0.0));
}

#[test]
fn a_circle_sunk_into_a_rectangle_is_pushed_out_of_it() {
    let system = PhysicsSystem::new();
    let mut world = World::new();
    world.add_entity(
        Entity::new_rectangle(at(0.0, 0.0), units(0.4), units(0.4), grey())
            .with_physics(Physics::new_static()),
    );
    world.add_entity(Entity::new_circle(at(0.0, 0.25), units(0.1), grey()).with_physics(floating()));
    system.update(&mut world, tick());
    // depth 0.05; four passes correct 0.032, 0.0064, 0.00128 and 0.000256
    assert_eq!(position(&world, 1), at(0.0, 0.289936));
    assert_eq!(velocity(&world, 1), Vec2::zero());
    assert_eq!(position(&world, 0), at(0.0, 0.0));

    let mut world = World::new();
    world.add_entity(Entity::new_circle(at(0.25, 0.0), units(0.1), grey()).with_physics(floating()));
    world.add_entity(Entity::new_rectangle(at(0.0, 0.0), units(0.4), units(0.4), grey()));
    system.update(&mut world, tick());
    assert_eq!(position(&world, 0), at(0.289936, 0.0));
    assert_eq!(position(&world, 1), at(0.0, 0.0));
}

#[test]
fn a_circle_on_a_rectangle_takes_an_impulse_only_when_the_normal_speed_is_not_positive() {
    let system = PhysicsSystem::new();
    let rect = Entity::new_rectangle(at(0.0, 0.0), units(0.4), units(0.4), grey())
        .with_physics(Physics::new_static());
    let mut world = World::new();
    world.add_entity(
        Entity::new_circle(at(0.0, 0.29), units(0.1), grey())
            .with_physics(floating().with_velocity(at(0.0, 0.5))),
    );
    world.add_entity(rect.clone());
    system.update(&mut world, tick());
    // damped to 0.49 along -normal; impulse (1 + sqrt(0.8 * 0.5)) * 0.49
    assert_eq!(velocity(&world, 0), raw(0, 490_000_000 - 799_903_210));
    assert_eq!(position(&world, 0), at(0.0, 0.29392));

    let mut world = World::new();
    world.add_entity(
        Entity::new_circle(at(0.0, 0.2995), units(0.1), grey())
            .with_physics(floating().with_velocity(at(0.0, -0.5))),
    );
    world.add_entity(rect);
    system.update(&mut world, tick());
    assert_eq!(velocity(&world, 0), at(0.0, -0.49));
    assert_eq!(position(&world, 0), at(0.0, 0.29558));
}

#[test]
fn four_passes_apply_one_impulse_per_pair() {
    let system = PhysicsSystem::new();
    let mut world = World::new();
    world.add_entity(
        Entity::new_rectangle(at(0.0, 0.0), units(0.4), units(0.4), grey())
            .with_physics(floating().with_velocity(at(-1.0, 0.0))),
    );
    world.add_entity(
        Entity::new_rectangle(at(0.3, 0.0), units(0.4), units(0.4), grey())
            .with_physics(floating().with_velocity(at(1.0, 0.0))),
    );
    system.update(&mut world, tick());
    // damped to -0.98 and 0.98; speed along the normal -1.96; impulse 1.8 * 1.96 / 2
    assert_eq!(velocity(&world, 0), raw(-980_000_000 + 1_764_000_000, 0));
    assert_eq!(velocity(&world, 1), raw(980_000_000 - 1_764_000_000, 0));
}

#[test]
fn no_passes_leave_overlaps_alone() {
    let system = PhysicsSystem { collision_iterations: 0, ..PhysicsSystem::new() };
    let mut world = World::new();
    world.add_entity(Entity::new_circle(at(0.0, 0.0), units(0.3), grey()));
    world.add_entity(Entity::new_circle(at(0.4, 0.0), units(0.2), grey()).with_physics(floating()));
    system.update(&mut world, tick());
    assert_eq!(position(&world, 1), at(0.4, 0.0));
}

#[test]
fn one_pass_resolves_pairs_in_order_of_their_indices() {
    let system = PhysicsSystem { collision_iterations: 1, ..PhysicsSystem::new() };
    let mut world = World::new();
    world.add_entity(Entity::new_circle(at(0.0, 0.0), units(0.3), grey()));
    world.add_entity(Entity::new_circle(at(0.4, 0.0), units(0.2), grey()).with_physics(floating()));
    world.add_entity(Entity::new_circle(at(0.7, 0.0), units(0.2), grey()).with_physics(floating()));
    let mut applied = physics2d::systems::pairs::PairSet::new();
    system.resolve_collisions(&mut world, &mut applied, tick());
    // pair (0, 1): depth 0.1, the second circle moves by 0.072 to 0.472;
    // pair (1, 2): depth 0.4 - 0.228 = 0.172, each moves by 0.0648
    assert_eq!(position(&world, 0), at(0.0, 0.0));
    assert_eq!(position(&world, 1), at(0.472 - 0.0648, 0.0));
    assert_eq!(position(&world, 2), at(0.7 + 0.0648, 0.0));
    assert!(applied.contains(0, 1));
    assert!(applied.contains(1, 2));
    assert!(!applied.contains(0, 2));
}
