use physics2d::components::{Clickable, Color, Physics, Shape, Transform};
use physics2d::entity::Entity;
use physics2d::scalar::Scalar;
use physics2d::vector::Vec2;
use physics2d::world::World;

fn units(x: f64) -> Scalar {
    Scalar::from_raw((x * 1e9).round() as i64)
}

fn at(x: f64, y: f64) -> Vec2 {
    Vec2::new(units(x), units(y))
}

fn white() -> Color {
    Color::new(Scalar::one(), Scalar::one(), Scalar::one())
}

#[test]
fn transform_starts_unrotated_at_unit_scale() {
    let t = Transform::new(at(0.25, -0.5));
    assert_eq!(t.position, at(0.25, -0.5));
    assert_eq!(t.rotation, Scalar::zero());
    assert_eq!(t.scale, at(1.0, 1.0));
}

#[test]
fn default_physics() {
    let p = Physics::new();
    assert_eq!(p.velocity, Vec2::zero());
    assert_eq!(p.acceleration, Vec2::zero());
    assert_eq!(p.mass, Scalar::one());
    assert!(p.apply_gravity);
    assert!(p.dynamic);
    assert_eq!(p.restitution.raw(), 800_000_000);
    assert_eq!(p.friction.raw(), 500_000_000);
}

#[test]
fn static_physics() {
    let p = Physics::new_static();
    assert!(!p.mass.is_finite());
    assert_eq!(p.mass, Scalar::infinity());
    assert!(!p.dynamic);
    assert!(!p.apply_gravity);
    assert_eq!(p.restitution.raw(), 500_000_000);
    assert_eq!(p.friction.raw(), 500_000_000);
    assert_eq!(p.velocity, Vec2::zero());
}

#[test]
fn with_velocity_changes_only_the_velocity() {
    let p = Physics::new_static().with_velocity(at(0.5, -1.0));
    assert_eq!(p.velocity, at(0.5, -1.0));
    assert_eq!(Physics { velocity: Vec2::zero(), ..p }, Physics::new_static());
}

#[test]
fn clickable_starts_enabled() {
    let c = Clickable::new();
    assert!(c.enabled);
    assert!(!c.hovered);
}

#[test]
fn factories_pair_the_shape_with_the_kind() {
    let circle = Entity::new_circle(at(0.1, 0.2), units(0.3), white());
    assert!(matches!(circle, Entity::Circle { .. }));
    assert!(matches!(circle.shape(), Shape::Circle { radius, .. } if *radius == units(0.3)));
    assert_eq!(circle.transform().position, at(0.1, 0.2));
    assert!(circle.physics().is_none());
    assert!(circle.clickable().is_none());

    let rect = Entity::new_rectangle(at(0.0, 0.0), units(0.4), units(0.2), white());
    assert!(matches!(rect, Entity::Rectangle { .. }));
    assert!(matches!(
        rect.shape(),
        Shape::Rectangle { length, height, .. } if *length == units(0.4) && *height == units(0.2)
    ));

    let text = Entity::new_text(at(0.0, 0.0), String::from("hello"), units(24.0), white());
    assert!(matches!(text, Entity::Text { .. }));
    assert!(matches!(
        text.shape(),
        Shape::Text { content, font_size, .. } if content == "hello" && *font_size == units(24.0)
    ));
}

#[test]
fn builders_add_components() {
    let e = Entity::new_circle(at(0.0, 0.0), units(0.1), white())
        .with_physics(Physics::new_static())
        .with_clickable(Clickable::new());
    assert_eq!(*e.physics().unwrap(), Physics::new_static());
    assert_eq!(*e.clickable().unwrap(), Clickable::new());
    assert!(matches!(e, Entity::Circle { .. }));
    let t = Entity::new_text(at(0.0, 0.0), String::from("x"), units(1.0), white())
        .with_physics(Physics::new());
    assert!(matches!(t, Entity::Text { .. }));
    assert!(t.physics().is_some());
}

#[test]
fn mutable_accessors_reach_the_components() {
    let mut e = Entity::new_rectangle(at(0.0, 0.0), units(0.4), units(0.2), white())
        .with_physics(Physics::new())
        .with_clickable(Clickable::new());
    e.transform_mut().position = at(0.5, 0.5);
    e.physics_mut().unwrap().velocity = at(1.0, 2.0);
    e.clickable_mut().unwrap().hovered = true;
    if let Shape::Rectangle { length, .. } = e.shape_mut() {
        *length = units(0.8);
    }
    assert_eq!(e.transform().position, at(0.5, 0.5));
    assert_eq!(e.physics().unwrap().velocity, at(1.0, 2.0));
    assert!(e.clickable().unwrap().hovered);
    assert!(matches!(e.shape(), Shape::Rectangle { length, .. } if *length == units(0.8)));
    if let Some((physics, transform)) = e.physics_and_transform_mut() {
        physics.mass = units(3.0);
        transform.rotation = units(1.5);
    }
    assert_eq!(e.physics().unwrap().mass, units(3.0));
    assert_eq!(e.transform().rotation, units(1.5));
}

#[test]
fn mutable_accessors_without_components() {
    let mut e = Entity::new_circle(at(0.0, 0.0), units(0.1), white());
    assert!(e.physics_mut().is_none());
    assert!(e.clickable_mut().is_none());
    assert!(e.physics_and_transform_mut().is_none());
}

#[test]
fn place_moves_and_sets_the_velocity() {
    let mut e = Entity::new_circle(at(0.0, 0.0), units(0.1), white()).with_physics(Physics::new());
    e.place(at(0.3, 0.4), at(-1.0, 1.0));
    assert_eq!(e.transform().position, at(0.3, 0.4));
    assert_eq!(e.physics().unwrap().velocity, at(-1.0, 1.0));
    let mut bare = Entity::new_circle(at(0.0, 0.0), units(0.1), white());
    bare.place(at(0.3, 0.4), at(-1.0, 1.0));
    assert_eq!(bare.transform().position, at(0.3, 0.4));
    assert!(bare.physics().is_none());
}

#[test]
fn circle_contains_points_within_its_radius() {
    let e = Entity::new_circle(at(0.5, 0.5), units(0.1), white());
    assert!(e.contains_point(at(0.5, 0.5)));
    assert!(e.contains_point(at(0.6, 0.5)));
    assert!(e.contains_point(at(0.56, 0.58)));
    assert!(!e.contains_point(at(0.6, 0.500000001)));
    assert!(!e.contains_point(at(0.58, 0.58)));
}

#[test]
fn rectangle_contains_points_within_its_half_extents() {
    let e = Entity::new_rectangle(at(0.0, 0.0), units(0.4), units(0.2), white());
    assert!(e.contains_point(at(0.2, 0.1)));
    assert!(e.contains_point(at(-0.2, -0.1)));
    assert!(!e.contains_point(at(0.200000001, 0.0)));
    assert!(!e.contains_point(at(0.0, -0.100000001)));
}

#[test]
fn text_is_hit_within_a_tenth_of_its_anchor() {
    let e = Entity::new_text(at(0.0, 0.0), String::from("t"), units(12.0), white());
    assert!(e.contains_point(at(0.1, 0.0)));
    assert!(e.contains_point(at(0.06, -0.08)));
    assert!(!e.contains_point(at(0.1, 0.000000001)));
}

#[test]
fn world_keeps_the_order_of_insertion() {
    let mut world = World::new();
    assert_eq!(world.entities().len(), 0);
    world.add_entity(Entity::new_circle(at(0.0, 0.0), units(0.1), white()));
    world.add_entity(Entity::new_rectangle(at(1.0, 0.0), units(0.1), units(0.1), white()));
    world.add_entity(Entity::new_text(at(2.0, 0.0), String::from("t"), units(1.0), white()));
    assert_eq!(world.entities().len(), 3);
    assert!(matches!(world.entities()[0], Entity::Circle { .. }));
    assert!(matches!(world.entities()[1], Entity::Rectangle { .. }));
    assert!(matches!(world.entities()[2], Entity::Text { .. }));
    world.entities_mut()[1].transform_mut().position = at(5.0, 5.0);
    assert_eq!(world.entities()[1].transform().position, at(5.0, 5.0));
    world.clear();
    assert!(world.entities().is_empty());
}
