use physics2d::components::{Color, Physics};
use physics2d::entity::Entity;
use physics2d::scalar::Scalar;
use physics2d::systems::physics::PhysicsSystem;
use physics2d::vector::Vec2;

fn units(x: f64) -> Scalar {
    Scalar::from_raw((x * 1e9).round() as i64)
}

fn at(x: f64, y: f64) -> Vec2 {
    Vec2::new(units(x), units(y))
}

fn grey() -> Color {
    Color::new(units(0.5), units(0.5), units(0.5))
}

#[test]
fn circles_overlapping_along_an_axis() {
    let system = PhysicsSystem::new();
    let contact = system.check_circle_circle(at(0.0, 0.0), units(0.3), at(0.4, 0.0), units(0.2));
    assert_eq!(contact, Some((at(1.0, 0.0), units(0.1))));
    let contact = system.check_circle_circle(at(0.4, 0.0), units(0.2), at(0.0, 0.0), units(0.3));
    assert_eq!(contact, Some((at(-1.0, 0.0), units(0.1))));
}

#[test]
fn circles_overlapping_on_a_diagonal() {
    let system = PhysicsSystem::new();
    let contact = system.check_circle_circle(at(0.0, 0.0), units(0.4), at(0.3, 0.4), units(0.2));
    assert_eq!(contact, Some((at(0.6, 0.8), units(0.1))));
}

#[test]
fn circles_that_only_touch_do_not_collide() {
    let system = PhysicsSystem::new();
    assert_eq!(
        system.check_circle_circle(at(0.0, 0.0), units(0.3), at(0.5, 0.0), units(0.2)),
        None
    );
    assert_eq!(
        system.check_circle_circle(at(0.0, 0.0), units(0.3), at(0.9, 0.0), units(0.2)),
        None
    );
    assert!(system
        .check_circle_circle(at(0.0, 0.0), units(0.3), at(0.499999999, 0.0), units(0.2))
        .is_some());
}

#[test]
fn coincident_circles_report_no_contact() {
    let system = PhysicsSystem::new();
    assert_eq!(
        system.check_circle_circle(at(0.2, 0.2), units(0.3), at(0.2, 0.2), units(0.2)),
        None
    );
    assert_eq!(
        system.check_circle_circle(at(0.0, 0.0), units(0.3), at(0.005, 0.0), units(0.2)),
        None
    );
    assert_eq!(
        system.check_circle_circle(at(0.0, 0.0), units(0.3), at(0.01, 0.0), units(0.2)),
        None
    );
    let contact = system.check_circle_circle(
        at(0.0, 0.0),
        units(0.3),
        at(0.010000001, 0.0),
        units(0.2),
    );
    assert_eq!(contact, Some((at(1.0, 0.0), units(0.489999999))));
}

#[test]
fn circle_resting_on_an_edge_of_a_rectangle() {
    let system = PhysicsSystem::new();
    let contact =
        system.check_circle_rect(at(0.0, 0.25), units(0.1), at(0.0, 0.0), units(0.4), units(0.4));
    assert_eq!(contact, Some((at(0.0, -1.0), units(0.05))));
    let contact =
        system.check_circle_rect(at(-0.25, 0.1), units(0.1), at(0.0, 0.0), units(0.4), units(0.4));
    assert_eq!(contact, Some((at(1.0, 0.0), units(0.05))));
}

#[test]
fn circle_at_a_corner_of_a_rectangle() {
    let system = PhysicsSystem::new();
    let contact = system.check_circle_rect(
        at(0.23, 0.24),
        units(0.1),
        at(0.0, 0.0),
        units(0.4),
        units(0.4),
    );
    assert_eq!(contact, Some((at(-0.6, -0.8), units(0.05))));
}

#[test]
fn circle_clear_of_a_rectangle() {
    let system = PhysicsSystem::new();
    assert_eq!(
        system.check_circle_rect(at(0.0, 0.3), units(0.1), at(0.0, 0.0), units(0.4), units(0.4)),
        None
    );
    assert_eq!(
        system.check_circle_rect(at(0.28, 0.28), units(0.1), at(0.0, 0.0), units(0.4), units(0.4)),
        None
    );
}

#[test]
fn circle_centre_inside_a_rectangle_points_across_the_nearer_axis() {
    let system = PhysicsSystem::new();
    let rect = at(0.0, 0.0);
    let contact = system.check_circle_rect(at(0.15, 0.05), units(0.1), rect, units(0.4), units(0.4));
    assert_eq!(contact, Some((at(-1.0, 0.0), units(0.15))));
    let contact =
        system.check_circle_rect(at(-0.15, 0.05), units(0.1), rect, units(0.4), units(0.4));
    assert_eq!(contact, Some((at(1.0, 0.0), units(0.15))));
    let contact =
        system.check_circle_rect(at(0.05, -0.15), units(0.1), rect, units(0.4), units(0.4));
    assert_eq!(contact, Some((at(0.0, 1.0), units(0.15))));
    let contact = system.check_circle_rect(at(0.1, 0.1), units(0.1), rect, units(0.4), units(0.4));
    assert_eq!(contact, Some((at(0.0, -1.0), units(0.2))));
    let contact = system.check_circle_rect(at(0.0, 0.0), units(0.1), rect, units(0.4), units(0.4));
    assert_eq!(contact, Some((at(0.0, 1.0), units(0.3))));
}

#[test]
fn circle_centre_just_outside_an_edge_counts_as_inside() {
    let system = PhysicsSystem::new();
    let contact = system.check_circle_rect(
        at(0.0, 0.205),
        units(0.1),
        at(0.0, 0.0),
        units(0.4),
        units(0.4),
    );
    assert_eq!(contact, Some((at(0.0, -1.0), units(0.095))));
}

#[test]
fn rectangles_separate_along_the_axis_of_least_overlap() {
    let system = PhysicsSystem::new();
    let a = at(0.0, 0.0);
    let contact =
        system.check_rect_rect(a, units(0.4), units(0.4), at(0.3, 0.1), units(0.4), units(0.2));
    assert_eq!(contact, Some((at(1.0, 0.0), units(0.1))));
    let contact =
        system.check_rect_rect(a, units(0.4), units(0.4), at(-0.3, 0.1), units(0.4), units(0.2));
    assert_eq!(contact, Some((at(-1.0, 0.0), units(0.1))));
    let contact =
        system.check_rect_rect(a, units(0.4), units(0.4), at(0.1, -0.25), units(0.4), units(0.2));
    assert_eq!(contact, Some((at(0.0, -1.0), units(0.05))));
    let contact =
        system.check_rect_rect(a, units(0.4), units(0.4), at(0.3, 0.3), units(0.4), units(0.4));
    assert_eq!(contact, Some((at(0.0, 1.0), units(0.1))));
}

#[test]
fn rectangles_apart_or_touching_do_not_collide() {
    let system = PhysicsSystem::new();
    let a = at(0.0, 0.0);
    assert_eq!(
        system.check_rect_rect(a, units(0.4), units(0.4), at(0.4, 0.0), units(0.4), units(0.4)),
        None
    );
    assert_eq!(
        system.check_rect_rect(a, units(0.4), units(0.4), at(0.1, 0.7), units(0.4), units(0.4)),
        None
    );
}

#[test]
fn coincident_rectangles_separate_downward() {
    let system = PhysicsSystem::new();
    let a = at(0.0, 0.0);
    let contact = system.check_rect_rect(a, units(0.4), units(0.4), a, units(0.4), units(0.4));
    assert_eq!(contact, Some((at(0.0, -1.0), units(0.4))));
}

#[test]
fn entities_without_any_physics_never_collide() {
    let system = PhysicsSystem::new();
    let a = Entity::new_circle(at(0.0, 0.0), units(0.3), grey());
    let b = Entity::new_circle(at(0.4, 0.0), units(0.2), grey());
    assert_eq!(system.check_collision(&a, &b), None);
    let b = b.with_physics(Physics::new_static());
    assert_eq!(system.check_collision(&a, &b), Some((at(1.0, 0.0), units(0.1))));
    assert_eq!(system.check_collision(&b, &a), Some((at(-1.0, 0.0), units(0.1))));
}

#[test]
fn collision_dispatches_on_the_pair_of_shapes() {
    let system = PhysicsSystem::new();
    let circle = Entity::new_circle(at(0.0, 0.25), units(0.1), grey()).with_physics(Physics::new());
    let rect = Entity::new_rectangle(at(0.0, 0.0), units(0.4), units(0.4), grey())
        .with_physics(Physics::new_static());
    assert_eq!(system.check_collision(&circle, &rect), Some((at(0.0, -1.0), units(0.05))));
    assert_eq!(system.check_collision(&rect, &circle), Some((at(0.0, 1.0), units(0.05))));
    let other = Entity::new_rectangle(at(0.3, 0.1), units(0.4), units(0.2), grey());
    assert_eq!(system.check_collision(&rect, &other), Some((at(1.0, 0.0), units(0.1))));
}

#[test]
fn text_never_collides() {
    let system = PhysicsSystem::new();
    let text = Entity::new_text(at(0.0, 0.0), String::from("label"), units(20.0), grey())
        .with_physics(Physics::new());
    let circle = Entity::new_circle(at(0.0, 0.0), units(0.3), grey()).with_physics(Physics::new());
    let rect = Entity::new_rectangle(at(0.0, 0.0), units(0.4), units(0.4), grey())
        .with_physics(Physics::new());
    assert_eq!(system.check_collision(&text, &circle), None);
    assert_eq!(system.check_collision(&circle, &text), None);
    assert_eq!(system.check_collision(&text, &rect), None);
    assert_eq!(system.check_collision(&text, &text), None);
}

#[test]
fn detection_does_not_change_the_entities() {
    let system = PhysicsSystem::new();
    let a = Entity::new_circle(at(0.0, 0.0), units(0.3), grey()).with_physics(Physics::new());
    let b = Entity::new_circle(at(0.4, 0.0), units(0.2), grey()).with_physics(Physics::new());
    let first = system.check_collision(&a, &b);
    let second = system.check_collision(&a, &b);
    assert_eq!(first, second);
    assert_eq!(a.transform().position, at(0.0, 0.0));
    assert_eq!(*b.physics().unwrap(), Physics::new());
}

#[test]
fn normals_have_unit_length_within_rounding() {
    let system = PhysicsSystem::new();
    let centres = [
        (0.3, 0.4),
        (0.123456789, -0.2),
        (-0.011, 0.0001),
        (0.25, 0.25),
        (-0.3, -0.33),
        (0.000000001, 0.59),
    ];
    for (x, y) in centres {
        let contact = system.check_circle_circle(at(0.0, 0.0), units(0.4), at(x, y), units(0.2));
        let (normal, depth) = contact.unwrap();
        let squared = normal.norm_squared();
        assert!(squared > 999_999_998u128.pow(2));
        assert!(squared < 1_000_000_100u128.pow(2));
        assert!(depth.raw() > 0);
        assert!(depth.raw() < 600_000_000);
        assert!(normal.x.raw() as f64 * x >= 0.0);
        assert!(normal.y.raw() as f64 * y >= 0.0);
    }
}

#[test]
fn normals_to_a_rectangle_have_unit_length_within_rounding() {
    let system = PhysicsSystem::new();
    let centres = [(0.23, 0.24), (-0.27, 0.21), (0.2, -0.29), (0.0, 0.1), (0.26, 0.0)];
    for (x, y) in centres {
        let circle = Entity::new_circle(at(x, y), units(0.1), grey()).with_physics(Physics::new());
        let rect = Entity::new_rectangle(at(0.0, 0.0), units(0.4), units(0.4), grey());
        let (normal, _) = system.check_collision(&circle, &rect).unwrap();
        let squared = normal.norm_squared();
        assert!(squared > 999_999_998u128.pow(2));
        assert!(squared < 1_000_000_100u128.pow(2));
        let (back, _) = system.check_collision(&rect, &circle).unwrap();
        assert_eq!(back, normal.neg());
    }
}
