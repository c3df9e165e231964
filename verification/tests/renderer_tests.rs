use physics2d::components::{Color, Physics};
use physics2d::entity::Entity;
use physics2d::scalar::Scalar;
use physics2d::systems::renderer::{
    circle_instances, color_byte, stats_corner, text_placements, to_pixel, CircleInstance,
    FrameStats, TextPlacement,
};
use physics2d::vector::Vec2;
use physics2d::world::World;

fn units(x: f64) -> Scalar {
    Scalar::from_raw((x * 1e9).round() as i64)
}

fn at(x: f64, y: f64) -> Vec2 {
    Vec2::new(units(x), units(y))
}

fn color(r: f64, g: f64, b: f64) -> Color {
    Color::new(units(r), units(g), units(b))
}

fn sample_world() -> World {
    let mut world = World::new();
    world.add_entity(Entity::new_circle(at(0.1, 0.2), units(0.3), color(1.0, 0.0, 0.0)));
    world.add_entity(Entity::new_text(
        at(0.0, 0.0),
        String::from("first"),
        units(24.0),
        color(1.0, 0.5, 0.0),
    ));
    world.add_entity(Entity::new_rectangle(at(0.0, 0.0), units(0.4), units(0.4), color(0.0, 1.0, 0.0)));
    world.add_entity(
        Entity::new_circle(at(-0.5, 0.5), units(0.05), color(0.0, 0.0, 1.0))
            .with_physics(Physics::new()),
    );
    world.add_entity(Entity::new_text(
        at(-1.0, 1.0),
        String::from("second"),
        units(12.0),
        color(2.0, -1.0, 0.999),
    ));
    world
}

#[test]
fn circles_are_collected_in_order() {
    let circles = circle_instances(&sample_world());
    assert_eq!(
        circles,
        vec![
            CircleInstance { position: at(0.1, 0.2), radius: units(0.3), color: color(1.0, 0.0, 0.0) },
            CircleInstance {
                position: at(-0.5, 0.5),
                radius: units(0.05),
                color: color(0.0, 0.0, 1.0)
            },
        ]
    );
    assert!(circle_instances(&World::new()).is_empty());
}

#[test]
fn texts_are_placed_in_pixels() {
    let placements = text_placements(&sample_world(), 800, 600);
    assert_eq!(
        placements,
        vec![
            TextPlacement {
                entity: 1,
                left: units(400.0),
                top: units(300.0),
                red: 255,
                green: 127,
                blue: 0
            },
            TextPlacement {
                entity: 4,
                left: units(0.0),
                top: units(0.0),
                red: 255,
                green: 0,
                blue: 254
            },
        ]
    );
}

#[test]
fn channels_become_bytes() {
    assert_eq!(color_byte(units(0.0)), 0);
    assert_eq!(color_byte(units(1.0)), 255);
    assert_eq!(color_byte(units(0.5)), 127);
    assert_eq!(color_byte(units(0.2)), 51);
    assert_eq!(color_byte(units(-0.3)), 0);
    assert_eq!(color_byte(units(7.0)), 255);
    assert_eq!(color_byte(Scalar::infinity()), 255);
}

#[test]
fn points_become_pixels() {
    assert_eq!(to_pixel(at(-1.0, 1.0), 800, 600), at(0.0, 0.0));
    assert_eq!(to_pixel(at(1.0, -1.0), 800, 600), at(800.0, 600.0));
    assert_eq!(to_pixel(at(0.5, 0.5), 800, 600), at(600.0, 150.0));
}

#[test]
fn statistics_sit_in_the_bottom_right_corner() {
    assert_eq!(stats_corner(800, 600, units(200.4), units(96.0)), at(588.0, 492.0));
    assert_eq!(stats_corner(800, 600, units(200.5), units(96.5)), at(588.0, 492.0));
    assert_eq!(stats_corner(800, 600, units(200.6), units(96.6)), at(587.0, 491.0));
}

#[test]
fn statistics_keep_the_margin_in_a_small_window() {
    assert_eq!(stats_corner(100, 50, units(200.0), units(96.0)), at(12.0, 12.0));
    assert_eq!(stats_corner(0, 0, units(0.0), units(0.0)), at(12.0, 12.0));
}

#[test]
fn new_statistics_are_empty() {
    let stats = FrameStats::new(42);
    assert_eq!(stats.last_present, 42);
    assert_eq!(stats.last_report, 42);
    assert_eq!(stats.report_dt, 1_000_000_000);
    assert_eq!(stats.frame_count, 0);
    assert_eq!(stats.avg_frame_time_ms, Scalar::zero());
    assert!(!stats.needs_update(42));
    assert!(!stats.needs_update(1_000_000_041));
    assert!(stats.needs_update(1_000_000_042));
    assert!(!stats.needs_update(0));
}

#[test]
fn frames_are_counted() {
    let mut stats = FrameStats::new(0);
    stats.record_frame(16_000_000);
    stats.record_frame(17_000_000);
    assert_eq!(stats.frame_count, 2);
    assert_eq!(stats.frame_time_accum, 33_000_000);
    stats.record_frame(u64::MAX);
    assert_eq!(stats.frame_time_accum, u64::MAX);
    stats.frame_count = u32::MAX;
    stats.record_frame(1);
    assert_eq!(stats.frame_count, u32::MAX);
}

#[test]
fn a_report_gives_the_rates_and_starts_anew() {
    let mut stats = FrameStats::new(0);
    for _ in 0..30 {
        stats.record_frame(16_666_667);
    }
    stats.sim_steps_accum = 62;
    stats.render_count = 30;
    stats.update(500_000_000);
    assert_eq!(stats.avg_frame_time_ms, Scalar::from_raw(16_666_667_000));
    assert_eq!(stats.present_fps, 60);
    assert_eq!(stats.sim_tps, 124);
    assert_eq!(stats.render_fps, 60);
    assert_eq!(stats.frame_count, 0);
    assert_eq!(stats.frame_time_accum, 0);
    assert_eq!(stats.sim_steps_accum, 0);
    assert_eq!(stats.render_count, 0);
    assert_eq!(stats.last_report, 500_000_000);
}

#[test]
fn a_report_without_frames_keeps_the_frame_figures() {
    let mut stats = FrameStats::new(0);
    stats.record_frame(20_000_000);
    stats.update(1_000_000_000);
    assert_eq!(stats.present_fps, 50);
    assert_eq!(stats.avg_frame_time_ms, units(20.0));
    stats.sim_steps_accum = 5;
    stats.update(1_000_000_000);
    assert_eq!(stats.present_fps, 50);
    assert_eq!(stats.avg_frame_time_ms, units(20.0));
    assert_eq!(stats.sim_tps, u32::MAX);
    assert_eq!(stats.render_fps, 0);
}
