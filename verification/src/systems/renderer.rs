//! What a frame shows, computed from the world for a drawing backend, and
//! the statistics of the frames drawn.
use vstd::prelude::*;
use crate::components::{Color, Shape};
use crate::entity::Entity;
use crate::scalar::{Scalar, SCALE};
use crate::systems::timing::{rate, rate_per_second, NANOS_PER_SECOND};
use crate::vector::Vec2;
use crate::world::World;

verus! {

/// Distance kept between the statistics text and the window's edges, in
/// pixels.
pub const STATS_MARGIN: u32 = 12;

/// One circle to draw.
#[derive(Clone, Copy, Debug, PartialEq, Eq, Structural)]
pub struct CircleInstance {
    pub position: Vec2,
    pub radius: Scalar,
    pub color: Color,
}

/// Where and in which color the text of one entity is drawn.
#[derive(Clone, Copy, Debug, PartialEq, Eq, Structural)]
pub struct TextPlacement {
    /// Index of the entity in the world.
    pub entity: usize,
    /// Pixels from the window's left edge.
    pub left: Scalar,
    /// Pixels from the window's top edge.
    pub top: Scalar,
    pub red: u8,
    pub green: u8,
    pub blue: u8,
}

/// The circle that an entity shows, if it shows one.
pub open spec fn circle_of(entity: Entity) -> Option<CircleInstance> {
    match entity.spec_shape() {
        Shape::Circle { radius, color } => Some(
            CircleInstance { position: entity.spec_transform().position, radius, color },
        ),
        _ => None,
    }
}

/// The circles of the entities, in the entities' order.
pub open spec fn circles_of(entities: Seq<Entity>) -> Seq<CircleInstance>
    decreases entities.len(),
{
    if entities.len() == 0 {
        Seq::empty()
    } else {
        let before = circles_of(entities.drop_last());
        match circle_of(entities.last()) {
            Some(circle) => before.push(circle),
            None => before,
        }
    }
}

/// A color channel from zero to one as a byte: times 255, rounded toward
/// zero, and held within the byte's range.
pub open spec fn channel_byte(channel: Scalar) -> u8 {
    let scaled = channel.mul_spec(Scalar::of(255 * SCALE)).trunc_spec();
    if scaled < 0 {
        0
    } else if scaled > 255 {
        255
    } else {
        scaled as u8
    }
}

/// The pixel at which a point in normalized device coordinates falls in
/// a window of the given size.
pub open spec fn pixel_of(position: Vec2, width: u32, height: u32) -> Vec2 {
    let one = Scalar { raw: SCALE };
    Vec2 {
        x: position.x.add_spec(one).half_spec().mul_spec(Scalar::of(width * SCALE)),
        y: one.sub_spec(position.y).half_spec().mul_spec(Scalar::of(height * SCALE)),
    }
}

/// The placement of the text that an entity shows, if it shows one.
pub open spec fn placement_of(entity: Entity, index: usize, width: u32, height: u32) -> Option<
    TextPlacement,
> {
    match entity.spec_shape() {
        Shape::Text { color, .. } => {
            let pixel = pixel_of(entity.spec_transform().position, width, height);
            Some(
                TextPlacement {
                    entity: index,
                    left: pixel.x,
                    top: pixel.y,
                    red: channel_byte(color.r),
                    green: channel_byte(color.g),
                    blue: channel_byte(color.b),
                },
            )
        },
        _ => None,
    }
}

/// The placements of the entities' texts, in the entities' order.
pub open spec fn placements_of(entities: Seq<Entity>, width: u32, height: u32) -> Seq<
    TextPlacement,
>
    decreases entities.len(),
{
    if entities.len() == 0 {
        Seq::empty()
    } else {
        let before = placements_of(entities.drop_last(), width, height);
        match placement_of(entities.last(), (entities.len() - 1) as usize, width, height) {
            Some(placement) => before.push(placement),
            None => before,
        }
    }
}

/// Where a text of the given extent is put in a window so that it sits
/// in the bottom right corner, a margin from the edges, on whole pixels;
/// but never nearer than the margin to the left and top edges.
pub open spec fn corner_of(width: u32, height: u32, text_width: Scalar, text_height: Scalar)
    -> Vec2 {
    let margin = Scalar::of(STATS_MARGIN * SCALE);
    Vec2 {
        x: Scalar::of(width * SCALE).sub_spec(text_width).sub_spec(margin).max_spec(
            margin,
        ).round_spec(),
        y: Scalar::of(height * SCALE).sub_spec(text_height).sub_spec(margin).max_spec(
            margin,
        ).round_spec(),
    }
}

/// Collects the circles to draw.
pub fn circle_instances(world: &World) -> (circles: Vec<CircleInstance>)
    ensures
        circles@ == circles_of(world@),
{
    let entities = world.entities();
    let mut circles: Vec<CircleInstance> = Vec::new();
    let mut i: usize = 0;
    while i < entities.len()
        invariant
            i <= entities@.len(),
            entities@ == world@,
            circles@ == circles_of(entities@.take(i as int)),
        decreases entities@.len() - i,
    {
        assert(entities@.take(i + 1).drop_last() == entities@.take(i as int));
        match entities[i].shape() {
            Shape::Circle { radius, color } => {
                circles.push(
                    CircleInstance {
                        position: entities[i].transform().position,
                        radius: *radius,
                        color: *color,
                    },
                );
            },
            _ => {},
        }
        i += 1;
    }
    assert(entities@.take(i as int) == entities@);
    circles
}

/// A color channel as a byte.
pub fn color_byte(channel: Scalar) -> (byte: u8)
    ensures
        byte == channel_byte(channel),
{
    let scaled: i64 = channel.mul(Scalar::from_u32(255)).trunc();
    if scaled < 0 {
        0
    } else if scaled > 255 {
        255
    } else {
        scaled as u8
    }
}

/// The pixel of a point in normalized device coordinates.
pub fn to_pixel(position: Vec2, width: u32, height: u32) -> (pixel: Vec2)
    ensures
        pixel == pixel_of(position, width, height),
{
    let one = Scalar::one();
    Vec2::new(
        position.x.add(one).half().mul(Scalar::from_u32(width)),
        one.sub(position.y).half().mul(Scalar::from_u32(height)),
    )
}

/// Collects where the entities' texts are drawn in a window of the
/// given size.
pub fn text_placements(world: &World, width: u32, height: u32) -> (placements: Vec<
    TextPlacement,
>)
    ensures
        placements@ == placements_of(world@, width, height),
{
    let entities = world.entities();
    let mut placements: Vec<TextPlacement> = Vec::new();
    let mut i: usize = 0;
    while i < entities.len()
        invariant
            i <= entities@.len(),
            entities@ == world@,
            placements@ == placements_of(entities@.take(i as int), width, height),
        decreases entities@.len() - i,
    {
        assert(entities@.take(i + 1).drop_last() == entities@.take(i as int));
        match entities[i].shape() {
            Shape::Text { color, .. } => {
                let pixel = to_pixel(entities[i].transform().position, width, height);
                placements.push(
                    TextPlacement {
                        entity: i,
                        left: pixel.x,
                        top: pixel.y,
                        red: color_byte(color.r),
                        green: color_byte(color.g),
                        blue: color_byte(color.b),
                    },
                );
            },
            _ => {},
        }
        i += 1;
    }
    assert(entities@.take(i as int) == entities@);
    placements
}

/// Where to put the statistics text of the given extent.
pub fn stats_corner(width: u32, height: u32, text_width: Scalar, text_height: Scalar) -> (corner:
    Vec2)
    ensures
        corner == corner_of(width, height, text_width, text_height),
{
    let margin = Scalar::from_u32(STATS_MARGIN);
    Vec2::new(
        Scalar::from_u32(width).sub(text_width).sub(margin).max(margin).round(),
        Scalar::from_u32(height).sub(text_height).sub(margin).max(margin).round(),
    )
}

/// Counters of frames, simulation ticks and draws, and the rates last
/// reported from them. Times are nanoseconds.
#[derive(Clone, Copy, Debug, PartialEq, Eq, Structural)]
pub struct FrameStats {
    pub last_present: u64,
    pub frame_time_accum: u64,
    pub frame_count: u32,
    /// Mean time of a frame, in milliseconds.
    pub avg_frame_time_ms: Scalar,
    pub present_fps: u32,
    pub sim_steps_accum: u32,
    pub sim_tps: u32,
    pub render_count: u32,
    pub render_fps: u32,
    pub last_report: u64,
    pub report_dt: u64,
}

impl FrameStats {
    /// Time since the last report, nothing if `now` lies before it.
    pub open spec fn since_report(self, now: u64) -> nat {
        if now >= self.last_report {
            (now - self.last_report) as nat
        } else {
            0
        }
    }

    /// Mean frame time in milliseconds: the time gathered over the
    /// frames counted, rounded down to the scalar's precision.
    pub open spec fn mean_frame_ms(self) -> Scalar {
        Scalar::of((self.frame_time_accum * 1000) / (self.frame_count as int))
    }

    /// The statistics after a report at `now`: the rates are those of the
    /// counters over the time since the last report, the frame figures
    /// are kept where no frame was counted, and the counters start anew.
    pub open spec fn reported(self, now: u64) -> FrameStats {
        FrameStats {
            avg_frame_time_ms: if self.frame_count > 0 {
                self.mean_frame_ms()
            } else {
                self.avg_frame_time_ms
            },
            present_fps: if self.frame_count > 0 {
                rate_per_second(self.frame_count as nat, self.frame_time_accum as nat) as u32
            } else {
                self.present_fps
            },
            sim_tps: rate_per_second(self.sim_steps_accum as nat, self.since_report(now)) as u32,
            render_fps: rate_per_second(self.render_count as nat, self.since_report(now)) as u32,
            frame_time_accum: 0,
            frame_count: 0,
            sim_steps_accum: 0,
            render_count: 0,
            last_report: now,
            ..self
        }
    }

    /// Statistics that start at `now` and report once a second.
    pub fn new(now: u64) -> (stats: FrameStats)
        ensures
            stats == (FrameStats {
                last_present: now,
                frame_time_accum: 0,
                frame_count: 0,
                avg_frame_time_ms: Scalar { raw: 0 },
                present_fps: 0,
                sim_steps_accum: 0,
                sim_tps: 0,
                render_count: 0,
                render_fps: 0,
                last_report: now,
                report_dt: NANOS_PER_SECOND,
            }),
    {
        FrameStats {
            last_present: now,
            frame_time_accum: 0,
            frame_count: 0,
            avg_frame_time_ms: Scalar::from_raw(0),
            present_fps: 0,
            sim_steps_accum: 0,
            sim_tps: 0,
            render_count: 0,
            render_fps: 0,
            last_report: now,
            report_dt: NANOS_PER_SECOND,
        }
    }

    /// Whether a report is due at `now`.
    pub fn needs_update(&self, now: u64) -> (due: bool)
        ensures
            due == (self.since_report(now) >= self.report_dt),
    {
        let since: u64 = if now >= self.last_report {
            now - self.last_report
        } else {
            0
        };
        since >= self.report_dt
    }

    /// Reports at `now`.
    pub fn update(&mut self, now: u64)
        ensures
            *final(self) == old(self).reported(now),
    {
        let since: u64 = if now >= self.last_report {
            now - self.last_report
        } else {
            0
        };
        if self.frame_count > 0 {
            let mean: u128 = (self.frame_time_accum as u128 * 1000) / (self.frame_count as u128);
            self.avg_frame_time_ms = if mean > 0x7fff_ffff_ffff_ffff {
                Scalar::infinity()
            } else {
                Scalar::from_raw(mean as i64)
            };
            self.present_fps = rate(self.frame_count, self.frame_time_accum);
        }
        self.sim_tps = rate(self.sim_steps_accum, since);
        self.render_fps = rate(self.render_count, since);
        self.frame_time_accum = 0;
        self.frame_count = 0;
        self.sim_steps_accum = 0;
        self.render_count = 0;
        self.last_report = now;
    }

    /// Counts one frame that took `dt`. The counters stop at their
    /// largest values.
    pub fn record_frame(&mut self, dt: u64)
        ensures
            *final(self) == (FrameStats {
                frame_time_accum: if old(self).frame_time_accum + dt > u64::MAX {
                    u64::MAX
                } else {
                    (old(self).frame_time_accum + dt) as u64
                },
                frame_count: if old(self).frame_count < u32::MAX {
                    (old(self).frame_count + 1) as u32
                } else {
                    u32::MAX
                },
                ..*old(self)
            }),
    {
        self.frame_time_accum = self.frame_time_accum.saturating_add(dt);
        if self.frame_count < u32::MAX {
            self.frame_count = self.frame_count + 1;
        }
    }
}

} // verus!
