//! Entities: shapes that move at a constant speed and bounce off the edges of
//! the world.

use vstd::prelude::*;

use crate::config::Config;

verus! {

/// The shape of an entity, fixed when it is created.
#[derive(Debug, PartialEq, Eq, Hash)]
pub enum EntityType {
    /// A rectangle: width and height.
    Box(i32, i32),
    /// A circle: its radius, measured from the entity's position.
    Ball(i32),
    /// A picture: the image's path, width and height.
    Image(String, i32, i32),
    /// A block of text, which takes the room of a rectangle.
    Text(i32, i32),
}

impl Clone for EntityType {
    fn clone(&self) -> (r: Self)
        ensures
            r == *self,
    {
        match self {
            EntityType::Box(w, h) => EntityType::Box(*w, *h),
            EntityType::Ball(r) => EntityType::Ball(*r),
            EntityType::Image(p, w, h) => EntityType::Image(p.clone(), *w, *h),
            EntityType::Text(w, h) => EntityType::Text(*w, *h),
        }
    }
}

impl EntityType {
    /// How far the shape reaches to the right of the position, for placement.
    pub open spec fn span_x(self) -> int {
        match self {
            EntityType::Box(w, _) => w as int,
            EntityType::Ball(r) => r as int,
            EntityType::Image(_, w, _) => w as int,
            EntityType::Text(w, _) => w as int,
        }
    }

    /// How far the shape reaches below the position, for placement.
    pub open spec fn span_y(self) -> int {
        match self {
            EntityType::Box(_, h) => h as int,
            EntityType::Ball(r) => r as int,
            EntityType::Image(_, _, h) => h as int,
            EntityType::Text(_, h) => h as int,
        }
    }

    /// A shape whose room is a width-by-height rectangle.
    pub open spec fn is_rectangular(self) -> bool {
        !(self is Ball)
    }
}

/// A moving shape: position and velocity in whole pixels, a color as text, and
/// a shape.
#[derive(Debug, PartialEq, Eq, Hash)]
pub struct Entity {
    pub x_position: i32,
    pub y_position: i32,
    pub x_velocity: i32,
    pub y_velocity: i32,
    pub rgba_hex: String,
    pub entity_type: EntityType,
}

/// Whether `(x, y)` lies in the half-open rectangle of size `w` by `h` at `(ox, oy)`.
pub open spec fn in_rectangle(ox: int, oy: int, w: int, h: int, x: int, y: int) -> bool {
    ox <= x < ox + w && oy <= y < oy + h
}

/// Whether `(x, y)` lies strictly inside the circle of radius `r` about `(ox, oy)`.
pub open spec fn in_circle(ox: int, oy: int, r: int, x: int, y: int) -> bool {
    (x - ox) * (x - ox) + (y - oy) * (y - oy) < r * r
}

pub open spec fn is_i32(v: int) -> bool {
    i32::MIN <= v <= i32::MAX
}

impl Entity {
    /// Whether the entity covers the point `(x, y)`.
    pub open spec fn covers(self, x: int, y: int) -> bool {
        match self.entity_type {
            EntityType::Ball(r) => in_circle(
                self.x_position as int,
                self.y_position as int,
                r as int,
                x,
                y,
            ),
            EntityType::Box(w, h) => in_rectangle(
                self.x_position as int,
                self.y_position as int,
                w as int,
                h as int,
                x,
                y,
            ),
            EntityType::Image(_, w, h) => in_rectangle(
                self.x_position as int,
                self.y_position as int,
                w as int,
                h as int,
                x,
                y,
            ),
            EntityType::Text(w, h) => in_rectangle(
                self.x_position as int,
                self.y_position as int,
                w as int,
                h as int,
                x,
                y,
            ),
        }
    }

    /// Whether the horizontal velocity turns around in this step: the left
    /// edge is at or past zero, or the right edge is past the world's width.
    pub open spec fn reflects_x(self, world_width: int) -> bool {
        let x = self.x_position as int;
        match self.entity_type {
            EntityType::Ball(r) => x - r <= 0 || x + r > world_width,
            _ => x <= 0 || x + self.entity_type.span_x() > world_width,
        }
    }

    /// Whether the vertical velocity turns around in this step.
    pub open spec fn reflects_y(self, world_height: int) -> bool {
        let y = self.y_position as int;
        match self.entity_type {
            EntityType::Ball(r) => y - r <= 0 || y + r > world_height,
            _ => y <= 0 || y + self.entity_type.span_y() > world_height,
        }
    }

    pub open spec fn next_x_velocity(self, world_width: int) -> int {
        if self.reflects_x(world_width) {
            -self.x_velocity
        } else {
            self.x_velocity as int
        }
    }

    pub open spec fn next_y_velocity(self, world_height: int) -> int {
        if self.reflects_y(world_height) {
            -self.y_velocity
        } else {
            self.y_velocity as int
        }
    }

    /// The new velocities and the positions they lead to fit in an `i32`.
    pub open spec fn step_fits(self, world_width: int, world_height: int) -> bool {
        &&& is_i32(self.next_x_velocity(world_width))
        &&& is_i32(self.next_y_velocity(world_height))
        &&& is_i32(self.x_position + self.next_x_velocity(world_width))
        &&& is_i32(self.y_position + self.next_y_velocity(world_height))
    }

    /// The entity one step later: each velocity turned around where the
    /// entity meets an edge, then the position moved by the new velocity.
    pub open spec fn stepped(self, world_width: int, world_height: int) -> Entity {
        Entity {
            x_position: (self.x_position + self.next_x_velocity(world_width)) as i32,
            y_position: (self.y_position + self.next_y_velocity(world_height)) as i32,
            x_velocity: self.next_x_velocity(world_width) as i32,
            y_velocity: self.next_y_velocity(world_height) as i32,
            ..self
        }
    }

    /// What holds of a newly placed entity: inside the room the world leaves
    /// for its shape, moving at the configured speed on each axis, with the
    /// configured color and shape.
    pub open spec fn placed_by(self, config: Config) -> bool {
        &&& 0 <= self.x_position < config.world_width - config.entity_type.span_x()
        &&& 0 <= self.y_position < config.world_height - config.entity_type.span_y()
        &&& (self.x_velocity == config.entity_velocity || self.x_velocity
            == -config.entity_velocity)
        &&& (self.y_velocity == config.entity_velocity || self.y_velocity
            == -config.entity_velocity)
        &&& self.rgba_hex@ == config.entity_color@
        &&& self.entity_type == config.entity_type
    }
}

/// Relies on rand's `random`: a value drawn from the thread-local generator.
/// Nothing is known of it in advance, so nothing is stated.
pub assume_specification<T>[ rand::random::<T> ]() -> (r: T)
    where
        rand::distributions::Standard: rand::distributions::Distribution<T>,
;

impl Entity {
    /// Creates an entity from four random draws: `x_draw` and `y_draw` pick
    /// the position (modulo the room left for the shape), and the two flags
    /// pick the direction of each velocity (`true` for positive).
    pub fn from_draws(
        config: &Config,
        x_draw: u32,
        y_draw: u32,
        x_positive: bool,
        y_positive: bool,
    ) -> (e: Entity)
        requires
            config.can_place(),
        ensures
            e.x_position == x_draw as int % (config.world_width
                - config.entity_type.span_x()),
            e.y_position == y_draw as int % (config.world_height
                - config.entity_type.span_y()),
            e.x_velocity == if x_positive {
                config.entity_velocity as int
            } else {
                -config.entity_velocity
            },
            e.y_velocity == if y_positive {
                config.entity_velocity as int
            } else {
                -config.entity_velocity
            },
            e.rgba_hex@ == config.entity_color@,
            e.entity_type == config.entity_type,
            e.placed_by(*config),
    {
        let (span_x, span_y) = match &config.entity_type {
            EntityType::Box(w, h) => (*w, *h),
            EntityType::Ball(r) => (*r, *r),
            EntityType::Image(_, w, h) => (*w, *h),
            EntityType::Text(w, h) => (*w, *h),
        };
        let room_x = (config.world_width - span_x) as u32;
        let room_y = (config.world_height - span_y) as u32;
        let v = config.entity_velocity;
        Entity {
            x_position: (x_draw % room_x) as i32,
            y_position: (y_draw % room_y) as i32,
            x_velocity: if x_positive {
                v
            } else {
                -v
            },
            y_velocity: if y_positive {
                v
            } else {
                -v
            },
            rgba_hex: config.entity_color.clone(),
            entity_type: config.entity_type.clone(),
        }
    }

    /// Creates an entity at a random place inside the world, with a random
    /// direction on each axis.
    pub fn new(config: &Config) -> (e: Entity)
        requires
            config.can_place(),
        ensures
            e.placed_by(*config),
    {
        let x_draw: u32 = rand::random::<u32>();
        let y_draw: u32 = rand::random::<u32>();
        let x_positive: bool = rand::random::<bool>();
        let y_positive: bool = rand::random::<bool>();
        Entity::from_draws(config, x_draw, y_draw, x_positive, y_positive)
    }

    /// Moves the entity one step, turning each velocity around first where
    /// the entity meets an edge of the world.
    pub fn update(&mut self, config: &Config)
        requires
            old(self).step_fits(config.world_width as int, config.world_height as int),
        ensures
            *final(self) == old(self).stepped(config.world_width as int, config.world_height as int),
    {
        match &self.entity_type {
            EntityType::Box(w, h) => {
                let (w, h) = (*w, *h);
                self.width_and_height_bounce(w, h, config)
            },
            EntityType::Ball(r) => {
                let r = *r;
                self.radius_bounce(r, config)
            },
            EntityType::Image(_, w, h) => {
                let (w, h) = (*w, *h);
                self.width_and_height_bounce(w, h, config)
            },
            EntityType::Text(w, h) => {
                let (w, h) = (*w, *h);
                self.width_and_height_bounce(w, h, config)
            },
        }
    }

    /// Whether the next step keeps velocities and positions within the `i32`
    /// range.
    pub fn fits_next_step(&self, config: &Config) -> (r: bool)
        ensures
            r == self.step_fits(config.world_width as int, config.world_height as int),
    {
        let x = self.x_position as i64;
        let y = self.y_position as i64;
        let ww = config.world_width as i64;
        let wh = config.world_height as i64;
        let (turn_x, turn_y) = match &self.entity_type {
            EntityType::Ball(r) => {
                let r = *r as i64;
                (x - r <= 0 || x + r > ww, y - r <= 0 || y + r > wh)
            },
            EntityType::Box(w, h) => (x <= 0 || x + *w as i64 > ww, y <= 0 || y + *h as i64 > wh),
            EntityType::Image(_, w, h) => (
                x <= 0 || x + *w as i64 > ww,
                y <= 0 || y + *h as i64 > wh,
            ),
            EntityType::Text(w, h) => (x <= 0 || x + *w as i64 > ww, y <= 0 || y + *h as i64 > wh),
        };
        let vx = if turn_x {
            -(self.x_velocity as i64)
        } else {
            self.x_velocity as i64
        };
        let vy = if turn_y {
            -(self.y_velocity as i64)
        } else {
            self.y_velocity as i64
        };
        let min = i32::MIN as i64;
        let max = i32::MAX as i64;
        min <= vx && vx <= max && min <= vy && vy <= max && min <= x + vx && x + vx <= max && min
            <= y + vy && y + vy <= max
    }

    /// Whether the entity covers the point `(x_position, y_position)`.
    pub fn is_within_entity(&self, x_position: i32, y_position: i32) -> (r: bool)
        ensures
            r == self.covers(x_position as int, y_position as int),
    {
        match &self.entity_type {
            EntityType::Box(w, h) => self.is_within_width_and_height(
                x_position,
                y_position,
                *w,
                *h,
            ),
            EntityType::Ball(r) => self.is_within_radius(x_position, y_position, *r),
            EntityType::Image(_, w, h) => self.is_within_width_and_height(
                x_position,
                y_position,
                *w,
                *h,
            ),
            EntityType::Text(w, h) => self.is_within_width_and_height(
                x_position,
                y_position,
                *w,
                *h,
            ),
        }
    }

    fn width_and_height_bounce(&mut self, width: i32, height: i32, config: &Config)
        requires
            old(self).entity_type.is_rectangular(),
            old(self).entity_type.span_x() == width,
            old(self).entity_type.span_y() == height,
            old(self).step_fits(config.world_width as int, config.world_height as int),
        ensures
            *final(self) == old(self).stepped(config.world_width as int, config.world_height as int),
    {
        let x = self.x_position as i64;
        let y = self.y_position as i64;
        if x <= 0 || x + width as i64 > config.world_width as i64 {
            self.x_velocity = -self.x_velocity;
        }
        if y <= 0 || y + height as i64 > config.world_height as i64 {
            self.y_velocity = -self.y_velocity;
        }
        self.x_position = self.x_position + self.x_velocity;
        self.y_position = self.y_position + self.y_velocity;
    }

    fn radius_bounce(&mut self, radius: i32, config: &Config)
        requires
            old(self).entity_type == EntityType::Ball(radius),
            old(self).step_fits(config.world_width as int, config.world_height as int),
        ensures
            *final(self) == old(self).stepped(config.world_width as int, config.world_height as int),
    {
        let x = self.x_position as i64;
        let y = self.y_position as i64;
        let r = radius as i64;
        if x - r <= 0 || x + r > config.world_width as i64 {
            self.x_velocity = -self.x_velocity;
        }
        if y - r <= 0 || y + r > config.world_height as i64 {
            self.y_velocity = -self.y_velocity;
        }
        self.x_position = self.x_position + self.x_velocity;
        self.y_position = self.y_position + self.y_velocity;
    }

    fn is_within_width_and_height(
        &self,
        x_position: i32,
        y_position: i32,
        width: i32,
        height: i32,
    ) -> (r: bool)
        ensures
            r == in_rectangle(
                self.x_position as int,
                self.y_position as int,
                width as int,
                height as int,
                x_position as int,
                y_position as int,
            ),
    {
        let x = x_position as i64;
        let y = y_position as i64;
        let ox = self.x_position as i64;
        let oy = self.y_position as i64;
        x >= ox && x < ox + width as i64 && y >= oy && y < oy + height as i64
    }

    fn is_within_radius(&self, x_position: i32, y_position: i32, radius: i32) -> (r: bool)
        ensures
            r == in_circle(
                self.x_position as int,
                self.y_position as int,
                radius as int,
                x_position as int,
                y_position as int,
            ),
    {
        let dx = x_position as i128 - self.x_position as i128;
        let dy = y_position as i128 - self.y_position as i128;
        let rr = radius as i128;
        assert(-0x1_0000_0000 <= dx <= 0x1_0000_0000);
        assert(-0x1_0000_0000 <= dy <= 0x1_0000_0000);
        assert(dx * dx <= 0x1_0000_0000_0000_0000 && 0 <= dx * dx) by (nonlinear_arith)
            requires
                -0x1_0000_0000 <= dx <= 0x1_0000_0000,
        ;
        assert(dy * dy <= 0x1_0000_0000_0000_0000 && 0 <= dy * dy) by (nonlinear_arith)
            requires
                -0x1_0000_0000 <= dy <= 0x1_0000_0000,
        ;
        assert(rr * rr <= 0x1_0000_0000_0000_0000 && 0 <= rr * rr) by (nonlinear_arith)
            requires
                -0x1_0000_0000 <= rr <= 0x1_0000_0000,
        ;
        dx * dx + dy * dy < rr * rr
    }
}

/// A box-like entity whose left edge is at or left of zero turns its
/// horizontal velocity around in the next step.
pub proof fn lemma_left_edge_reflects(e: Entity, world_width: int, world_height: int)
    requires
        e.entity_type.is_rectangular(),
        e.x_position <= 0,
    ensures
        e.next_x_velocity(world_width) == -e.x_velocity,
        e.step_fits(world_width, world_height) ==> e.stepped(
            world_width,
            world_height,
        ).x_velocity == -e.x_velocity,
{
}

/// A ball covers exactly the points strictly closer to its center than its
/// radius: a point at distance exactly the radius is left out, any nearer
/// point is in.
pub proof fn lemma_ball_boundary(e: Entity, x: int, y: int)
    requires
        e.entity_type is Ball,
    ensures
        ({
            let r = e.entity_type->Ball_0 as int;
            let d2 = (x - e.x_position) * (x - e.x_position) + (y - e.y_position) * (y
                - e.y_position);
            &&& d2 == r * r ==> !e.covers(x, y)
            &&& d2 < r * r ==> e.covers(x, y)
        }),
{
}

} // verus!
