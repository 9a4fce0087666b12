//! The settings a world is built from.

use vstd::prelude::*;

use crate::constants::{
    DEBUG_MODE, DEFAULT_ENTITY_COLOR, DEFAULT_ENTITY_COUNT, DEFAULT_ENTITY_SIZE,
    DEFAULT_ENTITY_VELOCITY, DEFAULT_WORLD_COLOR, DEFAULT_WORLD_HEIGHT, DEFAULT_WORLD_WIDTH,
    ENGINE_VERSION,
};
use crate::entity::EntityType;
use crate::save::Save;
use crate::world::WorldType;

verus! {

/// Settings for a world and for the entities created in it.
#[derive(Debug)]
pub struct Config {
    pub is_debug_mode: bool,
    pub world_width: i32,
    pub world_height: i32,
    pub world_color: String,
    pub world_type: WorldType,
    pub entity_count: i32,
    pub entity_color: String,
    pub entity_type: EntityType,
    pub entity_velocity: i32,
    pub bouncy_world_engine_version: String,
}

impl Config {
    /// Entities of this configuration can be placed: the world is wider and
    /// taller than the room each one takes, and the speed is not negative.
    pub open spec fn can_place(self) -> bool {
        &&& 0 <= self.entity_type.span_x() < self.world_width
        &&& 0 <= self.entity_type.span_y() < self.world_height
        &&& self.entity_velocity >= 0
    }

    /// Whether entities of this configuration can be placed in its world.
    pub fn fits_placement(&self) -> (r: bool)
        ensures
            r == self.can_place(),
    {
        let (span_x, span_y) = match &self.entity_type {
            EntityType::Box(w, h) => (*w, *h),
            EntityType::Ball(r) => (*r, *r),
            EntityType::Image(_, w, h) => (*w, *h),
            EntityType::Text(w, h) => (*w, *h),
        };
        0 <= span_x && span_x < self.world_width && 0 <= span_y && span_y < self.world_height
            && self.entity_velocity >= 0
    }

    /// The default configuration: a 600 by 400 white world holding one black
    /// 50 by 50 box that moves at speed 5.
    pub fn new() -> (c: Config)
        ensures
            c.is_debug_mode == DEBUG_MODE,
            c.world_width == DEFAULT_WORLD_WIDTH,
            c.world_height == DEFAULT_WORLD_HEIGHT,
            c.world_color@ == DEFAULT_WORLD_COLOR@,
            c.world_type == WorldType::Color,
            c.entity_count == DEFAULT_ENTITY_COUNT,
            c.entity_color@ == DEFAULT_ENTITY_COLOR@,
            c.entity_velocity == DEFAULT_ENTITY_VELOCITY,
            c.entity_type == EntityType::Box(DEFAULT_ENTITY_SIZE, DEFAULT_ENTITY_SIZE),
            c.bouncy_world_engine_version@ == ENGINE_VERSION@,
            c.can_place(),
    {
        Config {
            is_debug_mode: DEBUG_MODE,
            world_width: DEFAULT_WORLD_WIDTH,
            world_height: DEFAULT_WORLD_HEIGHT,
            world_color: String::from_str(DEFAULT_WORLD_COLOR),
            world_type: WorldType::Color,
            entity_count: DEFAULT_ENTITY_COUNT,
            entity_color: String::from_str(DEFAULT_ENTITY_COLOR),
            entity_velocity: DEFAULT_ENTITY_VELOCITY,
            entity_type: EntityType::Box(DEFAULT_ENTITY_SIZE, DEFAULT_ENTITY_SIZE),
            bouncy_world_engine_version: String::from_str(ENGINE_VERSION),
        }
    }

    /// Recovers a configuration from a saved world: the world's settings and
    /// its number of entities come from the save, the entity settings are the
    /// defaults.
    pub fn reverse_from_world_save(world_save: &Save) -> (c: Config)
        requires
            world_save.world.entities@.len() <= i32::MAX,
        ensures
            c.is_debug_mode == DEBUG_MODE,
            c.world_width == world_save.world.width,
            c.world_height == world_save.world.height,
            c.world_color@ == world_save.world.background_rgba_hex@,
            c.world_type == world_save.world.world_type,
            c.entity_count == world_save.world.entities@.len(),
            c.entity_color@ == DEFAULT_ENTITY_COLOR@,
            c.entity_velocity == DEFAULT_ENTITY_VELOCITY,
            c.entity_type == EntityType::Box(DEFAULT_ENTITY_SIZE, DEFAULT_ENTITY_SIZE),
            c.bouncy_world_engine_version@ == world_save.bouncy_world_engine_version@,
    {
        Config {
            is_debug_mode: DEBUG_MODE,
            world_width: world_save.world.width,
            world_height: world_save.world.height,
            world_color: world_save.world.background_rgba_hex.clone(),
            world_type: world_save.world.world_type.clone(),
            entity_count: world_save.world.entities.len() as i32,
            entity_color: String::from_str(DEFAULT_ENTITY_COLOR),
            entity_velocity: DEFAULT_ENTITY_VELOCITY,
            entity_type: EntityType::Box(DEFAULT_ENTITY_SIZE, DEFAULT_ENTITY_SIZE),
            bouncy_world_engine_version: world_save.bouncy_world_engine_version.clone(),
        }
    }
}

} // verus!
