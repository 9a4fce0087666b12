//! A saved world, stamped with the time it was made.

use vstd::prelude::*;

use crate::constants::ENGINE_VERSION;
use crate::world::World;

verus! {

/// A world together with when it was saved and by which engine version.
#[derive(Debug)]
pub struct Save {
    pub world: World,
    pub date_time_stamp: String,
    pub bouncy_world_engine_version: String,
}

/// Relies on chrono's `Local::now` and `DateTime::format`: the local time
/// now, written as `%Y-%m-%dT%H.%M.%S`. The time is not known in advance, so
/// nothing is stated of the text.
#[verifier::external_body]
fn local_time_stamp() -> (s: String) {
    chrono::offset::Local::now().format("%Y-%m-%dT%H.%M.%S").to_string()
}

impl Save {
    /// Wraps a world in a save stamped with the local time now.
    pub fn new(world: World) -> (s: Save)
        ensures
            s.world == world,
            s.bouncy_world_engine_version@ == ENGINE_VERSION@,
    {
        Save {
            world,
            date_time_stamp: local_time_stamp(),
            bouncy_world_engine_version: String::from_str(ENGINE_VERSION),
        }
    }
}

} // verus!
