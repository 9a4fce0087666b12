//! Fixed names and the settings a fresh configuration starts from.

use vstd::prelude::*;

verus! {

/// Command names: the long form and its one-letter short form.
pub const NEW_COMMAND_LONG: &'static str = "new";
pub const NEW_COMMAND_SHORT: &'static str = "n";
pub const SAVE_COMMAND_LONG: &'static str = "save";
pub const SAVE_COMMAND_SHORT: &'static str = "s";
pub const CONFIG_COMMAND_LONG: &'static str = "config";
pub const CONFIG_COMMAND_SHORT: &'static str = "c";
pub const HELP_COMMAND_LONG: &'static str = "help";
pub const HELP_COMMAND_SHORT: &'static str = "h";

/// The engine version recorded in configurations and saves.
pub const ENGINE_VERSION: &'static str = "0.1.0";

/// Default world settings.
pub const DEBUG_MODE: bool = false;
pub const DEFAULT_WORLD_WIDTH: i32 = 600;
pub const DEFAULT_WORLD_HEIGHT: i32 = 400;
pub const DEFAULT_WORLD_COLOR: &'static str = "ffffffff";

/// Default entity settings; the default entity is a square box.
pub const DEFAULT_ENTITY_COUNT: i32 = 1;
pub const DEFAULT_ENTITY_VELOCITY: i32 = 5;
pub const DEFAULT_ENTITY_COLOR: &'static str = "000000ff";
pub const DEFAULT_ENTITY_SIZE: i32 = 50;

} // verus!
