//! Core data model and rules of the toki engine: indexed palettes, pause
//! menus, pack policy, project asset naming, runtime settings and input state.

pub mod text;
pub mod palette;
pub mod image;
pub mod menu;
pub mod paths;
pub mod pack;
pub mod project_assets;
pub mod project_runtime;
pub mod input;
pub mod indexed_presentation;
pub mod order;
pub mod rules;
pub mod interaction;
pub mod combat;
pub mod render_queries;
pub mod rule_commands;
pub mod tile_rules;
pub mod animation;
pub mod movement;
pub mod stat_effects;

use vstd::prelude::*;

verus! {

} // verus!
