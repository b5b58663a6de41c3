//! Verified core of the gameplay rules of a 3D roguelike: the player's
//! instruction queue and action state machine, focus handling, the
//! neighbourhood rules of the world, line of sight, the message log,
//! timeouts, bookkeeping of loaded map parts, what is spawned from the game
//! data, the crafting and inventory rules, the texts of the sidebar and the
//! crafting screen, the resolution of the game data ("copy-from"
//! inheritance, ids and aliases), the expansion of crafting requirements and
//! the search for the look of an object.

pub mod units;
pub mod geometry;
pub mod instruction;
pub mod instruction_queue;
pub mod envir;
pub mod player_action_state;
pub mod focus;
pub mod base_instruction_queue;
pub mod timeouts;
pub mod movement;
pub mod crafting;
pub mod inventory;
pub mod vec_map;
pub mod keys;
pub mod explored;
pub mod entities;
pub mod location;
pub mod controls;
pub mod session;
pub mod map_manager;
pub mod expanded;
pub mod text;
pub mod visibility;
pub mod message_log;
pub mod sorting;
pub mod crafting_rules;
pub mod inventory_rules;
pub mod item_text;
pub mod json;
pub mod infos;
pub mod zone_level_ids;
pub mod spawn_rules;
pub mod details;
pub mod requirements;
pub mod appearance;
