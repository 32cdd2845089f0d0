//! Client-side game logic of the FistForce sandbox shooter: input handling,
//! menus, inventory drag and drop, chunk streaming bookkeeping, audio limits
//! and mesh topology, each stated and proved against a contract.

use vstd::prelude::*;

pub mod game_state;
pub mod input;
pub mod text;
pub mod items;
pub mod chunks;
pub mod audio;
pub mod mesh;
pub mod name_entry;
pub mod inventory;
pub mod main_menu;
pub mod pause_menu;
pub mod connection;
pub mod weapon_view;
pub mod weapons;
pub mod player;
pub mod npc;
pub mod build_mode;
pub mod visuals;
pub mod pickup;
pub mod crosshair;

verus! {

} // verus!
