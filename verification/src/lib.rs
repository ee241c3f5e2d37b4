use vstd::prelude::*;

pub mod activity;
pub mod battle;
pub mod bp;
pub mod charge;
pub mod clock;
pub mod collection;
pub mod command_post;
pub mod critter;
pub mod dungeon;
pub mod error;
pub mod fairyland;
pub mod guide;
pub mod hero;
pub mod hero_group;
pub mod player;
pub mod push;
pub mod server_time;
pub mod session;
pub mod sorting;
pub mod text;
pub mod tower_compose;
pub mod types;

verus! {
} // verus!
