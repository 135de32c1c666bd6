//! Simulation core of a tile-based survival sandbox: blocks that can be
//! harvested, streamed chunks of terrain, an inventory with crafting, and the
//! entities that act in the world each tick.
pub mod blocks;
pub mod chunk;
pub mod entities;
pub mod game;
pub mod inventory;
pub mod items;
pub mod lang;
pub mod player;
pub mod random;
