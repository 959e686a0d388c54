//! Simulation core for a turn-based dungeon crawl: a deferred effect-resolution
//! engine together with the spatial occupancy index and the turn-state scheduler
//! that it is coupled to, plus the player-input and monster-AI systems that feed
//! the effect queue.

pub mod ai;
pub mod components;
pub mod damage;
pub mod effects;
pub mod entrance;
pub mod game;
pub mod game_over;
pub mod geometry;
pub mod inventory;
pub mod laws;
pub mod map;
pub mod modes;
pub mod particles;
pub mod player;
pub mod spatial;
pub mod store;
pub mod tile;
pub mod triggers;
pub mod turn;
pub mod world;
