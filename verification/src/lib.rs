//! Parsing and shaping of Pathfinder and Starfinder source data (creatures,
//! hazards, items, conditions and traits) into the records that the BYBE
//! database stores.
pub mod text;
pub mod json;
pub mod model;
pub mod schema;
pub mod game_system;
pub mod localize;
pub mod assoc;
pub mod collect;
