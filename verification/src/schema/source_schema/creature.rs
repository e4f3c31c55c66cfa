//! Records of creatures.
pub mod abilities;
pub mod attributes;
pub mod details;
pub mod perception;
pub mod resistance;
pub mod resources;
pub mod saves;
pub mod sense;
pub mod item;
pub mod source_creature;
