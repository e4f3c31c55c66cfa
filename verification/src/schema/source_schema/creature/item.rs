//! The items that a creature carries: spells, weapons, armours, actions, skills.
pub mod saving_throw;
pub mod action;


pub mod skill;
pub mod spell;
pub mod spellcasting_entry;
pub mod items;
pub mod weapon;
pub mod spell_casting_entry;
