//! Records as the source data lays them out.
pub mod rules;
pub mod common;
pub mod traits;
pub mod hp_values;
pub mod price_struct;
pub mod item;
pub mod description;
pub mod source_condition;
pub mod creature;
pub mod hazard;
