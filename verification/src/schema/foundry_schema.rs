//! Records in the earlier layout of the source data.
pub mod creature;
