//! Records of hazards.
pub mod attributes;
pub mod source_hazard;
