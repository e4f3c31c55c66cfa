//! The records read from the source data and the records that are stored.
pub mod publication_info;
pub mod source_schema;
pub mod bybe_condition;
pub mod bybe_metadata_enum;
pub mod status;
pub mod bybe_item;
pub mod bybe_creature;
pub mod bybe_trait;
pub mod bybe_hazard;
pub mod foundry_schema;
