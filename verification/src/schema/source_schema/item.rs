//! Records of items.
pub mod material;
pub mod source_item;
