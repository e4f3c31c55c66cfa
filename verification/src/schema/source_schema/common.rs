//! Records shared by creatures, hazards and items.
pub mod resistance;
pub mod range_data;
pub mod saves;
pub mod description;
