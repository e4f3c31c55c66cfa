//! Whether a record is still in use.
use crate::schema::source_schema::description::Description;
use crate::schema::source_schema::item::source_item::SourceItem;
use crate::text::contains;
use vstd::prelude::*;

verus! {

#[derive(Debug, Clone, Copy, PartialEq, Eq, Structural)]
pub enum Status {
    Valid,
    Archived,
    Deprecated,
}

impl Status {
    pub fn default() -> (r: Status)
        ensures
            r == Status::Valid,
    {
        Status::Valid
    }

    /// An item is valid while its description is valid, deprecated otherwise.
    pub fn from_validity(description_is_valid: bool) -> (r: Status)
        ensures
            r == (if description_is_valid {
                Status::Valid
            } else {
                Status::Deprecated
            }),
    {
        if description_is_valid {
            Status::Valid
        } else {
            Status::Deprecated
        }
    }

    /// The status of an item: deprecated where its description embeds another
    /// document.
    pub fn from_item(item: &SourceItem) -> (r: Status)
        ensures
            r == (if !contains(item.description@, "@Embed"@) {
                Status::Valid
            } else {
                Status::Deprecated
            }),
    {
        Self::from_validity(Description::from_str(item.description.as_str()).is_valid())
    }

    pub fn to_string(&self) -> (r: String)
        ensures
            r@ == (match self {
                Status::Valid => "valid"@,
                Status::Archived => "archived"@,
                Status::Deprecated => "deprecated"@,
            }),
    {
        match self {
            Status::Valid => "valid".to_owned(),
            Status::Archived => "archived".to_owned(),
            Status::Deprecated => "deprecated".to_owned(),
        }
    }
}

} // verus!
