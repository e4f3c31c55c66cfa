//! Descriptions as the source data writes them, tags included.
use crate::text::{contains, str_contains};
use vstd::prelude::*;

verus! {

/// A description, kept as the source data writes it.
#[derive(Debug)]
pub struct Description {
    pub raw_description: String,
}

impl View for Description {
    type V = Seq<char>;

    open spec fn view(&self) -> Seq<char> {
        self.raw_description@
    }
}

impl Description {
    /// A description is valid unless it embeds another document (`@Embed`).
    pub fn is_valid(&self) -> (r: bool)
        ensures
            r == !contains(self@, "@Embed"@),
    {
        !str_contains(self.raw_description.as_str(), "@Embed")
    }

    pub fn from_str(description: &str) -> (r: Description)
        ensures
            r@ == description@,
    {
        Description { raw_description: description.to_owned() }
    }

    pub fn from_string(raw_description: String) -> (r: Description)
        ensures
            r@ == raw_description@,
    {
        Description { raw_description }
    }

    pub fn default() -> (r: Description)
        ensures
            r@ == Seq::<char>::empty(),
    {
        Description { raw_description: String::new() }
    }

    /// The text of the description as the source data writes it: its Foundry
    /// tags (`@UUID[...]`, `@Localize[...]` and the like) are kept, neither
    /// resolved nor stripped.
    pub fn to_string(&self) -> (r: String)
        ensures
            r@ == self@,
    {
        self.raw_description.clone()
    }

    pub fn copy(&self) -> (r: Description)
        ensures
            r@ == self@,
    {
        Description { raw_description: self.raw_description.clone() }
    }
}

} // verus!
