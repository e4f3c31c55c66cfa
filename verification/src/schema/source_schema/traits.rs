//! Rarity, size and traits of a record.
use crate::json::{field, str_of, array_of, strings_in, strings_of, Json, JsonV};
use crate::model::{copy_strings, result_view, views};
use vstd::prelude::*;

verus! {

#[derive(Debug)]
pub struct RawTraits {
    pub rarity: String,
    pub size: String,
    pub traits: Vec<String>,
}

pub struct RawTraitsView {
    pub rarity: Seq<char>,
    pub size: Seq<char>,
    pub traits: Seq<Seq<char>>,
}

impl View for RawTraits {
    type V = RawTraitsView;

    open spec fn view(&self) -> RawTraitsView {
        RawTraitsView { rarity: self.rarity@, size: self.size@, traits: views(self.traits@) }
    }
}

#[derive(Debug, Clone, Copy, PartialEq, Eq)]
pub enum TraitParsingError {
    Rarity,
    Size,
    Traits,
}

impl RawTraits {
    /// `rarity`, `size.value` and the strings of the array `value`, checked in
    /// that order.
    pub open spec fn spec_try_from(j: JsonV) -> Result<RawTraitsView, TraitParsingError> {
        match j.field("rarity"@).as_str() {
            None => Err(TraitParsingError::Rarity),
            Some(rarity) => match j.field("size"@).field("value"@).as_str() {
                None => Err(TraitParsingError::Size),
                Some(size) => match j.field("value"@).as_array() {
                    None => Err(TraitParsingError::Traits),
                    Some(items) => Ok(RawTraitsView { rarity, size, traits: strings_of(items) }),
                },
            },
        }
    }

    pub fn try_from(json: &Json) -> (r: Result<RawTraits, TraitParsingError>)
        ensures
            result_view(r) == Self::spec_try_from(json@),
    {
        let rarity = match str_of(json.get("rarity")) {
            Some(s) => s,
            None => return Err(TraitParsingError::Rarity),
        };
        let size = match str_of(field(json.get("size"), "value")) {
            Some(s) => s,
            None => return Err(TraitParsingError::Size),
        };
        let traits = match array_of(json.get("value")) {
            Some(items) => strings_in(items),
            None => return Err(TraitParsingError::Traits),
        };
        assert(views(traits@) =~= crate::json::strings_view(traits@));
        Ok(RawTraits { rarity, size, traits })
    }

    pub fn copy(&self) -> (r: RawTraits)
        ensures
            r@ == self@,
    {
        RawTraits { rarity: self.rarity.clone(), size: self.size.clone(), traits: copy_strings(&self.traits) }
    }
}

} // verus!
