//! Ranges of senses, weapons and spells.
use crate::json::{Json, JsonV};
use crate::model::{opt_view, result_view};
use crate::text::{i64_to_text, spec_i64_text};
use vstd::prelude::*;

verus! {

/// A range. `increment` and `max` hold the members of an object range as they
/// stand in the source data.
#[derive(Debug)]
pub struct RangeData {
    pub value: String,
    pub increment: Option<Json>,
    pub max: Option<Json>,
}

pub struct RangeDataView {
    pub value: Seq<char>,
    pub increment: Option<JsonV>,
    pub max: Option<JsonV>,
}

impl View for RangeData {
    type V = RangeDataView;

    open spec fn view(&self) -> RangeDataView {
        RangeDataView { value: self.value@, increment: opt_view(self.increment), max: opt_view(self.max) }
    }
}

#[derive(Debug, Clone, Copy, PartialEq, Eq)]
pub enum RangeParsingError {
    ValueNaN,
}

fn copy_opt(o: Option<&Json>) -> (r: Option<Json>)
    ensures
        match o {
            Some(j) => opt_view(r) == Some(j@),
            None => r is None,
        },
{
    match o {
        Some(j) => Some(j.copy()),
        None => None,
    }
}

impl RangeData {
    /// A number gives its decimal text, a string itself, an object its
    /// `increment` and `max` members with an empty value; anything else no range.
    pub open spec fn spec_try_from(j: JsonV) -> Result<RangeDataView, RangeParsingError> {
        match j {
            JsonV::Int(i) => Ok(RangeDataView { value: spec_i64_text(i), increment: None, max: None }),
            JsonV::Str(s) => Ok(RangeDataView { value: s, increment: None, max: None }),
            JsonV::Object(_) => Ok(
                RangeDataView { value: Seq::empty(), increment: j.get("increment"@), max: j.get("max"@) },
            ),
            _ => Err(RangeParsingError::ValueNaN),
        }
    }

    /// A number that is not an integer of 64 bits has no range: the source
    /// data is not read past it.
    pub fn try_from(json: &Json) -> (r: Result<RangeData, RangeParsingError>)
        requires
            !(json@ is Decimal),
        ensures
            result_view(r) == Self::spec_try_from(json@),
    {
        match json {
            Json::Int(i) => Ok(RangeData { value: i64_to_text(*i), increment: None, max: None }),
            Json::Str(s) => Ok(RangeData { value: s.clone(), increment: None, max: None }),
            Json::Object(_) => Ok(
                RangeData {
                    value: String::new(),
                    increment: copy_opt(json.get("increment")),
                    max: copy_opt(json.get("max")),
                },
            ),
            _ => Err(RangeParsingError::ValueNaN),
        }
    }

    pub fn default() -> (r: RangeData)
        ensures
            r@ == (RangeDataView { value: Seq::empty(), increment: None, max: None }),
    {
        RangeData { value: String::new(), increment: None, max: None }
    }

    pub fn copy(&self) -> (r: RangeData)
        ensures
            r@ == self@,
    {
        RangeData {
            value: self.value.clone(),
            increment: match &self.increment {
                Some(j) => Some(j.copy()),
                None => None,
            },
            max: match &self.max {
                Some(j) => Some(j.copy()),
                None => None,
            },
        }
    }
}

} // verus!
