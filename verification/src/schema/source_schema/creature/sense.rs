//! Senses of creatures.
use crate::json::{str_of, Json, JsonV};
use crate::model::{opt_view, result_view};
use crate::schema::source_schema::common::range_data::{RangeData, RangeDataView};
use vstd::prelude::*;

verus! {

#[derive(Debug)]
pub struct Sense {
    pub name: String,
    pub range: Option<RangeData>,
    pub acuity: Option<String>,
}

pub struct SenseView {
    pub name: Seq<char>,
    pub range: Option<RangeDataView>,
    pub acuity: Option<Seq<char>>,
}

impl View for Sense {
    type V = SenseView;

    open spec fn view(&self) -> SenseView {
        SenseView { name: self.name@, range: opt_view(self.range), acuity: opt_view(self.acuity) }
    }
}

#[derive(Debug, Clone, Copy, PartialEq, Eq)]
pub enum SenseParsingError {
    Name,
}

/// A range that the source data gives, or none where it gives none.
pub open spec fn spec_opt_range(j: JsonV) -> Option<RangeDataView> {
    match RangeData::spec_try_from(j) {
        Ok(r) => Some(r),
        Err(_) => None,
    }
}

/// Reads a range that may be absent.
pub fn opt_range(j: Option<&Json>) -> (r: Option<RangeData>)
    requires
        !(crate::json::or_null(j) is Decimal),
    ensures
        opt_view(r) == spec_opt_range(crate::json::or_null(j)),
{
    match j {
        Some(x) => match RangeData::try_from(x) {
            Ok(r) => Some(r),
            Err(_) => None,
        },
        None => None,
    }
}

impl Sense {
    /// The source data gives the range as a number that is not a 64-bit integer.
    pub open spec fn stops(j: JsonV) -> bool {
        j.field("type"@).as_str() is Some && j.field("range"@) is Decimal
    }

    /// Whether reading the sense would panic.
    pub fn stops_on(json: &Json) -> (r: bool)
        ensures
            r == Self::stops(json@),
    {
        let named = str_of(json.get("type")).is_some();
        let decimal = match json.get("range") {
            Some(Json::Decimal(_)) => true,
            _ => false,
        };
        named && decimal
    }

    pub open spec fn spec_try_from(j: JsonV) -> Result<SenseView, SenseParsingError> {
        match j.field("type"@).as_str() {
            None => Err(SenseParsingError::Name),
            Some(name) => Ok(
                SenseView {
                    name,
                    range: spec_opt_range(j.field("range"@)),
                    acuity: j.field("acuity"@).as_str(),
                },
            ),
        }
    }

    pub fn try_from(json: &Json) -> (r: Result<Sense, SenseParsingError>)
        requires
            !Self::stops(json@),
        ensures
            result_view(r) == Self::spec_try_from(json@),
    {
        let name = match str_of(json.get("type")) {
            Some(n) => n,
            None => return Err(SenseParsingError::Name),
        };
        let range = opt_range(json.get("range"));
        let acuity = str_of(json.get("acuity"));
        assert(opt_view(acuity) == crate::json::opt_string_view(acuity));
        Ok(Sense { name, range, acuity })
    }
}

} // verus!
