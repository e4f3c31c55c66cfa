//! Hit points of items and creatures.
use crate::json::{Json, JsonV};
use crate::model::result_view;
use crate::text::{parse_i64, spec_parse_i64};
use vstd::prelude::*;

verus! {

#[derive(Debug)]
pub struct RawHpValues {
    pub hp: i64,
}

#[derive(Debug, Clone, Copy, PartialEq, Eq)]
pub enum HpParsingError {
    HpNaN,
}

impl View for RawHpValues {
    type V = i64;

    open spec fn view(&self) -> i64 {
        self.hp
    }
}

impl RawHpValues {
    /// The hit points in `max`, or in `value` where `max` is absent: an integer,
    /// or a string read as one (0 where it does not parse).
    pub open spec fn spec_try_from(j: JsonV) -> Result<i64, HpParsingError> {
        let hp = match j.get("max"@) {
            Some(m) => m,
            None => j.field("value"@),
        };
        match hp.as_i64() {
            Some(v) => Ok(v),
            None => match hp.as_str() {
                None => Err(HpParsingError::HpNaN),
                Some(s) => Ok(
                    match spec_parse_i64(s) {
                        Some(v) => v,
                        None => 0,
                    },
                ),
            },
        }
    }

    pub fn try_from(json: &Json) -> (r: Result<RawHpValues, HpParsingError>)
        ensures
            result_view(r) == Self::spec_try_from(json@),
    {
        let hp = match json.get("max") {
            Some(m) => Some(m),
            None => json.get("value"),
        };
        match crate::json::i64_of(hp) {
            Some(v) => Ok(RawHpValues { hp: v }),
            None => match crate::json::str_of(hp) {
                None => Err(HpParsingError::HpNaN),
                Some(s) => Ok(
                    RawHpValues {
                        hp: match parse_i64(s.as_str()) {
                            Some(v) => v,
                            None => 0,
                        },
                    },
                ),
            },
        }
    }
}

} // verus!
