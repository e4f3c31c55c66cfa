//! Saving throws of creatures.
use crate::json::{field, i64_of, str_of, Json, JsonV};
use vstd::prelude::*;

verus! {

#[derive(Debug)]
pub struct RawSaves {
    pub fortitude: i64,
    pub fortitude_detail: String,
    pub reflex: i64,
    pub reflex_detail: String,
    pub will: i64,
    pub will_detail: String,
}

pub struct RawSavesView {
    pub fortitude: i64,
    pub fortitude_detail: Seq<char>,
    pub reflex: i64,
    pub reflex_detail: Seq<char>,
    pub will: i64,
    pub will_detail: Seq<char>,
}

impl View for RawSaves {
    type V = RawSavesView;

    open spec fn view(&self) -> RawSavesView {
        RawSavesView {
            fortitude: self.fortitude,
            fortitude_detail: self.fortitude_detail@,
            reflex: self.reflex,
            reflex_detail: self.reflex_detail@,
            will: self.will,
            will_detail: self.will_detail@,
        }
    }
}

#[derive(Debug, Clone, Copy, PartialEq, Eq)]
pub enum SaveParsingError {
    Fortitude,
    FortitudeDetail,
    Reflex,
    ReflexDetail,
    Will,
    WillDetail,
}

impl RawSaves {
    /// Each save needs an integer `value` and a string `saveDetail`.
    pub open spec fn spec_try_from(j: JsonV) -> Result<RawSavesView, SaveParsingError> {
        let f = j.field("fortitude"@);
        let r = j.field("reflex"@);
        let w = j.field("will"@);
        match f.field("value"@).as_i64() {
            None => Err(SaveParsingError::Fortitude),
            Some(fortitude) => match f.field("saveDetail"@).as_str() {
                None => Err(SaveParsingError::FortitudeDetail),
                Some(fortitude_detail) => match r.field("value"@).as_i64() {
                    None => Err(SaveParsingError::Reflex),
                    Some(reflex) => match r.field("saveDetail"@).as_str() {
                        None => Err(SaveParsingError::ReflexDetail),
                        Some(reflex_detail) => match w.field("value"@).as_i64() {
                            None => Err(SaveParsingError::Will),
                            Some(will) => match w.field("saveDetail"@).as_str() {
                                None => Err(SaveParsingError::WillDetail),
                                Some(will_detail) => Ok(
                                    RawSavesView {
                                        fortitude,
                                        fortitude_detail,
                                        reflex,
                                        reflex_detail,
                                        will,
                                        will_detail,
                                    },
                                ),
                            },
                        },
                    },
                },
            },
        }
    }

    pub fn try_from(json: &Json) -> (r: Result<RawSaves, SaveParsingError>)
        ensures
            crate::model::result_view(r) == Self::spec_try_from(json@),
    {
        let f = json.get("fortitude");
        let r = json.get("reflex");
        let w = json.get("will");
        let fortitude = match i64_of(field(f, "value")) {
            Some(v) => v,
            None => return Err(SaveParsingError::Fortitude),
        };
        let fortitude_detail = match str_of(field(f, "saveDetail")) {
            Some(s) => s,
            None => return Err(SaveParsingError::FortitudeDetail),
        };
        let reflex = match i64_of(field(r, "value")) {
            Some(v) => v,
            None => return Err(SaveParsingError::Reflex),
        };
        let reflex_detail = match str_of(field(r, "saveDetail")) {
            Some(s) => s,
            None => return Err(SaveParsingError::ReflexDetail),
        };
        let will = match i64_of(field(w, "value")) {
            Some(v) => v,
            None => return Err(SaveParsingError::Will),
        };
        let will_detail = match str_of(field(w, "saveDetail")) {
            Some(s) => s,
            None => return Err(SaveParsingError::WillDetail),
        };
        Ok(RawSaves { fortitude, fortitude_detail, reflex, reflex_detail, will, will_detail })
    }
}

/// Law: each save is read from its own member: the fortitude, reflex and will
/// modifiers and details of a read record are the integer `value` and the
/// string `saveDetail` under `fortitude`, `reflex` and `will` respectively.
pub proof fn law_saves_read_from_their_members(j: JsonV)
    ensures
        RawSaves::spec_try_from(j) matches Ok(s) ==> {
            &&& j.field("fortitude"@).field("value"@).as_i64() == Some(s.fortitude)
            &&& j.field("reflex"@).field("value"@).as_i64() == Some(s.reflex)
            &&& j.field("will"@).field("value"@).as_i64() == Some(s.will)
            &&& j.field("fortitude"@).field("saveDetail"@).as_str() == Some(s.fortitude_detail)
            &&& j.field("reflex"@).field("saveDetail"@).as_str() == Some(s.reflex_detail)
            &&& j.field("will"@).field("saveDetail"@).as_str() == Some(s.will_detail)
        },
{
}

} // verus!
