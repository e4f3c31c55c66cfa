//! Saving throws of hazards, where a save may be absent.
use crate::json::{field, str_of, i64_of, Json, JsonV};
use crate::model::{opt_view, result_view};
use vstd::prelude::*;

verus! {

#[derive(Debug)]
pub struct RawSaves {
    pub fortitude: Option<i64>,
    pub fortitude_detail: String,
    pub reflex: Option<i64>,
    pub reflex_detail: String,
    pub will: Option<i64>,
    pub will_detail: String,
}

pub struct RawSavesView {
    pub fortitude: Option<i64>,
    pub fortitude_detail: Seq<char>,
    pub reflex: Option<i64>,
    pub reflex_detail: Seq<char>,
    pub will: Option<i64>,
    pub will_detail: Seq<char>,
}

impl View for RawSaves {
    type V = RawSavesView;

    open spec fn view(&self) -> RawSavesView {
        RawSavesView {
            fortitude: self.fortitude,
            fortitude_detail: self.fortitude_detail@,
            reflex: self.reflex,
            reflex_detail: self.reflex_detail@,
            will: self.will,
            will_detail: self.will_detail@,
        }
    }
}

#[derive(Debug, Clone, Copy, PartialEq, Eq)]
pub enum SaveParsingError {
    Fortitude,
    FortitudeDetail,
    Reflex,
    ReflexDetail,
    Will,
    WillDetail,
}

/// One save: its `value` (`null` for none, else an integer) and its
/// `saveDetail` (empty where it is not a string). `None` when the value is
/// neither.
pub open spec fn spec_save(j: JsonV) -> Option<(Option<i64>, Seq<char>)> {
    let v = j.field("value"@);
    let detail = match j.get("saveDetail"@) {
        Some(d) => match d.as_str() {
            Some(s) => s,
            None => Seq::empty(),
        },
        None => Seq::empty(),
    };
    if v is Null {
        Some((None, detail))
    } else {
        match v.as_i64() {
            Some(i) => Some((Some(i), detail)),
            None => None,
        }
    }
}

fn parse_save(j: Option<&Json>) -> (r: Option<(Option<i64>, String)>)
    ensures
        match r {
            Some((v, d)) => spec_save(crate::json::or_null(j)) == Some((v, d@)),
            None => spec_save(crate::json::or_null(j)) is None,
        },
{
    let v = field(j, "value");
    let detail = match str_of(field(j, "saveDetail")) {
        Some(s) => s,
        None => String::new(),
    };
    let is_null = match v {
        Some(x) => x.is_null(),
        None => true,
    };
    if is_null {
        Some((None, detail))
    } else {
        match i64_of(v) {
            Some(i) => Some((Some(i), detail)),
            None => None,
        }
    }
}

impl RawSaves {
    pub open spec fn spec_try_from(j: JsonV) -> Result<RawSavesView, SaveParsingError> {
        match spec_save(j.field("fortitude"@)) {
            None => Err(SaveParsingError::Fortitude),
            Some((fortitude, fortitude_detail)) => match spec_save(j.field("reflex"@)) {
                None => Err(SaveParsingError::Reflex),
                Some((reflex, reflex_detail)) => match spec_save(j.field("will"@)) {
                    None => Err(SaveParsingError::Will),
                    Some((will, will_detail)) => Ok(
                        RawSavesView {
                            fortitude,
                            fortitude_detail,
                            reflex,
                            reflex_detail,
                            will,
                            will_detail,
                        },
                    ),
                },
            },
        }
    }

    pub fn try_from(json: &Json) -> (r: Result<RawSaves, SaveParsingError>)
        ensures
            result_view(r) == Self::spec_try_from(json@),
    {
        let (fortitude, fortitude_detail) = match parse_save(json.get("fortitude")) {
            Some(s) => s,
            None => return Err(SaveParsingError::Fortitude),
        };
        let (reflex, reflex_detail) = match parse_save(json.get("reflex")) {
            Some(s) => s,
            None => return Err(SaveParsingError::Reflex),
        };
        let (will, will_detail) = match parse_save(json.get("will")) {
            Some(s) => s,
            None => return Err(SaveParsingError::Will),
        };
        Ok(RawSaves { fortitude, fortitude_detail, reflex, reflex_detail, will, will_detail })
    }

    pub fn copy(&self) -> (r: RawSaves)
        ensures
            r@ == self@,
    {
        RawSaves {
            fortitude: self.fortitude,
            fortitude_detail: self.fortitude_detail.clone(),
            reflex: self.reflex,
            reflex_detail: self.reflex_detail.clone(),
            will: self.will,
            will_detail: self.will_detail.clone(),
        }
    }
}

} // verus!
