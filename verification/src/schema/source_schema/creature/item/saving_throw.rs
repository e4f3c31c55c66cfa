//! Saving throws that spells call for.
use crate::json::{bool_of, str_of, Json, JsonV};
use vstd::prelude::*;

verus! {

#[derive(Debug)]
pub struct SavingThrow {
    pub basic: bool,
    pub statistic: String,
}

pub struct SavingThrowView {
    pub basic: bool,
    pub statistic: Seq<char>,
}

impl View for SavingThrow {
    type V = SavingThrowView;

    open spec fn view(&self) -> SavingThrowView {
        SavingThrowView { basic: self.basic, statistic: self.statistic@ }
    }
}

#[derive(Debug, Clone, Copy, PartialEq, Eq)]
pub enum SavingThrowParsingError {
    Basic,
    Statistic,
    SavingThrow,
}

impl SavingThrow {
    /// An object with a boolean `basic` and a string `statistic`.
    pub open spec fn spec_try_from(j: JsonV) -> Result<SavingThrowView, SavingThrowParsingError> {
        if j.as_object() is None {
            Err(SavingThrowParsingError::SavingThrow)
        } else {
            match j.field("basic"@).as_bool() {
                None => Err(SavingThrowParsingError::Basic),
                Some(basic) => match j.field("statistic"@).as_str() {
                    None => Err(SavingThrowParsingError::Statistic),
                    Some(statistic) => Ok(SavingThrowView { basic, statistic }),
                },
            }
        }
    }

    pub fn try_from(json: &Json) -> (r: Result<SavingThrow, SavingThrowParsingError>)
        ensures
            crate::model::result_view(r) == Self::spec_try_from(json@),
    {
        match json.as_object() {
            None => Err(SavingThrowParsingError::SavingThrow),
            Some(_) => {
                let basic = match bool_of(json.get("basic")) {
                    Some(b) => b,
                    None => return Err(SavingThrowParsingError::Basic),
                };
                let statistic = match str_of(json.get("statistic")) {
                    Some(s) => s,
                    None => return Err(SavingThrowParsingError::Statistic),
                };
                Ok(SavingThrow { basic, statistic })
            },
        }
    }

    pub fn copy(&self) -> (r: SavingThrow)
        ensures
            r@ == self@,
    {
        SavingThrow { basic: self.basic, statistic: self.statistic.clone() }
    }
}

} // verus!
