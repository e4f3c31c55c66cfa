//! Resistances of creatures.
use crate::json::{str_of, i64_of, Json, JsonV};
use crate::model::{copy_strings, result_view, views};
use crate::schema::source_schema::common::resistance::{resistance_of_rule, spec_resistance, ResistanceView};
use crate::schema::source_schema::rules::{string_list, Iwr, Rule};
use vstd::prelude::*;

verus! {

#[derive(Debug)]
pub struct Resistance {
    pub name: String,
    pub value: i64,
    pub double_vs: Vec<String>,
    pub exceptions: Vec<String>,
}

impl View for Resistance {
    type V = ResistanceView;

    open spec fn view(&self) -> ResistanceView {
        ResistanceView {
            name: self.name@,
            value: self.value,
            double_vs: views(self.double_vs@),
            exceptions: views(self.exceptions@),
        }
    }
}

#[derive(Debug, Clone, Copy, PartialEq, Eq)]
pub enum ResistanceParserError {
    SpeedValueIsNaN,
    ResistanceNameError,
    DoubleOrExceptionElementIsNotAString,
}

impl Resistance {
    pub open spec fn spec_try_from(j: JsonV) -> Result<ResistanceView, ResistanceParserError> {
        spec_resistance(
            j,
            ResistanceParserError::ResistanceNameError,
            ResistanceParserError::SpeedValueIsNaN,
            ResistanceParserError::DoubleOrExceptionElementIsNotAString,
        )
    }

    pub fn try_from(json: &Json) -> (r: Result<Resistance, ResistanceParserError>)
        ensures
            result_view(r) == Self::spec_try_from(json@),
    {
        let name = match str_of(json.get("type")) {
            Some(n) => n,
            None => return Err(ResistanceParserError::ResistanceNameError),
        };
        let value = match i64_of(json.get("value")) {
            Some(v) => v,
            None => return Err(ResistanceParserError::SpeedValueIsNaN),
        };
        let double_vs = match string_list(json.get("doubleVs")) {
            Some(v) => v,
            None => return Err(ResistanceParserError::DoubleOrExceptionElementIsNotAString),
        };
        let exceptions = match string_list(json.get("exceptions")) {
            Some(v) => v,
            None => return Err(ResistanceParserError::DoubleOrExceptionElementIsNotAString),
        };
        Ok(Resistance { name, value, double_vs, exceptions })
    }

    /// The resistance that a resistance rule states.
    pub fn from_rule(rule: &Rule) -> (r: Resistance)
        requires
            rule.key == Iwr::Resistance,
        ensures
            r@ == resistance_of_rule(rule@),
    {
        Resistance {
            name: rule.name.clone(),
            value: rule.value,
            double_vs: copy_strings(&rule.double_vs),
            exceptions: copy_strings(&rule.exceptions),
        }
    }

    pub fn copy(&self) -> (r: Resistance)
        ensures
            r@ == self@,
    {
        Resistance {
            name: self.name.clone(),
            value: self.value,
            double_vs: copy_strings(&self.double_vs),
            exceptions: copy_strings(&self.exceptions),
        }
    }
}

} // verus!
