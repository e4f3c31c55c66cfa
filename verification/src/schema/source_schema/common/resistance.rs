//! Resistances of creatures and hazards.
use crate::json::{str_of, i64_of, Json, JsonV};
use crate::model::{copy_strings, result_view, views};
use crate::schema::source_schema::rules::{spec_string_list, string_list, Iwr, Rule, RuleView};
use vstd::prelude::*;

verus! {

#[derive(Debug)]
pub struct Resistance {
    pub name: String,
    pub value: i64,
    pub double_vs: Vec<String>,
    pub exceptions: Vec<String>,
}

pub struct ResistanceView {
    pub name: Seq<char>,
    pub value: i64,
    pub double_vs: Seq<Seq<char>>,
    pub exceptions: Seq<Seq<char>>,
}

impl View for Resistance {
    type V = ResistanceView;

    open spec fn view(&self) -> ResistanceView {
        ResistanceView {
            name: self.name@,
            value: self.value,
            double_vs: views(self.double_vs@),
            exceptions: views(self.exceptions@),
        }
    }
}

#[derive(Debug, Clone, Copy, PartialEq, Eq)]
pub enum ResistanceParserError {
    ValueIsNaN,
    Name,
    DoubleOrExceptionElementIsNotAString,
}

/// The resistance that a resistance rule states.
pub open spec fn resistance_of_rule(rule: RuleView) -> ResistanceView {
    ResistanceView {
        name: rule.name,
        value: rule.value,
        double_vs: rule.double_vs,
        exceptions: rule.exceptions,
    }
}

/// The resistance read from `type`, `value`, `doubleVs` and `exceptions`, checked
/// in that order; `name_err` and `value_err` are the errors of the first two.
pub open spec fn spec_resistance<E>(j: JsonV, name_err: E, value_err: E, element_err: E) -> Result<
    ResistanceView,
    E,
> {
    match j.field("type"@).as_str() {
        None => Err(name_err),
        Some(name) => match j.field("value"@).as_i64() {
            None => Err(value_err),
            Some(value) => match spec_string_list(j.field("doubleVs"@)) {
                None => Err(element_err),
                Some(double_vs) => match spec_string_list(j.field("exceptions"@)) {
                    None => Err(element_err),
                    Some(exceptions) => Ok(ResistanceView { name, value, double_vs, exceptions }),
                },
            },
        },
    }
}

impl Resistance {
    pub open spec fn spec_try_from(j: JsonV) -> Result<ResistanceView, ResistanceParserError> {
        spec_resistance(
            j,
            ResistanceParserError::Name,
            ResistanceParserError::ValueIsNaN,
            ResistanceParserError::DoubleOrExceptionElementIsNotAString,
        )
    }

    /// A resistance rule gives the resistance it states; any other rule gives none.
    pub fn try_from_rule(rule: &Rule) -> (r: Result<Resistance, ()>)
        ensures
            rule.key == Iwr::Resistance ==> result_view(r) == Ok::<ResistanceView, ()>(
                resistance_of_rule(rule@),
            ),
            rule.key != Iwr::Resistance ==> r is Err,
    {
        if rule.key != Iwr::Resistance {
            Err(())
        } else {
            Ok(
                Resistance {
                    name: rule.name.clone(),
                    value: rule.value,
                    double_vs: copy_strings(&rule.double_vs),
                    exceptions: copy_strings(&rule.exceptions),
                },
            )
        }
    }

    pub fn try_from(json: &Json) -> (r: Result<Resistance, ResistanceParserError>)
        ensures
            result_view(r) == Self::spec_try_from(json@),
    {
        let name = match str_of(json.get("type")) {
            Some(n) => n,
            None => return Err(ResistanceParserError::Name),
        };
        let value = match i64_of(json.get("value")) {
            Some(v) => v,
            None => return Err(ResistanceParserError::ValueIsNaN),
        };
        let double_vs = match string_list(json.get("doubleVs")) {
            Some(v) => v,
            None => return Err(ResistanceParserError::DoubleOrExceptionElementIsNotAString),
        };
        let exceptions = match string_list(json.get("exceptions")) {
            Some(v) => v,
            None => return Err(ResistanceParserError::DoubleOrExceptionElementIsNotAString),
        };
        Ok(Resistance { name, value, double_vs, exceptions })
    }

    pub fn copy(&self) -> (r: Resistance)
        ensures
            r@ == self@,
    {
        Resistance {
            name: self.name.clone(),
            value: self.value,
            double_vs: copy_strings(&self.double_vs),
            exceptions: copy_strings(&self.exceptions),
        }
    }
}

} // verus!
