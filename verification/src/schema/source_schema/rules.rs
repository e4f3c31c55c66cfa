//! Immunity, weakness and resistance rules attached to actions.
use crate::json::{all_strings, array_of, str_of, Json, JsonV, all_strings_of, strings_view};
use crate::model::{copy_strings, result_view, views};
use crate::text::{ascii_lower, parse_i64, spec_parse_i64, str_eq, to_ascii_lowercase};
use vstd::prelude::*;

verus! {

#[derive(PartialEq, Eq, Structural, Debug, Clone, Copy)]
pub enum Iwr {
    Immunity,
    Weakness,
    Resistance,
}

#[derive(Debug, Clone, Copy, PartialEq, Eq)]
pub enum RuleParseError {
    ValueIsNaN,
    ValueIsMissing,
    Name,
    DoubleOrExceptionElementIsNotAString,
    KeyValueNotAString,
    UnsupportedKeyValue,
}

impl Iwr {
    /// The kind named by `s`, ASCII case aside.
    pub open spec fn spec_try_from(s: Seq<char>) -> Result<Iwr, RuleParseError> {
        let l = ascii_lower(s);
        if l == "immunity"@ {
            Ok(Iwr::Immunity)
        } else if l == "weakness"@ {
            Ok(Iwr::Weakness)
        } else if l == "resistance"@ {
            Ok(Iwr::Resistance)
        } else {
            Err(RuleParseError::UnsupportedKeyValue)
        }
    }

    pub fn try_from(value: &str) -> (r: Result<Iwr, RuleParseError>)
        ensures
            r == Self::spec_try_from(value@),
    {
        let l = to_ascii_lowercase(value);
        if str_eq(l.as_str(), "immunity") {
            Ok(Iwr::Immunity)
        } else if str_eq(l.as_str(), "weakness") {
            Ok(Iwr::Weakness)
        } else if str_eq(l.as_str(), "resistance") {
            Ok(Iwr::Resistance)
        } else {
            Err(RuleParseError::UnsupportedKeyValue)
        }
    }
}

#[derive(Debug)]
pub struct Rule {
    pub key: Iwr,
    pub name: String,
    pub value: i64,
    pub exceptions: Vec<String>,
    pub double_vs: Vec<String>,
}

pub struct RuleView {
    pub key: Iwr,
    pub name: Seq<char>,
    pub value: i64,
    pub exceptions: Seq<Seq<char>>,
    pub double_vs: Seq<Seq<char>>,
}

impl View for Rule {
    type V = RuleView;

    open spec fn view(&self) -> RuleView {
        RuleView {
            key: self.key,
            name: self.name@,
            value: self.value,
            exceptions: views(self.exceptions@),
            double_vs: views(self.double_vs@),
        }
    }
}

/// The strings of an optional array member, each of which must be a string;
/// a missing or non-array member reads as no strings.
pub open spec fn spec_string_list(j: JsonV) -> Option<Seq<Seq<char>>> {
    match j.as_array() {
        Some(items) => all_strings_of(items),
        None => Some(Seq::empty()),
    }
}

/// Reads the strings of an optional array member; `None` when an element is
/// not a string.
pub fn string_list(j: Option<&Json>) -> (r: Option<Vec<String>>)
    ensures
        match r {
            Some(v) => spec_string_list(crate::json::or_null(j)) == Some(views(v@)),
            None => spec_string_list(crate::json::or_null(j)) is None,
        },
{
    match array_of(j) {
        Some(items) => {
            let r = all_strings(items);
            proof {
                match r {
                    Some(ref v) => assert(strings_view(v@) =~= views(v@)),
                    None => {},
                }
            }
            r
        },
        None => {
            let v: Vec<String> = Vec::new();
            assert(views(v@) =~= Seq::<Seq<char>>::empty());
            Some(v)
        },
    }
}

/// The number in `value`: an integer, or a string that parses as one.
pub open spec fn spec_rule_value(v: JsonV) -> Option<i64> {
    match v.as_i64() {
        Some(i) => Some(i),
        None => match v.as_str() {
            Some(s) => spec_parse_i64(s),
            None => None,
        },
    }
}

impl Rule {
    /// The rule read from `value` (which must be present), `key`, `type`,
    /// `doubleVs` and `exceptions`, checked in that order.
    pub open spec fn spec_try_from(j: JsonV) -> Result<RuleView, RuleParseError> {
        match j.get("value"@) {
            None => Err(RuleParseError::ValueIsMissing),
            Some(value) => match j.field("key"@).as_str() {
                None => Err(RuleParseError::KeyValueNotAString),
                Some(k) => match Iwr::spec_try_from(k) {
                    Err(e) => Err(e),
                    Ok(key) => match j.field("type"@).as_str() {
                        None => Err(RuleParseError::Name),
                        Some(name) => match spec_rule_value(value) {
                            None => Err(RuleParseError::ValueIsNaN),
                            Some(value) => match spec_string_list(j.field("doubleVs"@)) {
                                None => Err(RuleParseError::DoubleOrExceptionElementIsNotAString),
                                Some(double_vs) => match spec_string_list(j.field("exceptions"@)) {
                                    None => Err(
                                        RuleParseError::DoubleOrExceptionElementIsNotAString,
                                    ),
                                    Some(exceptions) => Ok(
                                        RuleView { key, name, value, exceptions, double_vs },
                                    ),
                                },
                            },
                        },
                    },
                },
            },
        }
    }

    pub fn try_from(json: &Json) -> (r: Result<Rule, RuleParseError>)
        ensures
            result_view(r) == Self::spec_try_from(json@),
    {
        let value = match json.get("value") {
            Some(v) => v,
            None => return Err(RuleParseError::ValueIsMissing),
        };
        let k = match str_of(json.get("key")) {
            Some(k) => k,
            None => return Err(RuleParseError::KeyValueNotAString),
        };
        let key = match Iwr::try_from(k.as_str()) {
            Ok(key) => key,
            Err(e) => return Err(e),
        };
        let name = match str_of(json.get("type")) {
            Some(n) => n,
            None => return Err(RuleParseError::Name),
        };
        let value = match value.as_i64() {
            Some(i) => i,
            None => match value.as_string() {
                Some(s) => match parse_i64(s.as_str()) {
                    Some(i) => i,
                    None => return Err(RuleParseError::ValueIsNaN),
                },
                None => return Err(RuleParseError::ValueIsNaN),
            },
        };
        let double_vs = match string_list(json.get("doubleVs")) {
            Some(v) => v,
            None => return Err(RuleParseError::DoubleOrExceptionElementIsNotAString),
        };
        let exceptions = match string_list(json.get("exceptions")) {
            Some(v) => v,
            None => return Err(RuleParseError::DoubleOrExceptionElementIsNotAString),
        };
        Ok(Rule { key, name, value, exceptions, double_vs })
    }

    pub fn copy(&self) -> (r: Rule)
        ensures
            r@ == self@,
    {
        Rule {
            key: self.key,
            name: self.name.clone(),
            value: self.value,
            exceptions: copy_strings(&self.exceptions),
            double_vs: copy_strings(&self.double_vs),
        }
    }
}

} // verus!
