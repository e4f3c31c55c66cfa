//! Conditions as the source data lays them out.
use crate::json::{all_strings_of, field, str_of, bool_of, i64_of, array_of, Json, JsonV, items_view, lemma_items_view, json_view};
use crate::model::{opt_view, result_view, views};
use crate::schema::publication_info::{PublicationInfo, PublicationInfoView, PublicationParsingError};
use crate::schema::source_schema::common::description::Description;
use crate::text::{to_lowercase, unicode_lowercase};
use vstd::prelude::*;

verus! {

#[derive(Debug)]
pub struct SourceCondition {
    pub foundry_id: String,
    pub name: String,
    pub rule_fallback: Description,
    pub publication_info: PublicationInfo,
    pub overrides: Vec<String>,
    pub is_perpetual: bool,
    pub is_stackable: bool,
    pub value: Option<i64>,
    pub group: Option<String>,
}

pub struct SourceConditionView {
    pub foundry_id: Seq<char>,
    pub name: Seq<char>,
    pub rule_fallback: Seq<char>,
    pub publication_info: PublicationInfoView,
    pub overrides: Seq<Seq<char>>,
    pub is_perpetual: bool,
    pub is_stackable: bool,
    pub value: Option<i64>,
    pub group: Option<Seq<char>>,
}

impl View for SourceCondition {
    type V = SourceConditionView;

    open spec fn view(&self) -> SourceConditionView {
        SourceConditionView {
            foundry_id: self.foundry_id@,
            name: self.name@,
            rule_fallback: self.rule_fallback@,
            publication_info: self.publication_info@,
            overrides: views(self.overrides@),
            is_perpetual: self.is_perpetual,
            is_stackable: self.is_stackable,
            value: self.value,
            group: opt_view(self.group),
        }
    }
}

#[derive(Debug, Clone, Copy, PartialEq, Eq)]
pub enum SourceConditionParsingError {
    IdMissing,
    NameFieldMissing,
    PublicationError(PublicationParsingError),
}

/// The lower-case form of each string.
pub open spec fn lowercased(s: Seq<Seq<char>>) -> Seq<Seq<char>> {
    s.map_values(|x: Seq<char>| unicode_lowercase(x))
}

impl SourceCondition {
    /// The members read past the checked ones: the source data must hold an
    /// array of strings in `system.overrides`, a boolean in
    /// `system.value.isValued` and a string in `system.description.value`.
    pub open spec fn complete(j: JsonV) -> bool {
        let sys = j.field("system"@);
        &&& sys.field("overrides"@).as_array() is Some
        &&& all_strings_of(sys.field("overrides"@).as_array().unwrap()) is Some
        &&& sys.field("value"@).field("isValued"@).as_bool() is Some
        &&& sys.field("description"@).field("value"@).as_str() is Some
    }

    /// The checked members: `_id`, `name`, then `system.publication`.
    pub open spec fn spec_try_from(j: JsonV) -> Result<SourceConditionView, SourceConditionParsingError> {
        let sys = j.field("system"@);
        match j.field("_id"@).as_str() {
            None => Err(SourceConditionParsingError::IdMissing),
            Some(foundry_id) => match j.field("name"@).as_str() {
                None => Err(SourceConditionParsingError::NameFieldMissing),
                Some(name) => match PublicationInfo::spec_try_from(sys.field("publication"@)) {
                    Err(e) => Err(SourceConditionParsingError::PublicationError(e)),
                    Ok(publication_info) => Ok(
                        SourceConditionView {
                            foundry_id,
                            name,
                            rule_fallback: sys.field("description"@).field("value"@).as_str().unwrap(),
                            publication_info,
                            overrides: lowercased(
                                all_strings_of(sys.field("overrides"@).as_array().unwrap()).unwrap(),
                            ),
                            is_perpetual: match sys.field("duration"@).field("perpetual"@).as_bool() {
                                Some(b) => b,
                                None => false,
                            },
                            is_stackable: sys.field("value"@).field("isValued"@).as_bool().unwrap(),
                            value: sys.field("value"@).field("value"@).as_i64(),
                            group: sys.field("group"@).as_str(),
                        },
                    ),
                },
            },
        }
    }

    /// The checked members pass but the others are missing: the source data
    /// is not read past that point.
    pub open spec fn stops(j: JsonV) -> bool {
        Self::spec_try_from(j) is Ok && !Self::complete(j)
    }

    /// Tells whether reading the condition in `json` would panic.
    pub fn stops_on(json: &Json) -> (r: bool)
        ensures
            r == Self::stops(json@),
    {
        let system = json.get("system");
        let overrides_read = match array_of(field(system, "overrides")) {
            Some(items) => crate::json::all_strings(items).is_some(),
            None => false,
        };
        let complete = overrides_read && bool_of(field(field(system, "value"), "isValued")).is_some()
            && str_of(field(field(system, "description"), "value")).is_some();
        if complete {
            return false;
        }
        let null = Json::Null;
        str_of(json.get("_id")).is_some() && str_of(json.get("name")).is_some()
            && PublicationInfo::try_from(crate::model::deref_or(field(system, "publication"), &null)).is_ok()
    }

    pub fn try_from(json: &Json) -> (r: Result<SourceCondition, SourceConditionParsingError>)
        requires
            !Self::stops(json@),
        ensures
            result_view(r) == Self::spec_try_from(json@),
    {
        let foundry_id = match str_of(json.get("_id")) {
            Some(s) => s,
            None => return Err(SourceConditionParsingError::IdMissing),
        };
        let system = json.get("system");
        let name = match str_of(json.get("name")) {
            Some(s) => s,
            None => return Err(SourceConditionParsingError::NameFieldMissing),
        };
        let null = Json::Null;
        let publication_json = crate::model::deref_or(field(system, "publication"), &null);
        let publication_info = match PublicationInfo::try_from(publication_json) {
            Ok(p) => p,
            Err(e) => return Err(SourceConditionParsingError::PublicationError(e)),
        };
        let items = array_of(field(system, "overrides")).unwrap();
        let mut overrides: Vec<String> = Vec::new();
        let ghost strs = all_strings_of(items_view(items@)).unwrap();
        proof {
            lemma_items_view(items@);
            lemma_all_strings_elems(items_view(items@));
        }
        let mut i: usize = 0;
        while i < items.len()
            invariant
                i <= items@.len(),
                all_strings_of(items_view(items@)) == Some(strs),
                strs.len() == items@.len(),
                items_view(items@).len() == items@.len(),
                forall|k: int| 0 <= k < items@.len() ==> #[trigger] items_view(items@)[k] == json_view(items@[k]),
                forall|k: int| 0 <= k < items@.len() ==> items_view(items@)[k] == JsonV::Str(#[trigger] strs[k]),
                overrides@.len() == i,
                forall|k: int| 0 <= k < i ==> #[trigger] overrides@[k]@ == unicode_lowercase(strs[k]),
            decreases items@.len() - i,
        {
            assert(items_view(items@)[i as int] == JsonV::Str(strs[i as int]));
            assert(items@[i as int]@ == JsonV::Str(strs[i as int]));
            let s = items[i].as_string().unwrap();
            overrides.push(to_lowercase(s.as_str()));
            i = i + 1;
        }
        assert(views(overrides@) =~= lowercased(strs));
        let is_perpetual = match bool_of(field(field(system, "duration"), "perpetual")) {
            Some(b) => b,
            None => false,
        };
        let value_json = field(system, "value");
        let is_stackable = bool_of(field(value_json, "isValued")).unwrap();
        let value = i64_of(field(value_json, "value"));
        let group = str_of(field(system, "group"));
        let rule_fallback = Description::from_string(
            str_of(field(field(system, "description"), "value")).unwrap(),
        );
        assert(opt_view(group) == crate::json::opt_string_view(group));
        Ok(
            SourceCondition {
                name,
                foundry_id,
                publication_info,
                overrides,
                is_perpetual,
                is_stackable,
                value,
                group,
                rule_fallback,
            },
        )
    }
}

/// When every element of an array is a string, the strings are those elements.
pub proof fn lemma_all_strings_elems(items: Seq<JsonV>)
    requires
        all_strings_of(items) is Some,
    ensures
        all_strings_of(items).unwrap().len() == items.len(),
        forall|k: int|
            0 <= k < items.len() ==> items[k] == JsonV::Str(#[trigger] all_strings_of(items).unwrap()[k]),
    decreases items.len(),
{
    if items.len() > 0 {
        lemma_all_strings_elems(items.drop_last());
        let rest = all_strings_of(items.drop_last()).unwrap();
        assert forall|k: int| 0 <= k < items.len() implies items[k] == JsonV::Str(
            #[trigger] all_strings_of(items).unwrap()[k],
        ) by {
            if k < items.len() - 1 {
                assert(items.drop_last()[k] == items[k]);
            }
        }
    }
}

} // verus!
