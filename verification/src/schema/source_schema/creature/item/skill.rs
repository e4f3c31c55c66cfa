//! Lore skills of creatures.
use crate::json::{field, i64_of, items_view, lemma_items_view, json_view, numbered, numbered_values, str_of, strings_view, Json, JsonV};
use crate::model::opt_view;
use crate::schema::publication_info::{PublicationInfo, PublicationInfoView, PublicationParsingError};
use vstd::prelude::*;

verus! {

#[derive(Debug)]
pub struct Skill {
    pub name: String,
    pub description: Option<String>,
    pub modifier: i64,
    pub proficiency: i64,
    pub publication_info: PublicationInfo,
    pub variant_label: Vec<String>,
}

pub struct SkillView {
    pub name: Seq<char>,
    pub description: Option<Seq<char>>,
    pub modifier: i64,
    pub proficiency: i64,
    pub publication_info: PublicationInfoView,
    pub variant_label: Seq<Seq<char>>,
}

impl View for Skill {
    type V = SkillView;

    open spec fn view(&self) -> SkillView {
        SkillView {
            name: self.name@,
            description: opt_view(self.description),
            modifier: self.modifier,
            proficiency: self.proficiency,
            publication_info: self.publication_info@,
            variant_label: strings_view(self.variant_label@),
        }
    }
}

#[derive(Debug, Clone, Copy, PartialEq, Eq)]
pub enum SkillParsingError {
    NameParsing,
    ModifierParsing,
    ProficiencyParsing,
    SkillVariantParsing,
    Publication(PublicationParsingError),
}

/// The labels of the variants, in order, up to the first variant without a
/// `label`; none where one of those labels is not a string.
pub open spec fn spec_labels(vs: Seq<JsonV>) -> Option<Seq<Seq<char>>>
    decreases vs.len(),
{
    if vs.len() == 0 {
        Some(Seq::empty())
    } else {
        match vs[0].get("label"@) {
            None => Some(Seq::empty()),
            Some(l) => match l.as_str() {
                None => None,
                Some(s) => match spec_labels(vs.drop_first()) {
                    None => None,
                    Some(rest) => Some(seq![s] + rest),
                },
            },
        }
    }
}

pub open spec fn prepend(a: Seq<Seq<char>>, o: Option<Seq<Seq<char>>>) -> Option<Seq<Seq<char>>> {
    match o {
        None => None,
        Some(rest) => Some(a + rest),
    }
}

fn variant_labels(vs: &Vec<Json>) -> (r: Option<Vec<String>>)
    ensures
        match r {
            Some(v) => spec_labels(items_view(vs@)) == Some(strings_view(v@)),
            None => spec_labels(items_view(vs@)) is None,
        },
{
    proof {
        lemma_items_view(vs@);
    }
    let ghost vv = items_view(vs@);
    let mut labels: Vec<String> = Vec::new();
    let mut i: usize = 0;
    assert(vv.subrange(0, vv.len() as int) =~= vv);
    assert(strings_view(labels@) + Seq::<Seq<char>>::empty() =~= Seq::<Seq<char>>::empty());
    while i < vs.len()
        invariant
            i <= vs@.len(),
            vv == items_view(vs@),
            vv.len() == vs@.len(),
            forall|k: int| 0 <= k < vs@.len() ==> #[trigger] vv[k] == json_view(vs@[k]),
            spec_labels(vv) == prepend(strings_view(labels@), spec_labels(vv.subrange(i as int, vv.len() as int))),
        decreases vs@.len() - i,
    {
        let ghost rest = vv.subrange(i as int, vv.len() as int);
        assert(rest[0] == json_view(vs@[i as int]));
        assert(rest.drop_first() =~= vv.subrange(i + 1, vv.len() as int));
        match vs[i].get("label") {
            None => {
                assert(strings_view(labels@) + Seq::<Seq<char>>::empty() =~= strings_view(labels@));
                return Some(labels);
            },
            Some(l) => match l.as_string() {
                None => return None,
                Some(s) => {
                    let ghost before = strings_view(labels@);
                    labels.push(s);
                    assert(strings_view(labels@) =~= before.push(s@));
                    proof {
                        match spec_labels(vv.subrange(i + 1, vv.len() as int)) {
                            None => {},
                            Some(tail) => {
                                assert(before + (seq![s@] + tail) =~= before.push(s@) + tail);
                            },
                        }
                    }
                },
            },
        }
        i = i + 1;
    }
    assert(vv.subrange(i as int, vv.len() as int) =~= Seq::<JsonV>::empty());
    assert(strings_view(labels@) + Seq::<Seq<char>>::empty() =~= strings_view(labels@));
    Some(labels)
}

impl Skill {
    pub open spec fn spec_try_from(j: JsonV) -> Result<SkillView, SkillParsingError> {
        let system = j.field("system"@);
        match j.field("name"@).as_str() {
            None => Err(SkillParsingError::NameParsing),
            Some(name) => match system.field("mod"@).field("value"@).as_i64() {
                None => Err(SkillParsingError::ModifierParsing),
                Some(modifier) => match system.field("proficient"@).field("value"@).as_i64() {
                    None => Err(SkillParsingError::ProficiencyParsing),
                    Some(proficiency) => match PublicationInfo::spec_try_from(system.field("publication"@)) {
                        Err(e) => Err(SkillParsingError::Publication(e)),
                        Ok(publication_info) => match spec_labels(numbered(system.field("variants"@))) {
                            None => Err(SkillParsingError::SkillVariantParsing),
                            Some(variant_label) => Ok(
                                SkillView {
                                    name,
                                    description: system.field("description"@).field("value"@).as_str(),
                                    modifier,
                                    proficiency,
                                    publication_info,
                                    variant_label,
                                },
                            ),
                        },
                    },
                },
            },
        }
    }

    pub fn try_from(json: &Json) -> (r: Result<Skill, SkillParsingError>)
        ensures
            crate::model::result_view(r) == Self::spec_try_from(json@),
    {
        let system = json.get("system");
        let null = Json::Null;
        let name = match str_of(json.get("name")) {
            Some(s) => s,
            None => return Err(SkillParsingError::NameParsing),
        };
        let description = str_of(field(field(system, "description"), "value"));
        let modifier = match i64_of(field(field(system, "mod"), "value")) {
            Some(v) => v,
            None => return Err(SkillParsingError::ModifierParsing),
        };
        let proficiency = match i64_of(field(field(system, "proficient"), "value")) {
            Some(v) => v,
            None => return Err(SkillParsingError::ProficiencyParsing),
        };
        let publication_info = match PublicationInfo::try_from(
            crate::model::deref_or(field(system, "publication"), &null),
        ) {
            Ok(p) => p,
            Err(e) => return Err(SkillParsingError::Publication(e)),
        };
        let variants = numbered_values(field(system, "variants"));
        let variant_label = match variant_labels(&variants) {
            Some(v) => v,
            None => return Err(SkillParsingError::SkillVariantParsing),
        };
        assert(opt_view(description) == crate::json::opt_string_view(description));
        Ok(Skill { name, description, modifier, proficiency, publication_info, variant_label })
    }

    pub fn copy(&self) -> (r: Skill)
        ensures
            r@ == self@,
    {
        let variant_label = crate::model::copy_strings(&self.variant_label);
        assert(strings_view(variant_label@) =~= crate::model::views(variant_label@));
        assert(strings_view(self.variant_label@) =~= crate::model::views(self.variant_label@));
        Skill {
            name: self.name.clone(),
            description: crate::model::copy_opt_string(&self.description),
            modifier: self.modifier,
            proficiency: self.proficiency,
            publication_info: self.publication_info.copy(),
            variant_label,
        }
    }
}

} // verus!
