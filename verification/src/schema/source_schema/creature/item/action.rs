//! Actions of creatures.
use crate::json::{array_of, field, i64_of, items_view, json_view, lemma_items_view, str_of, strings_in, strings_of, strings_view, Json, JsonV};
use crate::model::{copy_opt_string, copy_strings, keep_ok, opt_view, views};
use crate::schema::publication_info::{PublicationInfo, PublicationInfoView, PublicationParsingError};
use crate::schema::source_schema::rules::{Rule, RuleParseError, RuleView};
use vstd::prelude::*;

verus! {

#[derive(Debug)]
pub struct ActionTraits {
    pub rarity: String,
    pub traits: Vec<String>,
}

pub struct ActionTraitsView {
    pub rarity: Seq<char>,
    pub traits: Seq<Seq<char>>,
}

impl View for ActionTraits {
    type V = ActionTraitsView;

    open spec fn view(&self) -> ActionTraitsView {
        ActionTraitsView { rarity: self.rarity@, traits: strings_view(self.traits@) }
    }
}

#[derive(Debug)]
pub struct Action {
    pub name: String,
    pub action_type: String,
    pub n_of_actions: Option<i64>,
    pub category: Option<String>,
    pub description: String,
    pub rules: Vec<Rule>,
    pub publication_info: PublicationInfo,
    pub slug: Option<String>,
    pub traits: ActionTraits,
}

pub struct ActionView {
    pub name: Seq<char>,
    pub action_type: Seq<char>,
    pub n_of_actions: Option<i64>,
    pub category: Option<Seq<char>>,
    pub description: Seq<char>,
    pub rules: Seq<RuleView>,
    pub publication_info: PublicationInfoView,
    pub slug: Option<Seq<char>>,
    pub traits: ActionTraitsView,
}

impl View for Action {
    type V = ActionView;

    open spec fn view(&self) -> ActionView {
        ActionView {
            name: self.name@,
            action_type: self.action_type@,
            n_of_actions: self.n_of_actions,
            category: opt_view(self.category),
            description: self.description@,
            rules: views(self.rules@),
            publication_info: self.publication_info@,
            slug: opt_view(self.slug),
            traits: self.traits@,
        }
    }
}

#[derive(Debug, Clone, Copy, PartialEq, Eq)]
pub enum ActionParsingError {
    Name,
    ActionType,
    Description,
    Rarity,
    Trait,
    PublicationError(PublicationParsingError),
    RuleError(RuleParseError),
}

impl ActionTraits {
    /// A string `rarity` and the strings of the array `value`.
    pub open spec fn spec_try_from(j: JsonV) -> Result<ActionTraitsView, ActionParsingError> {
        match j.field("rarity"@).as_str() {
            None => Err(ActionParsingError::Rarity),
            Some(rarity) => match j.field("value"@).as_array() {
                None => Err(ActionParsingError::Trait),
                Some(items) => Ok(ActionTraitsView { rarity, traits: strings_of(items) }),
            },
        }
    }

    pub fn try_from(json: &Json) -> (r: Result<ActionTraits, ActionParsingError>)
        ensures
            crate::model::result_view(r) == Self::spec_try_from(json@),
    {
        let rarity = match str_of(json.get("rarity")) {
            Some(s) => s,
            None => return Err(ActionParsingError::Rarity),
        };
        let traits = match array_of(json.get("value")) {
            Some(items) => strings_in(items),
            None => return Err(ActionParsingError::Trait),
        };
        Ok(ActionTraits { rarity, traits })
    }

    pub fn copy(&self) -> (r: ActionTraits)
        ensures
            r@ == self@,
    {
        let traits = copy_strings(&self.traits);
        assert(strings_view(traits@) =~= views(traits@));
        assert(strings_view(self.traits@) =~= views(self.traits@));
        ActionTraits { rarity: self.rarity.clone(), traits }
    }
}

pub open spec fn rule_parser() -> spec_fn(JsonV) -> Result<RuleView, RuleParseError> {
    |x: JsonV| Rule::spec_try_from(x)
}

/// The rules of an array that parse; the others are left out.
pub open spec fn spec_rules(j: JsonV) -> Seq<RuleView> {
    match j.as_array() {
        Some(items) => keep_ok(items, rule_parser()),
        None => Seq::empty(),
    }
}

/// The rules of an array that may be absent, leaving out those that do not parse.
pub fn rules_of(j: Option<&Json>) -> (r: Vec<Rule>)
    ensures
        views(r@) == spec_rules(crate::json::or_null(j)),
{
    let mut out: Vec<Rule> = Vec::new();
    match array_of(j) {
        None => {
            assert(views(out@) =~= Seq::<RuleView>::empty());
            out
        },
        Some(items) => {
            proof {
                lemma_items_view(items@);
            }
            let ghost iv = items_view(items@);
            let mut i: usize = 0;
            assert(views(out@) =~= Seq::<RuleView>::empty());
            assert(iv.subrange(0, 0) =~= Seq::<JsonV>::empty());
            while i < items.len()
                invariant
                    i <= items@.len(),
                    iv == items_view(items@),
                    crate::json::or_null(j).as_array() == Some(iv),
                    iv.len() == items@.len(),
                    forall|k: int| 0 <= k < items@.len() ==> #[trigger] iv[k] == json_view(items@[k]),
                    keep_ok(iv.subrange(0, i as int), rule_parser()) == views(out@),
                decreases items@.len() - i,
            {
                let ghost pre = iv.subrange(0, i as int);
                let ghost next = iv.subrange(0, i + 1);
                assert(next.drop_last() =~= pre);
                assert(next.last() == json_view(items@[i as int]));
                match Rule::try_from(&items[i]) {
                    Ok(rule) => {
                        let ghost rv = rule@;
                        let ghost before = out@;
                        out.push(rule);
                        assert(views(out@) =~= views(before).push(rv));
                    },
                    Err(_) => {},
                }
                i = i + 1;
            }
            assert(iv.subrange(0, iv.len() as int) =~= iv);
            out
        },
    }
}

/// A copy of a list of rules.
pub fn copy_rules(v: &Vec<Rule>) -> (r: Vec<Rule>)
    ensures
        views(r@) == views(v@),
{
    let mut r: Vec<Rule> = Vec::new();
    let mut i: usize = 0;
    while i < v.len()
        invariant
            i <= v@.len(),
            r@.len() == i,
            forall|k: int| 0 <= k < i ==> #[trigger] r@[k]@ == v@[k]@,
        decreases v@.len() - i,
    {
        r.push(v[i].copy());
        i = i + 1;
    }
    assert(views(r@) =~= views(v@));
    r
}

impl Action {
    pub open spec fn spec_try_from(j: JsonV) -> Result<ActionView, ActionParsingError> {
        let system = j.field("system"@);
        match j.field("name"@).as_str() {
            None => Err(ActionParsingError::Name),
            Some(name) => match system.field("actionType"@).field("value"@).as_str() {
                None => Err(ActionParsingError::ActionType),
                Some(action_type) => match system.field("description"@).field("value"@).as_str() {
                    None => Err(ActionParsingError::Description),
                    Some(description) => match PublicationInfo::spec_try_from(system.field("publication"@)) {
                        Err(e) => Err(ActionParsingError::PublicationError(e)),
                        Ok(publication_info) => match ActionTraits::spec_try_from(system.field("traits"@)) {
                            Err(e) => Err(e),
                            Ok(traits) => Ok(
                                ActionView {
                                    name,
                                    action_type,
                                    n_of_actions: system.field("actions"@).field("value"@).as_i64(),
                                    category: system.field("category"@).as_str(),
                                    description,
                                    rules: spec_rules(system.field("rules"@)),
                                    publication_info,
                                    slug: system.field("slug"@).as_str(),
                                    traits,
                                },
                            ),
                        },
                    },
                },
            },
        }
    }

    pub fn try_from(json: &Json) -> (r: Result<Action, ActionParsingError>)
        ensures
            crate::model::result_view(r) == Self::spec_try_from(json@),
    {
        let system = json.get("system");
        let null = Json::Null;
        let name = match str_of(json.get("name")) {
            Some(s) => s,
            None => return Err(ActionParsingError::Name),
        };
        let action_type = match str_of(field(field(system, "actionType"), "value")) {
            Some(s) => s,
            None => return Err(ActionParsingError::ActionType),
        };
        let n_of_actions = i64_of(field(field(system, "actions"), "value"));
        let category = str_of(field(system, "category"));
        let description = match str_of(field(field(system, "description"), "value")) {
            Some(s) => s,
            None => return Err(ActionParsingError::Description),
        };
        let rules = rules_of(field(system, "rules"));
        let publication_info = match PublicationInfo::try_from(
            crate::model::deref_or(field(system, "publication"), &null),
        ) {
            Ok(p) => p,
            Err(e) => return Err(ActionParsingError::PublicationError(e)),
        };
        let slug = str_of(field(system, "slug"));
        let traits = match ActionTraits::try_from(crate::model::deref_or(field(system, "traits"), &null)) {
            Ok(t) => t,
            Err(e) => return Err(e),
        };
        assert(opt_view(category) == crate::json::opt_string_view(category));
        assert(opt_view(slug) == crate::json::opt_string_view(slug));
        Ok(
            Action {
                name,
                action_type,
                n_of_actions,
                category,
                description,
                rules,
                publication_info,
                slug,
                traits,
            },
        )
    }

    pub fn copy(&self) -> (r: Action)
        ensures
            r@ == self@,
    {
        Action {
            name: self.name.clone(),
            action_type: self.action_type.clone(),
            n_of_actions: self.n_of_actions,
            category: copy_opt_string(&self.category),
            description: self.description.clone(),
            rules: copy_rules(&self.rules),
            publication_info: self.publication_info.copy(),
            slug: copy_opt_string(&self.slug),
            traits: self.traits.copy(),
        }
    }
}

} // verus!
