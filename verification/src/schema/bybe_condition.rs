//! Conditions as the database stores them, with their texts taken from the
//! language files.
use crate::game_system::GameSystem;
use crate::json::{field, str_of, Json, JsonV};
use crate::localize::{lookup_path, spec_lookup_path};
use crate::model::{copy_opt_string, copy_strings, opt_view, result_view, views};
use crate::schema::publication_info::{PublicationInfo, PublicationInfoView};
use crate::schema::source_schema::common::description::Description;
use crate::schema::source_schema::source_condition::{
    SourceCondition, SourceConditionParsingError, SourceConditionView,
};
use crate::text::{ascii_lower, concat, str_eq, to_ascii_lowercase, to_lowercase, unicode_lowercase};
use vstd::prelude::*;

verus! {

#[derive(Debug, Clone, Copy, PartialEq, Eq)]
pub enum BybeConditionParsingError {
    UnsupportedConditionType,
    MissingConditionType,
    SourceConditionError(SourceConditionParsingError),
}

/// No localized text was found for a condition's field.
#[derive(Debug)]
pub struct ConditionFieldNotFound {
    pub name: String,
    pub field: String,
}

#[derive(Debug)]
pub struct BybeCondition {
    pub name: String,
    pub rule: Description,
    pub note: Option<Description>,
    pub summary: Option<Description>,
    pub publication_info: PublicationInfo,
    pub overrides: Vec<String>,
    pub is_perpetual: bool,
    pub is_stackable: bool,
    pub value: Option<i64>,
    pub group: Option<String>,
}

pub struct BybeConditionView {
    pub name: Seq<char>,
    pub rule: Seq<char>,
    pub note: Option<Seq<char>>,
    pub summary: Option<Seq<char>>,
    pub publication_info: PublicationInfoView,
    pub overrides: Seq<Seq<char>>,
    pub is_perpetual: bool,
    pub is_stackable: bool,
    pub value: Option<i64>,
    pub group: Option<Seq<char>>,
}

impl View for BybeCondition {
    type V = BybeConditionView;

    open spec fn view(&self) -> BybeConditionView {
        BybeConditionView {
            name: self.name@,
            rule: self.rule@,
            note: opt_view(self.note),
            summary: opt_view(self.summary),
            publication_info: self.publication_info@,
            overrides: views(self.overrides@),
            is_perpetual: self.is_perpetual,
            is_stackable: self.is_stackable,
            value: self.value,
            group: opt_view(self.group),
        }
    }
}

/// The path of a condition's field in the language files.
pub open spec fn condition_path(name: Seq<char>, field: Seq<char>) -> Seq<char> {
    "PF2E.condition."@ + unicode_lowercase(name) + "."@ + unicode_lowercase(field)
}

/// The localized text of a condition's field: for Starfinder the Starfinder
/// overrides first, then the Pathfinder language file.
pub open spec fn spec_condition_field(
    name: Seq<char>,
    field: Seq<char>,
    gs: GameSystem,
    lang: JsonV,
    sf2e: JsonV,
) -> Option<Seq<char>> {
    let path = condition_path(name, field);
    if gs == GameSystem::Starfinder && spec_lookup_path(sf2e, path) is Some {
        spec_lookup_path(sf2e, path)
    } else {
        spec_lookup_path(lang, path)
    }
}

pub fn get_condition_field(
    name: &str,
    field: &str,
    gs: GameSystem,
    lang: &Json,
    sf2e: &Json,
) -> (r: Result<String, ConditionFieldNotFound>)
    ensures
        match r {
            Ok(s) => spec_condition_field(name@, field@, gs, lang@, sf2e@) == Some(s@),
            Err(_) => spec_condition_field(name@, field@, gs, lang@, sf2e@) is None,
        },
{
    let l_name = to_lowercase(name);
    let l_field = to_lowercase(field);
    let p1 = concat("PF2E.condition.", l_name.as_str());
    let p2 = concat(p1.as_str(), ".");
    let dot_path = concat(p2.as_str(), l_field.as_str());
    assert(dot_path@ == condition_path(name@, field@));
    let sf2e_result = if gs == GameSystem::Starfinder {
        lookup_path(sf2e, dot_path.as_str())
    } else {
        None
    };
    let found = match sf2e_result {
        Some(s) => Some(s),
        None => lookup_path(lang, dot_path.as_str()),
    };
    match found {
        Some(s) => Ok(s),
        None => Err(ConditionFieldNotFound { name: name.to_owned(), field: field.to_owned() }),
    }
}

impl BybeCondition {
    /// The stored condition: its name in lower case, its rule from the
    /// language files (the source description where they have none), and its
    /// note and summary from the language files.
    pub open spec fn spec_from(c: SourceConditionView, gs: GameSystem, lang: JsonV, sf2e: JsonV) -> BybeConditionView {
        let name = unicode_lowercase(c.name);
        BybeConditionView {
            rule: match spec_condition_field(name, "rule"@, gs, lang, sf2e) {
                Some(s) => s,
                None => c.rule_fallback,
            },
            note: spec_condition_field(name, "note"@, gs, lang, sf2e),
            summary: spec_condition_field(name, "summary"@, gs, lang, sf2e),
            publication_info: c.publication_info,
            overrides: c.overrides,
            is_perpetual: c.is_perpetual,
            is_stackable: c.is_stackable,
            value: c.value,
            group: c.group,
            name,
        }
    }

    pub fn from(condition: SourceCondition, gs: GameSystem, lang: &Json, sf2e: &Json) -> (r: BybeCondition)
        ensures
            r@ == Self::spec_from(condition@, gs, lang@, sf2e@),
    {
        let name = to_lowercase(condition.name.as_str());
        let rule = match get_condition_field(name.as_str(), "rule", gs, lang, sf2e) {
            Ok(s) => Description::from_string(s),
            Err(_) => condition.rule_fallback,
        };
        let note = match get_condition_field(name.as_str(), "note", gs, lang, sf2e) {
            Ok(s) => Some(Description::from_string(s)),
            Err(_) => None,
        };
        let summary = match get_condition_field(name.as_str(), "summary", gs, lang, sf2e) {
            Ok(s) => Some(Description::from_string(s)),
            Err(_) => None,
        };
        BybeCondition {
            rule,
            note,
            summary,
            publication_info: condition.publication_info,
            overrides: condition.overrides,
            is_perpetual: condition.is_perpetual,
            is_stackable: condition.is_stackable,
            value: condition.value,
            group: condition.group,
            name,
        }
    }

    /// The record's `type` says it is a condition.
    pub open spec fn is_condition(j: JsonV) -> bool {
        match j.field("type"@).as_str() {
            Some(t) => ascii_lower(t) == "condition"@,
            None => false,
        }
    }

    pub open spec fn spec_try_from(j: JsonV, gs: GameSystem, lang: JsonV, sf2e: JsonV) -> Result<
        BybeConditionView,
        BybeConditionParsingError,
    > {
        match j.field("type"@).as_str() {
            None => Err(BybeConditionParsingError::MissingConditionType),
            Some(t) => if ascii_lower(t) != "condition"@ {
                Err(BybeConditionParsingError::UnsupportedConditionType)
            } else {
                match SourceCondition::spec_try_from(j) {
                    Err(e) => Err(BybeConditionParsingError::SourceConditionError(e)),
                    Ok(c) => Ok(Self::spec_from(c, gs, lang, sf2e)),
                }
            },
        }
    }

    /// Reads a condition where reading does not panic; `None` where it would.
    pub fn try_from_checked(json: &Json, gs: GameSystem, lang: &Json, sf2e: &Json) -> (r: Option<
        Result<BybeCondition, BybeConditionParsingError>,
    >)
        ensures
            r is None <==> (Self::is_condition(json@) && SourceCondition::stops(json@)),
            match r {
                Some(res) => result_view(res) == Self::spec_try_from(json@, gs, lang@, sf2e@),
                None => true,
            },
    {
        let is_condition = match str_of(json.get("type")) {
            Some(t) => str_eq(to_ascii_lowercase(t.as_str()).as_str(), "condition"),
            None => false,
        };
        if is_condition && SourceCondition::stops_on(json) {
            return None;
        }
        Some(Self::try_from(json, gs, lang, sf2e))
    }

    pub fn try_from(json: &Json, gs: GameSystem, lang: &Json, sf2e: &Json) -> (r: Result<
        BybeCondition,
        BybeConditionParsingError,
    >)
        requires
            Self::is_condition(json@) ==> !SourceCondition::stops(json@),
        ensures
            result_view(r) == Self::spec_try_from(json@, gs, lang@, sf2e@),
    {
        let item_type = match str_of(json.get("type")) {
            Some(t) => to_ascii_lowercase(t.as_str()),
            None => return Err(BybeConditionParsingError::MissingConditionType),
        };
        if !str_eq(item_type.as_str(), "condition") {
            return Err(BybeConditionParsingError::UnsupportedConditionType);
        }
        match SourceCondition::try_from(json) {
            Ok(c) => Ok(Self::from(c, gs, lang, sf2e)),
            Err(e) => Err(BybeConditionParsingError::SourceConditionError(e)),
        }
    }

    pub fn copy(&self) -> (r: BybeCondition)
        ensures
            r@ == self@,
    {
        BybeCondition {
            name: self.name.clone(),
            rule: self.rule.copy(),
            note: match &self.note {
                Some(d) => Some(d.copy()),
                None => None,
            },
            summary: match &self.summary {
                Some(d) => Some(d.copy()),
                None => None,
            },
            publication_info: self.publication_info.copy(),
            overrides: copy_strings(&self.overrides),
            is_perpetual: self.is_perpetual,
            is_stackable: self.is_stackable,
            value: self.value,
            group: copy_opt_string(&self.group),
        }
    }
}

/// The names of the conditions.
pub open spec fn condition_names(cs: Seq<BybeConditionView>) -> Seq<Seq<char>> {
    cs.map_values(|c: BybeConditionView| c.name)
}

/// The Pathfinder conditions that no Starfinder condition of the same name
/// replaces, in order.
pub open spec fn kept_conditions(pf2e: Seq<BybeConditionView>, names: Seq<Seq<char>>) -> Seq<BybeConditionView>
    decreases pf2e.len(),
{
    if pf2e.len() == 0 {
        Seq::empty()
    } else {
        let rest = kept_conditions(pf2e.drop_last(), names);
        if names.contains(pf2e.last().name) {
            rest
        } else {
            rest.push(pf2e.last())
        }
    }
}

/// The conditions of Starfinder: the Pathfinder ones that Starfinder does not
/// redefine, then the Starfinder ones.
pub open spec fn spec_starfinder_conditions(pf2e: Seq<BybeConditionView>, sf2e: Seq<BybeConditionView>) -> Seq<BybeConditionView> {
    kept_conditions(pf2e, condition_names(sf2e)) + sf2e
}

fn has_name(cs: &Vec<BybeCondition>, name: &str) -> (r: bool)
    ensures
        r == condition_names(views(cs@)).contains(name@),
{
    let mut i: usize = 0;
    while i < cs.len()
        invariant
            i <= cs@.len(),
            forall|k: int| 0 <= k < i ==> cs@[k].name@ != name@,
        decreases cs@.len() - i,
    {
        if str_eq(cs[i].name.as_str(), name) {
            assert(condition_names(views(cs@))[i as int] == name@);
            return true;
        }
        i = i + 1;
    }
    proof {
        if condition_names(views(cs@)).contains(name@) {
            let k = choose|k: int| 0 <= k < cs@.len() && condition_names(views(cs@))[k] == name@;
            assert(cs@[k].name@ == name@);
        }
    }
    false
}

/// The conditions to store for Starfinder.
pub fn starfinder_conditions(pf2e: &Vec<BybeCondition>, sf2e: &Vec<BybeCondition>) -> (r: Vec<BybeCondition>)
    ensures
        views(r@) == spec_starfinder_conditions(views(pf2e@), views(sf2e@)),
{
    let ghost names = condition_names(views(sf2e@));
    let mut r: Vec<BybeCondition> = Vec::new();
    let mut i: usize = 0;
    while i < pf2e.len()
        invariant
            i <= pf2e@.len(),
            names == condition_names(views(sf2e@)),
            views(r@) == kept_conditions(views(pf2e@).subrange(0, i as int), names),
        decreases pf2e@.len() - i,
    {
        let ghost pre = views(pf2e@).subrange(0, i as int);
        let ghost next = views(pf2e@).subrange(0, i + 1);
        assert(next.drop_last() =~= pre);
        assert(next.last() == pf2e@[i as int]@);
        if !has_name(sf2e, pf2e[i].name.as_str()) {
            let c = pf2e[i].copy();
            r.push(c);
            assert(views(r@) =~= kept_conditions(pre, names).push(pf2e@[i as int]@));
        }
        i = i + 1;
    }
    assert(views(pf2e@).subrange(0, pf2e@.len() as int) =~= views(pf2e@));
    let ghost kept = views(r@);
    let ghost n = r@.len();
    let mut j: usize = 0;
    while j < sf2e.len()
        invariant
            j <= sf2e@.len(),
            kept.len() == n,
            r@.len() == n + j,
            forall|k: int| 0 <= k < n ==> #[trigger] r@[k]@ == kept[k],
            forall|k: int| 0 <= k < j ==> #[trigger] r@[n + k]@ == sf2e@[k]@,
        decreases sf2e@.len() - j,
    {
        let c = sf2e[j].copy();
        r.push(c);
        j = j + 1;
    }
    assert(views(r@) =~= kept + views(sf2e@)) by {
        assert forall|k: int| 0 <= k < r@.len() implies views(r@)[k] == (kept + views(sf2e@))[k] by {
            if k >= n {
                assert(r@[n + (k - n)]@ == sf2e@[k - n]@);
            }
        }
    }
    r
}

/// Law: the Starfinder conditions hold every Starfinder condition, and a
/// Pathfinder condition exactly when no Starfinder condition has its name.
pub proof fn lemma_starfinder_conditions(pf2e: Seq<BybeConditionView>, sf2e: Seq<BybeConditionView>)
    ensures
        forall|c: BybeConditionView| sf2e.contains(c) ==> spec_starfinder_conditions(pf2e, sf2e).contains(c),
        forall|c: BybeConditionView|
            pf2e.contains(c) ==> (kept_conditions(pf2e, condition_names(sf2e)).contains(c)
                <==> !condition_names(sf2e).contains(c.name)),
{
    let all = spec_starfinder_conditions(pf2e, sf2e);
    let kept = kept_conditions(pf2e, condition_names(sf2e));
    assert forall|c: BybeConditionView| sf2e.contains(c) implies all.contains(c) by {
        let k = choose|k: int| 0 <= k < sf2e.len() && sf2e[k] == c;
        assert(all[kept.len() + k] == c);
    }
    assert forall|c: BybeConditionView| pf2e.contains(c) implies (kept.contains(c)
        <==> !condition_names(sf2e).contains(c.name)) by {
        lemma_kept_conditions(pf2e, condition_names(sf2e), c);
    }
}

proof fn lemma_kept_conditions(pf2e: Seq<BybeConditionView>, names: Seq<Seq<char>>, c: BybeConditionView)
    ensures
        kept_conditions(pf2e, names).contains(c) <==> (pf2e.contains(c) && !names.contains(c.name)),
    decreases pf2e.len(),
{
    if pf2e.len() > 0 {
        lemma_kept_conditions(pf2e.drop_last(), names, c);
        let rest = kept_conditions(pf2e.drop_last(), names);
        if pf2e.drop_last().contains(c) {
            let k = choose|k: int| 0 <= k < pf2e.drop_last().len() && pf2e.drop_last()[k] == c;
            assert(pf2e[k] == c);
        }
        if pf2e.contains(c) && !pf2e.drop_last().contains(c) {
            let k = choose|k: int| 0 <= k < pf2e.len() && pf2e[k] == c;
            if k < pf2e.len() - 1 {
                assert(pf2e.drop_last()[k] == c);
            }
            assert(pf2e.last() == c);
        }
        if !names.contains(pf2e.last().name) {
            assert(rest.push(pf2e.last()).last() == pf2e.last());
            if rest.contains(c) {
                let k = choose|k: int| 0 <= k < rest.len() && rest[k] == c;
                assert(rest.push(pf2e.last())[k] == c);
            }
            if rest.push(pf2e.last()).contains(c) && !rest.contains(c) {
                let k = choose|k: int| 0 <= k < rest.len() + 1 && rest.push(pf2e.last())[k] == c;
                if k < rest.len() {
                    assert(rest[k] == c);
                }
            }
        }
    }
}

} // verus!
