//! Creatures as they are stored: the source record with the rules of its
//! actions applied to its defences.
use crate::assoc::StrIntMap;
use crate::json::{strings_view, Json, JsonV};
use crate::model::{opt_view, views};
use crate::schema::bybe_item::{rarity_or_common, size_or_medium, BybeArmor, BybeArmorView, BybeItem, BybeItemView, BybeWeapon, BybeWeaponView, SourceWeapon, SourceWeaponView};
use crate::schema::source_schema::creature::item::items::plain_weapon;
use crate::schema::bybe_metadata_enum::{RarityEnum, SizeEnum};
use crate::schema::source_schema::creature::item::action::{Action, ActionView};
use crate::schema::source_schema::creature::item::skill::{Skill, SkillView};
use crate::schema::source_schema::creature::item::spell::{Spell, SpellView};
use crate::schema::source_schema::creature::item::spellcasting_entry::{spec_entry_from, RawSpellCastingEntryView, SpellCastingEntry, SpellCastingEntryView};
use crate::schema::source_schema::creature::sense::{Sense, SenseView};
use crate::schema::source_schema::creature::saves::{RawSaves, RawSavesView, SaveParsingError};
use crate::schema::source_schema::creature::abilities::{AbilityParsingError, RawAbilities};
use crate::schema::source_schema::creature::source_creature::{SourceCreature, SourceCreatureParsingError, SourceCreatureView};
use crate::model::{first_index, lemma_first_index_bound, lemma_first_index_prefix};
use crate::schema::source_schema::common::resistance::{resistance_of_rule, ResistanceView};
use crate::schema::source_schema::creature::resistance::Resistance;
use crate::schema::source_schema::rules::{Iwr, Rule, RuleView};
use crate::text::str_eq;
use itertools::Itertools;
use vstd::prelude::*;

verus! {

/// The elements of a sequence, each at its first occurrence only.
pub open spec fn unique_first<A>(s: Seq<A>) -> Seq<A>
    decreases s.len(),
{
    if s.len() == 0 {
        s
    } else if s.drop_last().contains(s.last()) {
        unique_first(s.drop_last())
    } else {
        unique_first(s.drop_last()).push(s.last())
    }
}

/// Calls `itertools::Itertools::unique` and collects: the strings in order,
/// each at its first occurrence only, as that crate documents.
#[verifier::external_body]
fn unique_strings(v: Vec<String>) -> (r: Vec<String>)
    ensures
        strings_view(r@) == unique_first(strings_view(v@)),
{
    v.into_iter().unique().collect()
}

/// The names of the immunity rules, in order.
pub open spec fn immunity_rule_names(rules: Seq<RuleView>) -> Seq<Seq<char>>
    decreases rules.len(),
{
    if rules.len() == 0 {
        Seq::empty()
    } else if rules.last().key == Iwr::Immunity {
        immunity_rule_names(rules.drop_last()).push(rules.last().name)
    } else {
        immunity_rule_names(rules.drop_last())
    }
}

/// The immunities that the rules grant, then the given ones, each once.
pub open spec fn spec_immunities_with_rules(immunities: Seq<Seq<char>>, rules: Seq<RuleView>) -> Seq<Seq<char>> {
    unique_first(immunity_rule_names(rules) + immunities)
}

pub open spec fn construct_immunities() -> Seq<Seq<char>> {
    seq![
        "bleed"@,
        "death-effects"@,
        "disease"@,
        "doomed"@,
        "drained"@,
        "fatigued"@,
        "healing"@,
        "nonlethal-attacks"@,
        "paralyzed"@,
        "poison"@,
        "sickened"@,
        "spirit"@,
        "unconscious"@,
        "vitality"@,
        "void"@,
    ]
}

pub open spec fn swarm_immunities() -> Seq<Seq<char>> {
    seq!["grabbed"@, "prone"@, "restrained"@]
}

/// The immunities that creature traits imply: constructs (but eidolons) are
/// immune to what a construct body spares them, mindless creatures (but those
/// that are mental) to mental effects, and swarms to being grabbed, prone or
/// restrained.
pub open spec fn spec_implicit_immunities(traits: Seq<Seq<char>>) -> Seq<Seq<char>> {
    let a = if traits.contains("construct"@) && !traits.contains("eidolon"@) {
        construct_immunities()
    } else {
        Seq::empty()
    };
    let b = if traits.contains("mindless"@) && !traits.contains("mental"@) {
        seq!["mental"@]
    } else {
        Seq::empty()
    };
    let c = if traits.contains("swarm"@) {
        swarm_immunities()
    } else {
        Seq::empty()
    };
    a + b + c
}

/// All immunities: those of the rules, the given ones, then those the
/// traits imply, each once.
pub open spec fn spec_all_immunities(immunities: Seq<Seq<char>>, rules: Seq<RuleView>, traits: Seq<Seq<char>>) -> Seq<Seq<char>> {
    spec_immunities_with_rules(immunities + spec_implicit_immunities(traits), rules)
}

fn contains_text(v: &Vec<String>, s: &str) -> (r: bool)
    ensures
        r == strings_view(v@).contains(s@),
{
    let mut i: usize = 0;
    while i < v.len()
        invariant
            i <= v@.len(),
            forall|k: int| 0 <= k < i ==> v@[k]@ != s@,
        decreases v@.len() - i,
    {
        if str_eq(v[i].as_str(), s) {
            assert(strings_view(v@)[i as int] == s@);
            return true;
        }
        i = i + 1;
    }
    proof {
        if strings_view(v@).contains(s@) {
            let k = choose|k: int| 0 <= k < strings_view(v@).len() && strings_view(v@)[k] == s@;
            assert(v@[k]@ == s@);
        }
    }
    false
}

fn push_text(v: &mut Vec<String>, s: &str)
    ensures
        strings_view(final(v)@) == strings_view(old(v)@).push(s@),
{
    let ghost before = strings_view(v@);
    v.push(crate::json::text(s));
    assert(strings_view(v@) =~= before.push(s@));
}

pub fn get_implicit_immunities_from_traits(traits: &Vec<String>) -> (r: Vec<String>)
    ensures
        strings_view(r@) == spec_implicit_immunities(strings_view(traits@)),
{
    let mut result: Vec<String> = Vec::new();
    let ghost tv = strings_view(traits@);
    assert(strings_view(result@) =~= Seq::<Seq<char>>::empty());
    if contains_text(traits, "construct") && !contains_text(traits, "eidolon") {
        push_text(&mut result, "bleed");
        push_text(&mut result, "death-effects");
        push_text(&mut result, "disease");
        push_text(&mut result, "doomed");
        push_text(&mut result, "drained");
        push_text(&mut result, "fatigued");
        push_text(&mut result, "healing");
        push_text(&mut result, "nonlethal-attacks");
        push_text(&mut result, "paralyzed");
        push_text(&mut result, "poison");
        push_text(&mut result, "sickened");
        push_text(&mut result, "spirit");
        push_text(&mut result, "unconscious");
        push_text(&mut result, "vitality");
        push_text(&mut result, "void");
        assert(strings_view(result@) =~= construct_immunities());
    }
    let ghost after_a = strings_view(result@);
    if contains_text(traits, "mindless") && !contains_text(traits, "mental") {
        push_text(&mut result, "mental");
    }
    let ghost after_b = strings_view(result@);
    if contains_text(traits, "swarm") {
        push_text(&mut result, "grabbed");
        push_text(&mut result, "prone");
        push_text(&mut result, "restrained");
        assert(strings_view(result@) =~= after_b + swarm_immunities());
    } else {
        assert(strings_view(result@) =~= after_b + Seq::<Seq<char>>::empty());
    }
    assert(strings_view(result@) =~= spec_implicit_immunities(tv));
    result
}

fn immunity_names(rules: &Vec<Rule>) -> (r: Vec<String>)
    ensures
        strings_view(r@) == immunity_rule_names(views(rules@)),
{
    let ghost rv = views(rules@);
    let mut out: Vec<String> = Vec::new();
    let mut i: usize = 0;
    assert(strings_view(out@) =~= Seq::<Seq<char>>::empty());
    assert(rv.subrange(0, 0) =~= Seq::<RuleView>::empty());
    while i < rules.len()
        invariant
            i <= rules@.len(),
            rv == views(rules@),
            strings_view(out@) == immunity_rule_names(rv.subrange(0, i as int)),
        decreases rules@.len() - i,
    {
        let ghost next = rv.subrange(0, i + 1);
        assert(next.drop_last() =~= rv.subrange(0, i as int));
        assert(next.last() == rules@[i as int]@);
        if rules[i].key == Iwr::Immunity {
            let ghost before = strings_view(out@);
            out.push(rules[i].name.clone());
            assert(strings_view(out@) =~= before.push(rules@[i as int].name@));
        }
        i = i + 1;
    }
    assert(rv.subrange(0, rv.len() as int) =~= rv);
    out
}

fn append_strings(a: &mut Vec<String>, b: Vec<String>)
    ensures
        strings_view(final(a)@) == strings_view(old(a)@) + strings_view(b@),
{
    let ghost av = strings_view(a@);
    let ghost bv = strings_view(b@);
    let mut i: usize = 0;
    assert(bv.subrange(0, 0) =~= Seq::<Seq<char>>::empty());
    assert(av + bv.subrange(0, 0) =~= av);
    while i < b.len()
        invariant
            i <= b@.len(),
            bv == strings_view(b@),
            strings_view(a@) == av + bv.subrange(0, i as int),
        decreases b@.len() - i,
    {
        let ghost before = strings_view(a@);
        a.push(b[i].clone());
        assert(strings_view(a@) =~= before.push(b@[i as int]@));
        assert(av + bv.subrange(0, i + 1) =~= (av + bv.subrange(0, i as int)).push(bv[i as int]));
        i = i + 1;
    }
    assert(bv.subrange(0, bv.len() as int) =~= bv);
}

pub fn get_immunities_adding_iwr_rules(immunities: Vec<String>, rules: &Vec<Rule>) -> (r: Vec<String>)
    ensures
        strings_view(r@) == spec_immunities_with_rules(strings_view(immunities@), views(rules@)),
{
    let mut all = immunity_names(rules);
    append_strings(&mut all, immunities);
    unique_strings(all)
}

pub fn get_all_immunities(immunities: Vec<String>, rules: &Vec<Rule>, traits: &Vec<String>) -> (r: Vec<String>)
    ensures
        strings_view(r@) == spec_all_immunities(strings_view(immunities@), views(rules@), strings_view(traits@)),
{
    let mut result = immunities;
    let implicit = get_implicit_immunities_from_traits(traits);
    append_strings(&mut result, implicit);
    get_immunities_adding_iwr_rules(result, rules)
}

/// A resistance rule for the named damage.
pub open spec fn resists(name: Seq<char>) -> spec_fn(RuleView) -> bool {
    |r: RuleView| r.key == Iwr::Resistance && r.name == name
}

/// A resistance as the first resistance rule for its damage states it, if
/// there is one.
pub open spec fn resistance_with_rules(res: ResistanceView, rules: Seq<RuleView>) -> ResistanceView {
    match first_index(rules, resists(res.name)) {
        Some(i) => resistance_of_rule(rules[i]),
        None => res,
    }
}

pub open spec fn spec_resistances_with_rules(resistances: Seq<ResistanceView>, rules: Seq<RuleView>) -> Seq<ResistanceView> {
    resistances.map_values(|res: ResistanceView| resistance_with_rules(res, rules))
}

fn resistance_rule_index(rules: &Vec<Rule>, name: &str) -> (r: Option<usize>)
    ensures
        match first_index(views(rules@), resists(name@)) {
            Some(i) => r is Some && r.unwrap() as int == i,
            None => r is None,
        },
{
    let ghost rv = views(rules@);
    let ghost p = resists(name@);
    let mut i: usize = 0;
    assert(rv.subrange(0, 0) =~= Seq::<RuleView>::empty());
    while i < rules.len()
        invariant
            i <= rules@.len(),
            rv == views(rules@),
            p == resists(name@),
            first_index(rv.subrange(0, i as int), p) is None,
        decreases rules@.len() - i,
    {
        let ghost next = rv.subrange(0, i + 1);
        assert(next.drop_last() =~= rv.subrange(0, i as int));
        assert(next.last() == rules@[i as int]@);
        if rules[i].key == Iwr::Resistance && str_eq(rules[i].name.as_str(), name) {
            assert(first_index(next, p) == Some(i as int));
            proof {
                lemma_first_index_prefix(rv, p, i as int + 1);
            }
            return Some(i);
        }
        i = i + 1;
    }
    assert(rv.subrange(0, rv.len() as int) =~= rv);
    None
}

pub fn get_resistances_adding_iwr_rules(resistances: Vec<Resistance>, rules: &Vec<Rule>) -> (r: Vec<Resistance>)
    ensures
        views(r@) == spec_resistances_with_rules(views(resistances@), views(rules@)),
{
    let ghost src = views(resistances@);
    let ghost rv = views(rules@);
    let mut out: Vec<Resistance> = Vec::new();
    let mut i: usize = 0;
    while i < resistances.len()
        invariant
            i <= resistances@.len(),
            src == views(resistances@),
            rv == views(rules@),
            out@.len() == i,
            forall|k: int| 0 <= k < i ==> #[trigger] out@[k]@ == resistance_with_rules(src[k], rv),
        decreases resistances@.len() - i,
    {
        let res = &resistances[i];
        let next = match resistance_rule_index(rules, res.name.as_str()) {
            Some(k) => {
                proof {
                    lemma_first_index_bound(rv, resists(res.name@));
                }
                Resistance::from_rule(&rules[k])
            },
            None => res.copy(),
        };
        out.push(next);
        i = i + 1;
    }
    assert(views(out@) =~= spec_resistances_with_rules(src, rv));
    out
}

/// The weaknesses with each weakness rule setting the value of its damage, in
/// the order of the rules.
pub open spec fn spec_weaknesses_with_rules(weaknesses: Map<Seq<char>, i64>, rules: Seq<RuleView>) -> Map<Seq<char>, i64>
    decreases rules.len(),
{
    if rules.len() == 0 {
        weaknesses
    } else {
        let m = spec_weaknesses_with_rules(weaknesses, rules.drop_last());
        if rules.last().key == Iwr::Weakness {
            m.insert(rules.last().name, rules.last().value)
        } else {
            m
        }
    }
}

pub fn get_weaknesses_adding_iwr_rules(weaknesses: StrIntMap, rules: &Vec<Rule>) -> (r: StrIntMap)
    requires
        weaknesses.wf(),
    ensures
        r.wf(),
        r@ == spec_weaknesses_with_rules(weaknesses@, views(rules@)),
{
    let ghost rv = views(rules@);
    let ghost w0 = weaknesses@;
    let mut wk = weaknesses;
    let mut i: usize = 0;
    assert(rv.subrange(0, 0) =~= Seq::<RuleView>::empty());
    while i < rules.len()
        invariant
            i <= rules@.len(),
            rv == views(rules@),
            wk.wf(),
            wk@ == spec_weaknesses_with_rules(w0, rv.subrange(0, i as int)),
        decreases rules@.len() - i,
    {
        let ghost next = rv.subrange(0, i + 1);
        assert(next.drop_last() =~= rv.subrange(0, i as int));
        assert(next.last() == rules@[i as int]@);
        if rules[i].key == Iwr::Weakness {
            wk.insert(rules[i].name.clone(), rules[i].value);
        }
        i = i + 1;
    }
    assert(rv.subrange(0, rv.len() as int) =~= rv);
    wk
}

/// No element of `unique_first(s)` occurs twice.
pub proof fn lemma_unique_first_distinct<A>(s: Seq<A>)
    ensures
        forall|i: int, j: int| 0 <= i < j < unique_first(s).len() ==> unique_first(s)[i] != unique_first(s)[j],
    decreases s.len(),
{
    if s.len() > 0 {
        lemma_unique_first_distinct(s.drop_last());
        lemma_unique_first_members(s.drop_last());
    }
}

/// `unique_first(s)` holds exactly the elements of `s`.
pub proof fn lemma_unique_first_members<A>(s: Seq<A>)
    ensures
        forall|x: A| unique_first(s).contains(x) <==> s.contains(x),
    decreases s.len(),
{
    if s.len() > 0 {
        let d = s.drop_last();
        lemma_unique_first_members(d);
        assert forall|x: A| unique_first(s).contains(x) <==> s.contains(x) by {
            if s.contains(x) {
                let k = choose|k: int| 0 <= k < s.len() && s[k] == x;
                if k < s.len() - 1 {
                    assert(d[k] == x);
                }
            }
            if d.contains(x) {
                let k = choose|k: int| 0 <= k < d.len() && d[k] == x;
                assert(s[k] == x);
            }
            if unique_first(s).contains(x) && !d.contains(s.last()) {
                let u = unique_first(d);
                let k = choose|k: int| 0 <= k < u.push(s.last()).len() && u.push(s.last())[k] == x;
                if k < u.len() {
                    assert(u[k] == x);
                }
            }
            if !d.contains(s.last()) && x == s.last() {
                assert(unique_first(s)[unique_first(d).len() as int] == x);
            }
            if !d.contains(s.last()) && unique_first(d).contains(x) {
                let k = choose|k: int| 0 <= k < unique_first(d).len() && unique_first(d)[k] == x;
                assert(unique_first(s)[k] == x);
            }
        }
    }
}

/// Law: every immunity of a stored creature is listed once.
pub proof fn law_immunities_listed_once(immunities: Seq<Seq<char>>, rules: Seq<RuleView>, traits: Seq<Seq<char>>)
    ensures
        forall|i: int, j: int|
            0 <= i < j < spec_all_immunities(immunities, rules, traits).len() ==> spec_all_immunities(immunities, rules, traits)[i]
                != spec_all_immunities(immunities, rules, traits)[j],
{
    lemma_unique_first_distinct(immunity_rule_names(rules) + (immunities + spec_implicit_immunities(traits)));
}

/// Law: a stored creature is immune to exactly what its immunity rules, its
/// own immunities and its traits make it immune to.
pub proof fn law_immunities_gathered(immunities: Seq<Seq<char>>, rules: Seq<RuleView>, traits: Seq<Seq<char>>, x: Seq<char>)
    ensures
        spec_all_immunities(immunities, rules, traits).contains(x) <==> (immunity_rule_names(rules).contains(x)
            || immunities.contains(x) || spec_implicit_immunities(traits).contains(x)),
{
    let a = immunity_rule_names(rules);
    let b = immunities;
    let c = spec_implicit_immunities(traits);
    let all = a + (b + c);
    lemma_unique_first_members(all);
    if all.contains(x) {
        let k = choose|k: int| 0 <= k < all.len() && all[k] == x;
        if k < a.len() {
            assert(a[k] == x);
        } else if k < a.len() + b.len() {
            assert(b[k - a.len()] == x);
        } else {
            assert(c[k - a.len() - b.len()] == x);
        }
    }
    if a.contains(x) {
        let k = choose|k: int| 0 <= k < a.len() && a[k] == x;
        assert(all[k] == x);
    }
    if b.contains(x) {
        let k = choose|k: int| 0 <= k < b.len() && b[k] == x;
        assert(all[a.len() + k] == x);
    }
    if c.contains(x) {
        let k = choose|k: int| 0 <= k < c.len() && c[k] == x;
        assert(all[a.len() + b.len() + k] == x);
    }
}

/// Law: a construct that is no eidolon is immune to bleed, death effects,
/// disease, doom, drain, fatigue, healing, nonlethal attacks, paralysis,
/// poison, sickness, spirit, unconsciousness, vitality and void; a swarm to
/// being grabbed, prone or restrained; a mindless creature that is not mental
/// to mental effects.
pub proof fn law_trait_immunities(immunities: Seq<Seq<char>>, rules: Seq<RuleView>, traits: Seq<Seq<char>>)
    ensures
        traits.contains("construct"@) && !traits.contains("eidolon"@) ==> forall|i: int|
            0 <= i < construct_immunities().len() ==> spec_all_immunities(immunities, rules, traits).contains(
                #[trigger] construct_immunities()[i],
            ),
        traits.contains("swarm"@) ==> forall|i: int|
            0 <= i < swarm_immunities().len() ==> spec_all_immunities(immunities, rules, traits).contains(
                #[trigger] swarm_immunities()[i],
            ),
        traits.contains("mindless"@) && !traits.contains("mental"@) ==> spec_all_immunities(immunities, rules, traits).contains(
            "mental"@,
        ),
{
    let c = spec_implicit_immunities(traits);
    let a = if traits.contains("construct"@) && !traits.contains("eidolon"@) {
        construct_immunities()
    } else {
        Seq::empty()
    };
    let b = if traits.contains("mindless"@) && !traits.contains("mental"@) {
        seq!["mental"@]
    } else {
        Seq::<Seq<char>>::empty()
    };
    let w = if traits.contains("swarm"@) {
        swarm_immunities()
    } else {
        Seq::empty()
    };
    assert(c == a + b + w);
    if traits.contains("construct"@) && !traits.contains("eidolon"@) {
        assert forall|i: int| 0 <= i < construct_immunities().len() implies spec_all_immunities(
            immunities,
            rules,
            traits,
        ).contains(#[trigger] construct_immunities()[i]) by {
            assert(c[i] == construct_immunities()[i]);
            law_immunities_gathered(immunities, rules, traits, construct_immunities()[i]);
        }
    }
    if traits.contains("swarm"@) {
        assert forall|i: int| 0 <= i < swarm_immunities().len() implies spec_all_immunities(
            immunities,
            rules,
            traits,
        ).contains(#[trigger] swarm_immunities()[i]) by {
            assert(c[a.len() + b.len() + i] == swarm_immunities()[i]);
            law_immunities_gathered(immunities, rules, traits, swarm_immunities()[i]);
        }
    }
    if traits.contains("mindless"@) && !traits.contains("mental"@) {
        assert(c[a.len() as int] == "mental"@);
        law_immunities_gathered(immunities, rules, traits, "mental"@);
    }
}

/// The index of the last element that satisfies `p`.
pub open spec fn last_index<A>(s: Seq<A>, p: spec_fn(A) -> bool) -> Option<int>
    decreases s.len(),
{
    if s.len() == 0 {
        None
    } else if p(s.last()) {
        Some(s.len() - 1)
    } else {
        last_index(s.drop_last(), p)
    }
}

/// A weakness rule for the named damage.
pub open spec fn weakens(name: Seq<char>) -> spec_fn(RuleView) -> bool {
    |r: RuleView| r.key == Iwr::Weakness && r.name == name
}

/// Law: after the rules are applied, a damage with weakness rules has the
/// value of the last of them, and every other weakness is kept.
pub proof fn law_weakness_rules_win(weaknesses: Map<Seq<char>, i64>, rules: Seq<RuleView>, name: Seq<char>)
    ensures
        match last_index(rules, weakens(name)) {
            Some(i) => 0 <= i < rules.len() && spec_weaknesses_with_rules(weaknesses, rules).contains_key(name)
                && spec_weaknesses_with_rules(weaknesses, rules)[name] == rules[i].value,
            None => spec_weaknesses_with_rules(weaknesses, rules).contains_key(name) == weaknesses.contains_key(name)
                && (weaknesses.contains_key(name) ==> spec_weaknesses_with_rules(weaknesses, rules)[name] == weaknesses[name]),
        },
    decreases rules.len(),
{
    if rules.len() > 0 {
        let d = rules.drop_last();
        law_weakness_rules_win(weaknesses, d, name);
        if !weakens(name)(rules.last()) {
            match last_index(d, weakens(name)) {
                Some(i) => {
                    assert(rules[i] == d[i]);
                },
                None => {},
            }
        }
    }
}

#[derive(Debug)]
pub struct BybeCreature {
    pub name: String,
    pub creature_type: Option<String>,
    pub charisma: i64,
    pub constitution: i64,
    pub dexterity: i64,
    pub intelligence: i64,
    pub strength: i64,
    pub wisdom: i64,
    pub ac: i64,
    pub hp: i64,
    pub hp_details: String,
    pub ac_details: String,
    pub speed: StrIntMap,
    pub immunities: Vec<String>,
    pub resistances: Vec<Resistance>,
    pub weaknesses: StrIntMap,
    pub languages_details: String,
    pub languages: Vec<String>,
    pub level: i64,
    pub license: String,
    pub remaster: bool,
    pub source: String,
    pub initiative_ability: String,
    pub perception_mod: i64,
    pub perception_details: String,
    pub vision: bool,
    pub senses: Vec<Sense>,
    pub fortitude_mod: i64,
    pub reflex_mod: i64,
    pub will_mod: i64,
    pub fortitude_detail: String,
    pub reflex_detail: String,
    pub will_detail: String,
    pub rarity: RarityEnum,
    pub size: SizeEnum,
    pub traits: Vec<String>,
    pub weapons: Vec<BybeWeapon>,
    pub armors: Vec<BybeArmor>,
    pub items: Vec<BybeItem>,
    pub actions: Vec<Action>,
    pub n_of_focus_points: i64,
    pub spellcasting: Vec<SpellCastingEntry>,
    pub spells: Vec<Spell>,
    pub skills: Vec<Skill>,
}

pub struct BybeCreatureView {
    pub name: Seq<char>,
    pub creature_type: Option<Seq<char>>,
    pub charisma: i64,
    pub constitution: i64,
    pub dexterity: i64,
    pub intelligence: i64,
    pub strength: i64,
    pub wisdom: i64,
    pub ac: i64,
    pub hp: i64,
    pub hp_details: Seq<char>,
    pub ac_details: Seq<char>,
    pub speed: Map<Seq<char>, i64>,
    pub immunities: Seq<Seq<char>>,
    pub resistances: Seq<ResistanceView>,
    pub weaknesses: Map<Seq<char>, i64>,
    pub languages_details: Seq<char>,
    pub languages: Seq<Seq<char>>,
    pub level: i64,
    pub license: Seq<char>,
    pub remaster: bool,
    pub source: Seq<char>,
    pub initiative_ability: Seq<char>,
    pub perception_mod: i64,
    pub perception_details: Seq<char>,
    pub vision: bool,
    pub senses: Seq<SenseView>,
    pub fortitude_mod: i64,
    pub reflex_mod: i64,
    pub will_mod: i64,
    pub fortitude_detail: Seq<char>,
    pub reflex_detail: Seq<char>,
    pub will_detail: Seq<char>,
    pub rarity: RarityEnum,
    pub size: SizeEnum,
    pub traits: Seq<Seq<char>>,
    pub weapons: Seq<BybeWeaponView>,
    pub armors: Seq<BybeArmorView>,
    pub items: Seq<BybeItemView>,
    pub actions: Seq<ActionView>,
    pub n_of_focus_points: i64,
    pub spellcasting: Seq<SpellCastingEntryView>,
    pub spells: Seq<SpellView>,
    pub skills: Seq<SkillView>,
}

impl View for BybeCreature {
    type V = BybeCreatureView;

    open spec fn view(&self) -> BybeCreatureView {
        BybeCreatureView {
            name: self.name@,
            creature_type: opt_view(self.creature_type),
            charisma: self.charisma,
            constitution: self.constitution,
            dexterity: self.dexterity,
            intelligence: self.intelligence,
            strength: self.strength,
            wisdom: self.wisdom,
            ac: self.ac,
            hp: self.hp,
            hp_details: self.hp_details@,
            ac_details: self.ac_details@,
            speed: self.speed@,
            immunities: strings_view(self.immunities@),
            resistances: views(self.resistances@),
            weaknesses: self.weaknesses@,
            languages_details: self.languages_details@,
            languages: strings_view(self.languages@),
            level: self.level,
            license: self.license@,
            remaster: self.remaster,
            source: self.source@,
            initiative_ability: self.initiative_ability@,
            perception_mod: self.perception_mod,
            perception_details: self.perception_details@,
            vision: self.vision,
            senses: views(self.senses@),
            fortitude_mod: self.fortitude_mod,
            reflex_mod: self.reflex_mod,
            will_mod: self.will_mod,
            fortitude_detail: self.fortitude_detail@,
            reflex_detail: self.reflex_detail@,
            will_detail: self.will_detail@,
            rarity: self.rarity,
            size: self.size,
            traits: strings_view(self.traits@),
            weapons: views(self.weapons@),
            armors: views(self.armors@),
            items: views(self.items@),
            actions: views(self.actions@),
            n_of_focus_points: self.n_of_focus_points,
            spellcasting: views(self.spellcasting@),
            spells: views(self.spells@),
            skills: views(self.skills@),
        }
    }
}

#[derive(Debug, Clone, Copy, PartialEq, Eq)]
pub enum BybeCreatureParsingError {
    SourceCreatureError(SourceCreatureParsingError),
}

/// The spells that sit in the entry with the given id, in order.
pub open spec fn spells_at(ss: Seq<SpellView>, id: Seq<char>) -> Seq<SpellView>
    decreases ss.len(),
{
    if ss.len() == 0 {
        Seq::empty()
    } else if ss.last().location_id == id {
        spells_at(ss.drop_last(), id).push(ss.last())
    } else {
        spells_at(ss.drop_last(), id)
    }
}

/// Each spellcasting entry with the spells that sit in it.
pub open spec fn spec_spellcasting(raws: Seq<RawSpellCastingEntryView>, ss: Seq<SpellView>, level: i64) -> Seq<SpellCastingEntryView> {
    raws.map_values(|r: RawSpellCastingEntryView| spec_entry_from(r, spells_at(ss, r.raw_foundry_id), level))
}

/// The rules of all actions, in order.
pub open spec fn rules_of_actions(acts: Seq<ActionView>) -> Seq<RuleView>
    decreases acts.len(),
{
    if acts.len() == 0 {
        Seq::empty()
    } else {
        rules_of_actions(acts.drop_last()) + acts.last().rules
    }
}

impl BybeCreature {
    /// The stored creature of a source creature: its parts copied, the rules
    /// of its actions applied to its immunities, resistances and weaknesses,
    /// its spells sorted into its spellcasting entries, and its rarity and
    /// size read from their names (common and medium where they name none).
    pub open spec fn spec_from(c: SourceCreatureView) -> BybeCreatureView {
        let rules = rules_of_actions(c.items.action_list);
        BybeCreatureView {
            name: c.name,
            creature_type: None,
            charisma: c.abilities.charisma,
            constitution: c.abilities.constitution,
            dexterity: c.abilities.dexterity,
            intelligence: c.abilities.intelligence,
            strength: c.abilities.strength,
            wisdom: c.abilities.wisdom,
            ac: c.attributes.ac,
            hp: c.attributes.hp,
            hp_details: c.attributes.hp_details,
            ac_details: c.attributes.ac_details,
            speed: c.attributes.speed,
            immunities: spec_all_immunities(c.attributes.immunities, rules, c.traits.traits),
            resistances: spec_resistances_with_rules(c.attributes.resistances, rules),
            weaknesses: spec_weaknesses_with_rules(c.attributes.weakness, rules),
            languages_details: c.details.languages_details,
            languages: c.details.languages,
            level: c.details.level,
            license: c.details.publication_info.license,
            remaster: c.details.publication_info.remastered,
            source: c.details.publication_info.source,
            initiative_ability: c.initiative_ability,
            perception_mod: c.perception.perception_modifier,
            perception_details: c.perception.perception_details,
            vision: c.perception.vision,
            senses: c.perception.senses,
            fortitude_mod: c.saves.fortitude,
            reflex_mod: c.saves.reflex,
            will_mod: c.saves.will,
            fortitude_detail: c.saves.fortitude_detail,
            reflex_detail: c.saves.reflex_detail,
            will_detail: c.saves.will_detail,
            rarity: rarity_or_common(c.traits.rarity),
            size: size_or_medium(c.traits.size),
            traits: c.traits.traits,
            weapons: c.items.weapon_list.map_values(|w: SourceWeaponView| plain_weapon(w)),
            armors: c.items.armor_list,
            items: c.items.item_list,
            actions: c.items.action_list,
            n_of_focus_points: c.n_of_focus_points,
            spellcasting: spec_spellcasting(c.items.spellcasting_entry, c.items.spell_list, c.details.level),
            spells: c.items.spell_list,
            skills: c.items.skill_list,
        }
    }
}

fn spells_in_entry(spells: &Vec<Spell>, id: &str) -> (r: Vec<Spell>)
    ensures
        views(r@) == spells_at(views(spells@), id@),
{
    let ghost sv = views(spells@);
    let mut out: Vec<Spell> = Vec::new();
    let mut i: usize = 0;
    assert(views(out@) =~= Seq::<SpellView>::empty());
    assert(sv.subrange(0, 0) =~= Seq::<SpellView>::empty());
    while i < spells.len()
        invariant
            i <= spells@.len(),
            sv == views(spells@),
            views(out@) == spells_at(sv.subrange(0, i as int), id@),
        decreases spells@.len() - i,
    {
        let ghost next = sv.subrange(0, i + 1);
        assert(next.drop_last() =~= sv.subrange(0, i as int));
        assert(next.last() == spells@[i as int]@);
        if str_eq(spells[i].location_id.as_str(), id) {
            let c = spells[i].copy();
            let ghost before = out@;
            out.push(c);
            assert(views(out@) =~= views(before).push(spells@[i as int]@));
        }
        i = i + 1;
    }
    assert(sv.subrange(0, sv.len() as int) =~= sv);
    out
}

/// The stored weapons of weapons read from the source data, without attack effects.
fn plain_weapons(ws: Vec<SourceWeapon>) -> (r: Vec<BybeWeapon>)
    ensures
        views(r@) == views(ws@).map_values(|w: SourceWeaponView| plain_weapon(w)),
{
    let ghost wv = views(ws@);
    let ghost n = ws@.len();
    let mut out: Vec<BybeWeapon> = Vec::new();
    let mut rest = ws;
    assert(wv.subrange(0, n as int) =~= wv);
    while rest.len() > 0
        invariant
            wv.len() == n,
            out@.len() + rest@.len() == n,
            views(rest@) == wv.subrange(out@.len() as int, n as int),
            forall|k: int| 0 <= k < out@.len() ==> #[trigger] out@[k]@ == plain_weapon(wv[k]),
        decreases rest@.len(),
    {
        let ghost before = rest@;
        assert(views(before)[0] == before[0]@);
        assert(views(before)[0] == wv[out@.len() as int]);
        let w = rest.remove(0);
        assert(rest@ =~= before.subrange(1, before.len() as int));
        assert(w@ == wv[out@.len() as int]);
        assert forall|k: int| 0 <= k < rest@.len() implies #[trigger] views(rest@)[k] == wv[out@.len() as int + 1 + k] by {
            assert(rest@[k] == before[k + 1]);
            assert(views(before)[k + 1] == before[k + 1]@);
        }
        assert(views(rest@) =~= wv.subrange(out@.len() as int + 1, n as int));
        out.push(BybeWeapon::from(w));
    }
    assert(views(out@) =~= wv.map_values(|w: SourceWeaponView| plain_weapon(w)));
    out
}

fn rules_of(actions: &Vec<Action>) -> (r: Vec<Rule>)
    ensures
        views(r@) == rules_of_actions(views(actions@)),
{
    let ghost av = views(actions@);
    let mut out: Vec<Rule> = Vec::new();
    let mut i: usize = 0;
    assert(views(out@) =~= Seq::<RuleView>::empty());
    assert(av.subrange(0, 0) =~= Seq::<ActionView>::empty());
    while i < actions.len()
        invariant
            i <= actions@.len(),
            av == views(actions@),
            views(out@) == rules_of_actions(av.subrange(0, i as int)),
        decreases actions@.len() - i,
    {
        let ghost next = av.subrange(0, i + 1);
        assert(next.drop_last() =~= av.subrange(0, i as int));
        assert(next.last() == actions@[i as int]@);
        let rs = &actions[i].rules;
        let mut j: usize = 0;
        let ghost start = views(out@);
        assert(start + views(rs@).subrange(0, 0) =~= start);
        while j < rs.len()
            invariant
                j <= rs@.len(),
                views(out@) == start + views(rs@).subrange(0, j as int),
            decreases rs@.len() - j,
        {
            let ghost before = views(out@);
            out.push(rs[j].copy());
            assert(views(out@) =~= before.push(rs@[j as int]@));
            assert(start + views(rs@).subrange(0, j + 1) =~= (start + views(rs@).subrange(0, j as int)).push(
                rs@[j as int]@,
            ));
            j = j + 1;
        }
        assert(views(rs@).subrange(0, rs@.len() as int) =~= views(rs@));
        i = i + 1;
    }
    assert(av.subrange(0, av.len() as int) =~= av);
    out
}

impl BybeCreature {
    pub fn from(source_cr: SourceCreature) -> (r: BybeCreature)
        requires
            source_cr.wf(),
        ensures
            r.speed.wf(),
            r.weaknesses.wf(),
            r@ == Self::spec_from(source_cr@),
    {
        let ghost cv = source_cr@;
        let level = source_cr.details.level;
        let mut spellcasting: Vec<SpellCastingEntry> = Vec::new();
        let mut i: usize = 0;
        let ghost raws = cv.items.spellcasting_entry;
        while i < source_cr.items.spellcasting_entry.len()
            invariant
                i <= source_cr.items.spellcasting_entry@.len(),
                source_cr.items.wf(),
                cv == source_cr@,
                raws == cv.items.spellcasting_entry,
                level == cv.details.level,
                spellcasting@.len() == i,
                forall|k: int| 0 <= k < i ==> #[trigger] spellcasting@[k]@ == spec_entry_from(
                    raws[k],
                    spells_at(cv.items.spell_list, raws[k].raw_foundry_id),
                    level,
                ),
            decreases source_cr.items.spellcasting_entry@.len() - i,
        {
            let sce = &source_cr.items.spellcasting_entry[i];
            assert(sce.wf());
            let in_entry = spells_in_entry(&source_cr.items.spell_list, sce.raw_foundry_id.as_str());
            spellcasting.push(SpellCastingEntry::from(sce, &in_entry, level));
            i = i + 1;
        }
        assert(views(spellcasting@) =~= spec_spellcasting(raws, cv.items.spell_list, level));
        let weapons = plain_weapons(source_cr.items.weapon_list);
        let rules = rules_of(&source_cr.items.action_list);
        let immunities = get_all_immunities(source_cr.attributes.immunities, &rules, &source_cr.traits.traits);
        let resistances = get_resistances_adding_iwr_rules(source_cr.attributes.resistances, &rules);
        let weaknesses = get_weaknesses_adding_iwr_rules(source_cr.attributes.weakness, &rules);
        let rarity = match RarityEnum::from_str(source_cr.traits.rarity.as_str()) {
            Some(r) => r,
            None => RarityEnum::Common,
        };
        let size = match SizeEnum::from_str(source_cr.traits.size.as_str()) {
            Some(s) => s,
            None => SizeEnum::Medium,
        };
        let r = BybeCreature {
            name: source_cr.name,
            creature_type: None,
            charisma: source_cr.abilities.charisma,
            constitution: source_cr.abilities.constitution,
            dexterity: source_cr.abilities.dexterity,
            intelligence: source_cr.abilities.intelligence,
            strength: source_cr.abilities.strength,
            wisdom: source_cr.abilities.wisdom,
            ac: source_cr.attributes.ac,
            hp: source_cr.attributes.hp_values.hp,
            hp_details: source_cr.attributes.hp_details,
            ac_details: source_cr.attributes.ac_details,
            speed: source_cr.attributes.speed,
            immunities,
            resistances,
            weaknesses,
            languages_details: source_cr.details.languages_details,
            languages: source_cr.details.languages,
            level,
            license: source_cr.details.publication_info.license,
            remaster: source_cr.details.publication_info.remastered,
            source: source_cr.details.publication_info.source,
            initiative_ability: source_cr.initiative_ability,
            perception_mod: source_cr.perception.perception_modifier,
            perception_details: source_cr.perception.perception_details,
            vision: source_cr.perception.vision,
            senses: source_cr.perception.senses,
            fortitude_mod: source_cr.saves.fortitude,
            reflex_mod: source_cr.saves.reflex,
            will_mod: source_cr.saves.will,
            fortitude_detail: source_cr.saves.fortitude_detail,
            reflex_detail: source_cr.saves.reflex_detail,
            will_detail: source_cr.saves.will_detail,
            rarity,
            size,
            traits: source_cr.traits.traits,
            weapons,
            armors: source_cr.items.armor_list,
            items: source_cr.items.item_list,
            actions: source_cr.items.action_list,
            n_of_focus_points: source_cr.resource.n_of_focus_points,
            spellcasting,
            spells: source_cr.items.spell_list,
            skills: source_cr.items.skill_list,
        };
        assert(strings_view(r.traits@) == cv.traits.traits);
        r
    }

    pub open spec fn spec_try_from(j: JsonV) -> Result<BybeCreatureView, BybeCreatureParsingError> {
        match SourceCreature::spec_try_from(j) {
            Err(e) => Err(BybeCreatureParsingError::SourceCreatureError(e)),
            Ok(c) => Ok(Self::spec_from(c)),
        }
    }

    pub fn try_from(json: &Json) -> (r: Result<BybeCreature, BybeCreatureParsingError>)
        requires
            !SourceCreature::stops(json@),
        ensures
            crate::model::result_view(r) == Self::spec_try_from(json@),
    {
        match SourceCreature::try_from(json) {
            Err(e) => Err(BybeCreatureParsingError::SourceCreatureError(e)),
            Ok(c) => Ok(Self::from(c)),
        }
    }
}

impl BybeCreature {
    /// Reads a creature, or gives none where the reading would panic.
    pub fn try_from_checked(json: &Json) -> (r: Option<Result<BybeCreature, BybeCreatureParsingError>>)
        ensures
            r is None <==> SourceCreature::stops(json@),
            match r {
                Some(res) => crate::model::result_view(res) == Self::spec_try_from(json@),
                None => true,
            },
    {
        if SourceCreature::stops_on(json) {
            None
        } else {
            Some(Self::try_from(json))
        }
    }
}

/// Law: a stored creature's saving throws are those of its record: the
/// fortitude, reflex and will modifiers and details are the integer `value`
/// and the string `saveDetail` under `system.saves.fortitude`, `.reflex` and
/// `.will` respectively.
pub proof fn law_creature_saves_from_the_record(j: JsonV)
    ensures
        BybeCreature::spec_try_from(j) matches Ok(c) ==> {
            let saves = j.field("system"@).field("saves"@);
            &&& saves.field("fortitude"@).field("value"@).as_i64() == Some(c.fortitude_mod)
            &&& saves.field("reflex"@).field("value"@).as_i64() == Some(c.reflex_mod)
            &&& saves.field("will"@).field("value"@).as_i64() == Some(c.will_mod)
            &&& saves.field("fortitude"@).field("saveDetail"@).as_str() == Some(c.fortitude_detail)
            &&& saves.field("reflex"@).field("saveDetail"@).as_str() == Some(c.reflex_detail)
            &&& saves.field("will"@).field("saveDetail"@).as_str() == Some(c.will_detail)
        },
{
    let saves = j.field("system"@).field("saves"@);
    if let Ok(sc) = SourceCreature::spec_try_from(j) {
        assert(RawSaves::spec_try_from(saves) == Ok::<RawSavesView, SaveParsingError>(sc.saves));
        crate::schema::source_schema::creature::saves::law_saves_read_from_their_members(saves);
    }
}

/// The modifier that an ability's record gives: its `mod` member, `null`
/// counting as 0.
pub open spec fn ability_mod_in(abilities: JsonV, key: Seq<char>) -> Option<i64> {
    match abilities.field(key).get("mod"@) {
        Some(JsonV::Null) => Some(0),
        Some(JsonV::Int(n)) => Some(n),
        _ => None,
    }
}

/// Law: each ability modifier of a stored creature is read from its own
/// member of `system.abilities`: charisma from `cha`, constitution from `con`,
/// dexterity from `dex`, intelligence from `int`, strength from `str` and
/// wisdom from `wis`.
pub proof fn law_creature_abilities_from_the_record(j: JsonV)
    ensures
        BybeCreature::spec_try_from(j) matches Ok(c) ==> {
            let a = j.field("system"@).field("abilities"@);
            &&& ability_mod_in(a, "cha"@) == Some(c.charisma)
            &&& ability_mod_in(a, "con"@) == Some(c.constitution)
            &&& ability_mod_in(a, "dex"@) == Some(c.dexterity)
            &&& ability_mod_in(a, "int"@) == Some(c.intelligence)
            &&& ability_mod_in(a, "str"@) == Some(c.strength)
            &&& ability_mod_in(a, "wis"@) == Some(c.wisdom)
        },
{
    let a = j.field("system"@).field("abilities"@);
    if let Ok(sc) = SourceCreature::spec_try_from(j) {
        assert(RawAbilities::spec_try_from(a) == Ok::<RawAbilities, AbilityParsingError>(sc.abilities));
    }
}

} // verus!
