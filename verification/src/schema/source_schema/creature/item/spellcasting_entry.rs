//! Spellcasting entries of creatures, and the spells each one can cast.
use crate::assoc::{distinct_keys, lemma_map_of_dom, lemma_map_of_entry, lemma_map_of_update, map_of};
use crate::json::{bool_of, field, i64_of, lemma_members_view, members_view, json_view, spec_sub_strings, str_of, strings_view, sub_strings, Json, JsonV};
use crate::schema::source_schema::creature::item::spell::{Spell, SpellView};
use crate::text::{parse_i64, rest_after_bytes, spec_parse_i64, split_off_bytes, str_eq};
use crate::model::views;
use vstd::prelude::*;

verus! {

#[derive(Debug)]
pub struct RawSpellCastingEntry {
    pub raw_foundry_id: String,
    pub name: String,
    pub is_flexible: Option<bool>,
    pub type_of_spellcaster: String,
    pub dc_modifier: i64,
    pub atk_modifier: i64,
    pub tradition: String,
    /// The spells prepared in each slot, at most one entry per slot.
    pub raw_spell_slots: Vec<(i64, Vec<String>)>,
    pub heighten_level: Option<i64>,
}

pub struct RawSpellCastingEntryView {
    pub raw_foundry_id: Seq<char>,
    pub name: Seq<char>,
    pub is_flexible: Option<bool>,
    pub type_of_spellcaster: Seq<char>,
    pub dc_modifier: i64,
    pub atk_modifier: i64,
    pub tradition: Seq<char>,
    pub raw_spell_slots: Map<i64, Seq<Seq<char>>>,
    pub heighten_level: Option<i64>,
}

pub open spec fn slot_entries_view(es: Seq<(i64, Vec<String>)>) -> Seq<(i64, Seq<Seq<char>>)> {
    es.map_values(|e: (i64, Vec<String>)| (e.0, strings_view(e.1@)))
}

impl RawSpellCastingEntry {
    pub open spec fn slots_view(&self) -> Seq<(i64, Seq<Seq<char>>)> {
        slot_entries_view(self.raw_spell_slots@)
    }

    /// No slot has two entries.
    pub open spec fn wf(&self) -> bool {
        distinct_keys(self.slots_view())
    }
}

impl View for RawSpellCastingEntry {
    type V = RawSpellCastingEntryView;

    open spec fn view(&self) -> RawSpellCastingEntryView {
        RawSpellCastingEntryView {
            raw_foundry_id: self.raw_foundry_id@,
            name: self.name@,
            is_flexible: self.is_flexible,
            type_of_spellcaster: self.type_of_spellcaster@,
            dc_modifier: self.dc_modifier,
            atk_modifier: self.atk_modifier,
            tradition: self.tradition@,
            raw_spell_slots: map_of(self.slots_view()),
            heighten_level: self.heighten_level,
        }
    }
}

#[derive(Debug, Clone, Copy, PartialEq, Eq)]
pub enum RawSpellCastingParsingError {
    FoundryID,
    Name,
    Type,
    DcModifier,
    AtkModifier,
    Tradition,
    SpellSlot,
}

/// The number of a slot key such as `slot3`: the text after its first four
/// bytes, read as an integer.
pub open spec fn slot_number(k: Seq<char>) -> Option<i64> {
    match rest_after_bytes(k, 4) {
        Some(rest) => spec_parse_i64(rest),
        None => None,
    }
}

/// Every slot key has a number (elsewhere the reading panics).
pub open spec fn slot_keys_ok(ms: Seq<(Seq<char>, JsonV)>) -> bool {
    forall|i: int| 0 <= i < ms.len() ==> #[trigger] slot_number(ms[i].0) is Some
}

/// The slots of the members of `slots`: each number with the `id`s of its
/// `prepared` array, a later member replacing an earlier one with the same number.
pub open spec fn spec_slot_entries(ms: Seq<(Seq<char>, JsonV)>) -> Seq<(i64, Seq<Seq<char>>)> {
    ms.map_values(|m: (Seq<char>, JsonV)| (slot_number(m.0).unwrap(), spec_sub_strings(m.1, "prepared"@, "id"@)))
}

/// Sets the spells of a slot, replacing those it had.
fn set_slot(es: &mut Vec<(i64, Vec<String>)>, k: i64, v: Vec<String>)
    requires
        distinct_keys(slot_entries_view(old(es)@)),
    ensures
        distinct_keys(slot_entries_view(final(es)@)),
        map_of(slot_entries_view(final(es)@)) == map_of(slot_entries_view(old(es)@)).insert(k, strings_view(v@)),
{
    let ghost ev = slot_entries_view(es@);
    let mut i: usize = 0;
    while i < es.len()
        invariant
            i <= es@.len(),
            ev == slot_entries_view(es@),
            ev == slot_entries_view(old(es)@),
            distinct_keys(ev),
            forall|j: int| 0 <= j < i ==> ev[j].0 != k,
        decreases es@.len() - i,
    {
        if es[i].0 == k {
            let ghost vv = strings_view(v@);
            assert(ev[i as int].0 == k);
            proof {
                lemma_map_of_update(ev, i as int, vv);
            }
            es.set(i, (k, v));
            assert(slot_entries_view(es@) =~= ev.update(i as int, (k, vv)));
            return;
        }
        i = i + 1;
    }
    let ghost vv = strings_view(v@);
    es.push((k, v));
    assert(slot_entries_view(es@) =~= ev.push((k, vv)));
    assert(slot_entries_view(es@).drop_last() =~= ev);
}

fn slots_of(ms: &Vec<(String, Json)>) -> (r: Vec<(i64, Vec<String>)>)
    requires
        slot_keys_ok(members_view(ms@)),
    ensures
        distinct_keys(slot_entries_view(r@)),
        map_of(slot_entries_view(r@)) == map_of(spec_slot_entries(members_view(ms@))),
{
    proof {
        lemma_members_view(ms@);
    }
    let ghost mv = members_view(ms@);
    let ghost target = spec_slot_entries(mv);
    let mut out: Vec<(i64, Vec<String>)> = Vec::new();
    let mut i: usize = 0;
    assert(slot_entries_view(out@) =~= Seq::<(i64, Seq<Seq<char>>)>::empty());
    assert(target.subrange(0, 0) =~= Seq::<(i64, Seq<Seq<char>>)>::empty());
    while i < ms.len()
        invariant
            i <= ms@.len(),
            mv == members_view(ms@),
            target == spec_slot_entries(mv),
            mv.len() == ms@.len(),
            forall|k: int| 0 <= k < ms@.len() ==> #[trigger] mv[k] == (ms@[k].0@, json_view(ms@[k].1)),
            slot_keys_ok(mv),
            distinct_keys(slot_entries_view(out@)),
            map_of(slot_entries_view(out@)) == map_of(target.subrange(0, i as int)),
        decreases ms@.len() - i,
    {
        assert(slot_number(mv[i as int].0) is Some);
        let key = &ms[i].0;
        let n = match split_off_bytes(key.as_str(), 4) {
            Some(rest) => match parse_i64(rest.as_str()) {
                Some(n) => n,
                None => {
                    assert(false);
                    0
                },
            },
            None => {
                assert(false);
                0
            },
        };
        let ids = sub_strings(Some(&ms[i].1), "prepared", "id");
        let ghost next = target.subrange(0, i + 1);
        assert(next.drop_last() =~= target.subrange(0, i as int));
        assert(next.last() == (n, strings_view(ids@)));
        set_slot(&mut out, n, ids);
        i = i + 1;
    }
    assert(target.subrange(0, target.len() as int) =~= target);
    out
}

fn slot_keys_ok_exec(ms: &Vec<(String, Json)>) -> (r: bool)
    ensures
        r == slot_keys_ok(members_view(ms@)),
{
    proof {
        lemma_members_view(ms@);
    }
    let ghost mv = members_view(ms@);
    let mut i: usize = 0;
    while i < ms.len()
        invariant
            i <= ms@.len(),
            mv == members_view(ms@),
            mv.len() == ms@.len(),
            forall|k: int| 0 <= k < ms@.len() ==> #[trigger] mv[k] == (ms@[k].0@, json_view(ms@[k].1)),
            forall|k: int| 0 <= k < i ==> #[trigger] slot_number(mv[k].0) is Some,
        decreases ms@.len() - i,
    {
        let ok = match split_off_bytes(ms[i].0.as_str(), 4) {
            Some(rest) => parse_i64(rest.as_str()).is_some(),
            None => false,
        };
        if !ok {
            assert(slot_number(mv[i as int].0) is None);
            return false;
        }
        i = i + 1;
    }
    true
}

impl RawSpellCastingEntry {
    /// Whether reading the entry would panic.
    pub fn stops_on(json: &Json) -> (r: bool)
        ensures
            r == Self::stops(json@),
    {
        proof {
            reveal(RawSpellCastingEntry::stops);
        }
        let system = json.get("system");
        let prepared = field(system, "prepared");
        let dc = field(system, "spelldc");
        if str_of(json.get("_id")).is_none() || str_of(json.get("name")).is_none() || str_of(
            field(prepared, "value"),
        ).is_none() || i64_of(field(dc, "dc")).is_none() || i64_of(field(dc, "value")).is_none() || str_of(
            field(system, "type"),
        ).is_none() {
            return false;
        }
        match field(system, "slots") {
            Some(sl) => match sl.as_object() {
                Some(ms) => !slot_keys_ok_exec(ms),
                None => false,
            },
            None => false,
        }
    }

    /// Reading stops on a slot key without a number.
    #[verifier::opaque]
    pub open spec fn stops(j: JsonV) -> bool {
        let system = j.field("system"@);
        let prepared = system.field("prepared"@);
        let dc = system.field("spelldc"@);
        &&& j.field("_id"@).as_str() is Some
        &&& j.field("name"@).as_str() is Some
        &&& prepared.field("value"@).as_str() is Some
        &&& dc.field("dc"@).as_i64() is Some
        &&& dc.field("value"@).as_i64() is Some
        &&& system.field("type"@).as_str() is Some
        &&& match system.field("slots"@).as_object() {
            Some(ms) => !slot_keys_ok(ms),
            None => false,
        }
    }

    pub open spec fn spec_try_from(j: JsonV) -> Result<RawSpellCastingEntryView, RawSpellCastingParsingError> {
        let system = j.field("system"@);
        let prepared = system.field("prepared"@);
        let dc = system.field("spelldc"@);
        match j.field("_id"@).as_str() {
            None => Err(RawSpellCastingParsingError::FoundryID),
            Some(raw_foundry_id) => match j.field("name"@).as_str() {
                None => Err(RawSpellCastingParsingError::Name),
                Some(name) => match prepared.field("value"@).as_str() {
                    None => Err(RawSpellCastingParsingError::Type),
                    Some(type_of_spellcaster) => match dc.field("dc"@).as_i64() {
                        None => Err(RawSpellCastingParsingError::DcModifier),
                        Some(dc_modifier) => match dc.field("value"@).as_i64() {
                            None => Err(RawSpellCastingParsingError::AtkModifier),
                            Some(atk_modifier) => match system.field("type"@).as_str() {
                                None => Err(RawSpellCastingParsingError::Tradition),
                                Some(tradition) => match system.field("slots"@).as_object() {
                                    None => Err(RawSpellCastingParsingError::SpellSlot),
                                    Some(ms) => Ok(
                                        RawSpellCastingEntryView {
                                            raw_foundry_id,
                                            name,
                                            is_flexible: prepared.field("flexible"@).as_bool(),
                                            type_of_spellcaster,
                                            dc_modifier,
                                            atk_modifier,
                                            tradition,
                                            raw_spell_slots: map_of(spec_slot_entries(ms)),
                                            heighten_level: system.field("autoHeightenLevel"@).field("value"@).as_i64(),
                                        },
                                    ),
                                },
                            },
                        },
                    },
                },
            },
        }
    }

    pub fn try_from(json: &Json) -> (r: Result<RawSpellCastingEntry, RawSpellCastingParsingError>)
        requires
            !Self::stops(json@),
        ensures
            match r {
                Ok(e) => e.wf() && Self::spec_try_from(json@) == Ok::<RawSpellCastingEntryView, RawSpellCastingParsingError>(e@),
                Err(err) => Self::spec_try_from(json@) == Err::<RawSpellCastingEntryView, RawSpellCastingParsingError>(err),
            },
    {
        proof {
            reveal(RawSpellCastingEntry::stops);
        }
        let system = json.get("system");
        let prepared = field(system, "prepared");
        let dc = field(system, "spelldc");
        let raw_foundry_id = match str_of(json.get("_id")) {
            Some(s) => s,
            None => return Err(RawSpellCastingParsingError::FoundryID),
        };
        let name = match str_of(json.get("name")) {
            Some(s) => s,
            None => return Err(RawSpellCastingParsingError::Name),
        };
        let is_flexible = bool_of(field(prepared, "flexible"));
        let heighten_level = i64_of(field(field(system, "autoHeightenLevel"), "value"));
        let type_of_spellcaster = match str_of(field(prepared, "value")) {
            Some(s) => s,
            None => return Err(RawSpellCastingParsingError::Type),
        };
        let dc_modifier = match i64_of(field(dc, "dc")) {
            Some(v) => v,
            None => return Err(RawSpellCastingParsingError::DcModifier),
        };
        let atk_modifier = match i64_of(field(dc, "value")) {
            Some(v) => v,
            None => return Err(RawSpellCastingParsingError::AtkModifier),
        };
        let tradition = match str_of(field(system, "type")) {
            Some(s) => s,
            None => return Err(RawSpellCastingParsingError::Tradition),
        };
        let raw_spell_slots = match field(system, "slots") {
            Some(s) => match s.as_object() {
                Some(ms) => slots_of(ms),
                None => return Err(RawSpellCastingParsingError::SpellSlot),
            },
            None => return Err(RawSpellCastingParsingError::SpellSlot),
        };
        Ok(
            RawSpellCastingEntry {
                raw_foundry_id,
                name,
                is_flexible,
                type_of_spellcaster,
                dc_modifier,
                atk_modifier,
                tradition,
                raw_spell_slots,
                heighten_level,
            },
        )
    }
}

#[derive(Debug)]
pub struct SpellCastingEntry {
    pub name: String,
    pub is_flexible: Option<bool>,
    pub type_of_spellcaster: String,
    pub dc_modifier: i64,
    pub atk_modifier: i64,
    pub tradition: String,
    /// The spells of each slot, at most one entry per slot.
    pub spell_slots: Vec<(i64, Vec<Spell>)>,
    pub heighten_level: i64,
}

pub struct SpellCastingEntryView {
    pub name: Seq<char>,
    pub is_flexible: Option<bool>,
    pub type_of_spellcaster: Seq<char>,
    pub dc_modifier: i64,
    pub atk_modifier: i64,
    pub tradition: Seq<char>,
    pub spell_slots: Map<i64, Seq<SpellView>>,
    pub heighten_level: i64,
}

pub open spec fn spell_entries_view(es: Seq<(i64, Vec<Spell>)>) -> Seq<(i64, Seq<SpellView>)> {
    es.map_values(|e: (i64, Vec<Spell>)| (e.0, views(e.1@)))
}

impl SpellCastingEntry {
    pub open spec fn slots_view(&self) -> Seq<(i64, Seq<SpellView>)> {
        spell_entries_view(self.spell_slots@)
    }

    /// No slot has two entries.
    pub open spec fn wf(&self) -> bool {
        distinct_keys(self.slots_view())
    }
}

impl View for SpellCastingEntry {
    type V = SpellCastingEntryView;

    open spec fn view(&self) -> SpellCastingEntryView {
        SpellCastingEntryView {
            name: self.name@,
            is_flexible: self.is_flexible,
            type_of_spellcaster: self.type_of_spellcaster@,
            dc_modifier: self.dc_modifier,
            atk_modifier: self.atk_modifier,
            tradition: self.tradition@,
            spell_slots: map_of(self.slots_view()),
            heighten_level: self.heighten_level,
        }
    }
}

/// The spells whose id is among `ids`, in order.
pub open spec fn spells_with_ids(ss: Seq<SpellView>, ids: Seq<Seq<char>>) -> Seq<SpellView>
    decreases ss.len(),
{
    if ss.len() == 0 {
        Seq::empty()
    } else {
        let rest = spells_with_ids(ss.drop_last(), ids);
        if ids.contains(ss.last().raw_foundry_id) {
            rest.push(ss.last())
        } else {
            rest
        }
    }
}

/// The slots that list some of the spells, each with those spells.
pub open spec fn listed_slots(raw: Seq<(i64, Seq<Seq<char>>)>, ss: Seq<SpellView>) -> Map<i64, Seq<SpellView>>
    decreases raw.len(),
{
    if raw.len() == 0 {
        Map::empty()
    } else {
        let m = listed_slots(raw.drop_last(), ss);
        let found = spells_with_ids(ss, raw.last().1);
        if found.len() > 0 {
            m.insert(raw.last().0, found)
        } else {
            m
        }
    }
}

/// No slot lists the id.
pub open spec fn id_unlisted(raw: Map<i64, Seq<Seq<char>>>, id: Seq<char>) -> bool {
    forall|k: i64| #[trigger] raw.contains_key(k) ==> !raw[k].contains(id)
}

/// No slot lists the spell.
pub open spec fn unlisted(raw: Map<i64, Seq<Seq<char>>>, s: SpellView) -> bool {
    id_unlisted(raw, s.raw_foundry_id)
}

/// The slots that list some of the spells, each with those spells, in order.
pub open spec fn listed_map(raw: Map<i64, Seq<Seq<char>>>, ss: Seq<SpellView>) -> Map<i64, Seq<SpellView>> {
    Map::new(
        |k: i64| raw.contains_key(k) && spells_with_ids(ss, raw[k]).len() > 0,
        |k: i64| spells_with_ids(ss, raw[k]),
    )
}

pub proof fn lemma_listed_map(es: Seq<(i64, Seq<Seq<char>>)>, ss: Seq<SpellView>)
    requires
        distinct_keys(es),
    ensures
        listed_slots(es, ss) == listed_map(map_of(es), ss),
    decreases es.len(),
{
    if es.len() == 0 {
        assert(listed_map(map_of(es), ss) =~= Map::<i64, Seq<SpellView>>::empty());
    } else {
        let d = es.drop_last();
        assert(distinct_keys(d));
        lemma_listed_map(d, ss);
        let k = es.last().0;
        lemma_map_of_dom(d, k);
        assert(!map_of(d).contains_key(k)) by {
            if map_of(d).contains_key(k) {
                let i = choose|i: int| 0 <= i < d.len() && d[i].0 == k;
                assert(es[i].0 == es[es.len() - 1].0);
            }
        }
        let found = spells_with_ids(ss, es.last().1);
        if found.len() > 0 {
            assert(listed_map(map_of(es), ss) =~= listed_map(map_of(d), ss).insert(k, found));
        } else {
            assert(listed_map(map_of(es), ss) =~= listed_map(map_of(d), ss));
        }
    }
}

/// The slot of a spell that no slot lists: 0 for a cantrip, else its
/// heightened level, else its level.
pub open spec fn own_slot(s: SpellView) -> i64 {
    if s.traits.traits.contains("cantrip"@) {
        0
    } else {
        match s.heightened_level {
            Some(x) => x,
            None => s.level,
        }
    }
}

pub open spec fn spells_or_empty(m: Map<i64, Seq<SpellView>>, k: i64) -> Seq<SpellView> {
    if m.contains_key(k) {
        m[k]
    } else {
        Seq::empty()
    }
}

/// Adds each spell that no slot lists to the end of its own slot, in order.
pub open spec fn place_unlisted(
    base: Map<i64, Seq<SpellView>>,
    raw: Map<i64, Seq<Seq<char>>>,
    ss: Seq<SpellView>,
) -> Map<i64, Seq<SpellView>>
    decreases ss.len(),
{
    if ss.len() == 0 {
        base
    } else {
        let m = place_unlisted(base, raw, ss.drop_last());
        let s = ss.last();
        if unlisted(raw, s) {
            m.insert(own_slot(s), spells_or_empty(m, own_slot(s)).push(s))
        } else {
            m
        }
    }
}

/// The spells of each slot: those the slot lists, then those that no slot
/// lists and that belong to it by their level.
pub open spec fn spec_spell_slots(raw: Map<i64, Seq<Seq<char>>>, ss: Seq<SpellView>) -> Map<i64, Seq<SpellView>> {
    place_unlisted(listed_map(raw, ss), raw, ss)
}

/// Half a level, rounded up, and at most 10.
pub open spec fn spec_default_heighten(level: i64) -> int {
    let half = if level >= 0 { (level + 1) / 2 } else { -((-level) / 2) };
    if half < 10 {
        half
    } else {
        10
    }
}

pub fn copy_spells(v: &Vec<Spell>) -> (r: Vec<Spell>)
    ensures
        views(r@) == views(v@),
{
    let mut r: Vec<Spell> = Vec::new();
    let mut i: usize = 0;
    while i < v.len()
        invariant
            i <= v@.len(),
            r@.len() == i,
            forall|k: int| 0 <= k < i ==> #[trigger] r@[k]@ == v@[k]@,
        decreases v@.len() - i,
    {
        r.push(v[i].copy());
        i = i + 1;
    }
    assert(views(r@) =~= views(v@));
    r
}

fn contains_string(v: &Vec<String>, s: &str) -> (r: bool)
    ensures
        r == strings_view(v@).contains(s@),
{
    let mut i: usize = 0;
    while i < v.len()
        invariant
            i <= v@.len(),
            forall|k: int| 0 <= k < i ==> v@[k]@ != s@,
        decreases v@.len() - i,
    {
        if str_eq(v[i].as_str(), s) {
            assert(strings_view(v@)[i as int] == s@);
            return true;
        }
        i = i + 1;
    }
    proof {
        if strings_view(v@).contains(s@) {
            let k = choose|k: int| 0 <= k < strings_view(v@).len() && strings_view(v@)[k] == s@;
            assert(v@[k]@ == s@);
        }
    }
    false
}

pub fn spells_listed(spells: &Vec<Spell>, ids: &Vec<String>) -> (r: Vec<Spell>)
    ensures
        views(r@) == spells_with_ids(views(spells@), strings_view(ids@)),
{
    let ghost sv = views(spells@);
    let mut r: Vec<Spell> = Vec::new();
    let mut i: usize = 0;
    assert(views(r@) =~= Seq::<SpellView>::empty());
    assert(sv.subrange(0, 0) =~= Seq::<SpellView>::empty());
    while i < spells.len()
        invariant
            i <= spells@.len(),
            sv == views(spells@),
            views(r@) == spells_with_ids(sv.subrange(0, i as int), strings_view(ids@)),
        decreases spells@.len() - i,
    {
        let ghost next = sv.subrange(0, i + 1);
        assert(next.drop_last() =~= sv.subrange(0, i as int));
        assert(next.last() == spells@[i as int]@);
        if contains_string(ids, spells[i].raw_foundry_id.as_str()) {
            let c = spells[i].copy();
            let ghost before = r@;
            r.push(c);
            assert(views(r@) =~= views(before).push(spells@[i as int]@));
        }
        i = i + 1;
    }
    assert(sv.subrange(0, sv.len() as int) =~= sv);
    r
}

/// Adds a spell at the end of a slot, making the slot where there is none.
fn append_to_slot(es: &mut Vec<(i64, Vec<Spell>)>, k: i64, s: Spell)
    requires
        distinct_keys(spell_entries_view(old(es)@)),
    ensures
        distinct_keys(spell_entries_view(final(es)@)),
        map_of(spell_entries_view(final(es)@)) == map_of(spell_entries_view(old(es)@)).insert(
            k,
            spells_or_empty(map_of(spell_entries_view(old(es)@)), k).push(s@),
        ),
{
    let ghost ev = spell_entries_view(es@);
    let ghost sv = s@;
    let mut i: usize = 0;
    while i < es.len()
        invariant
            i <= es@.len(),
            ev == spell_entries_view(es@),
            ev == spell_entries_view(old(es)@),
            distinct_keys(ev),
            sv == s@,
            forall|j: int| 0 <= j < i ==> ev[j].0 != k,
        decreases es@.len() - i,
    {
        if es[i].0 == k {
            let mut list = copy_spells(&es[i].1);
            list.push(s);
            let ghost lv = views(list@);
            assert(lv =~= ev[i as int].1.push(sv));
            proof {
                lemma_map_of_entry(ev, i as int);
                lemma_map_of_update(ev, i as int, lv);
            }
            es.set(i, (k, list));
            assert(spell_entries_view(es@) =~= ev.update(i as int, (k, lv)));
            return;
        }
        i = i + 1;
    }
    proof {
        lemma_map_of_dom(ev, k);
    }
    let mut list: Vec<Spell> = Vec::new();
    list.push(s);
    let ghost lv = views(list@);
    assert(lv =~= Seq::<SpellView>::empty().push(sv));
    es.push((k, list));
    assert(spell_entries_view(es@) =~= ev.push((k, lv)));
    assert(spell_entries_view(es@).drop_last() =~= ev);
}

pub fn is_unlisted(raw: &Vec<(i64, Vec<String>)>, id: &str) -> (r: bool)
    requires
        distinct_keys(slot_entries_view(raw@)),
    ensures
        r == id_unlisted(map_of(slot_entries_view(raw@)), id@),
{
    let ghost rv = slot_entries_view(raw@);
    let mut i: usize = 0;
    while i < raw.len()
        invariant
            i <= raw@.len(),
            rv == slot_entries_view(raw@),
            distinct_keys(rv),
            forall|j: int| 0 <= j < i ==> !(#[trigger] rv[j].1).contains(id@),
        decreases raw@.len() - i,
    {
        if contains_string(&raw[i].1, id) {
            assert(rv[i as int].1.contains(id@));
            proof {
                lemma_map_of_entry(rv, i as int);
            }
            return false;
        }
        i = i + 1;
    }
    proof {
        assert forall|k: i64| #[trigger] map_of(rv).contains_key(k) implies !map_of(rv)[k].contains(id@) by {
            lemma_map_of_dom(rv, k);
            let j = choose|j: int| 0 <= j < rv.len() && rv[j].0 == k;
            lemma_map_of_entry(rv, j);
        }
    }
    true
}

/// The entry with its spells (see `SpellCastingEntry::from`).
pub open spec fn spec_entry_from(raw: RawSpellCastingEntryView, ss: Seq<SpellView>, cr_lvl: i64) -> SpellCastingEntryView {
    SpellCastingEntryView {
        name: raw.name,
        is_flexible: raw.is_flexible,
        type_of_spellcaster: raw.type_of_spellcaster,
        dc_modifier: raw.dc_modifier,
        atk_modifier: raw.atk_modifier,
        tradition: raw.tradition,
        spell_slots: spec_spell_slots(raw.raw_spell_slots, ss),
        heighten_level: match raw.heighten_level {
            Some(h) => h,
            None => spec_default_heighten(cr_lvl) as i64,
        },
    }
}

/// Half a level, rounded up, and at most 10.
fn default_heighten(level: i64) -> (r: i64)
    ensures
        r == spec_default_heighten(level),
{
    let half: i64 = if level >= 0 {
        let u = level as u64;
        (u / 2 + u % 2) as i64
    } else {
        let u: u64 = if level == i64::MIN {
            9223372036854775808u64
        } else {
            (-level) as u64
        };
        assert(u == -(level as int));
        -((u / 2) as i64)
    };
    if half < 10 {
        half
    } else {
        10
    }
}

impl SpellCastingEntry {
    /// The entry with its spells: each slot holds the spells it lists, and each
    /// spell that no slot lists goes to the slot of its level (0 for cantrips).
    /// Without a level to heighten to, the entry heightens to half the
    /// creature's level, rounded up, at most 10.
    pub fn from(raw: &RawSpellCastingEntry, spells: &Vec<Spell>, cr_lvl: i64) -> (r: SpellCastingEntry)
        requires
            raw.wf(),
        ensures
            r.wf(),
            r@ == spec_entry_from(raw@, views(spells@), cr_lvl),
    {
        let ghost rv = raw.slots_view();
        let ghost sv = views(spells@);
        let mut out: Vec<(i64, Vec<Spell>)> = Vec::new();
        let mut i: usize = 0;
        assert(spell_entries_view(out@) =~= Seq::<(i64, Seq<SpellView>)>::empty());
        assert(rv.subrange(0, 0) =~= Seq::<(i64, Seq<Seq<char>>)>::empty());
        while i < raw.raw_spell_slots.len()
            invariant
                i <= raw.raw_spell_slots@.len(),
                rv == raw.slots_view(),
                sv == views(spells@),
                distinct_keys(rv),
                distinct_keys(spell_entries_view(out@)),
                forall|j: int|
                    0 <= j < spell_entries_view(out@).len() ==> exists|m: int|
                        0 <= m < i && #[trigger] spell_entries_view(out@)[j].0 == rv[m].0,
                map_of(spell_entries_view(out@)) == listed_slots(rv.subrange(0, i as int), sv),
            decreases raw.raw_spell_slots@.len() - i,
        {
            let k = raw.raw_spell_slots[i].0;
            let found = spells_listed(spells, &raw.raw_spell_slots[i].1);
            let ghost next = rv.subrange(0, i + 1);
            assert(next.drop_last() =~= rv.subrange(0, i as int));
            assert(next.last() == rv[i as int]);
            assert(rv[i as int] == (k, strings_view(raw.raw_spell_slots@[i as int].1@)));
            if found.len() > 0 {
                let ghost ov = spell_entries_view(out@);
                let ghost fv = views(found@);
                proof {
                    assert forall|j: int| 0 <= j < ov.len() implies ov[j].0 != k by {
                        let m = choose|m: int| 0 <= m < i && ov[j].0 == rv[m].0;
                        assert(rv[m].0 != rv[i as int].0);
                    }
                }
                out.push((k, found));
                assert(spell_entries_view(out@) =~= ov.push((k, fv)));
                assert(spell_entries_view(out@).drop_last() =~= ov);
                proof {
                    assert forall|j: int| 0 <= j < spell_entries_view(out@).len() implies exists|m: int|
                        0 <= m < i + 1 && #[trigger] spell_entries_view(out@)[j].0 == rv[m].0 by {
                        if j < ov.len() {
                            let m = choose|m: int| 0 <= m < i && ov[j].0 == rv[m].0;
                            assert(spell_entries_view(out@)[j].0 == rv[m].0);
                        } else {
                            assert(spell_entries_view(out@)[j].0 == rv[i as int].0);
                        }
                    }
                }
            }
            i = i + 1;
        }
        assert(rv.subrange(0, rv.len() as int) =~= rv);
        proof {
            lemma_listed_map(rv, sv);
        }
        let ghost rm = map_of(rv);
        let ghost base = listed_map(rm, sv);
        let mut n: usize = 0;
        assert(sv.subrange(0, 0) =~= Seq::<SpellView>::empty());
        while n < spells.len()
            invariant
                n <= spells@.len(),
                rv == raw.slots_view(),
                sv == views(spells@),
                rm == map_of(rv),
                distinct_keys(rv),
                base == listed_map(rm, sv),
                distinct_keys(spell_entries_view(out@)),
                map_of(spell_entries_view(out@)) == place_unlisted(base, rm, sv.subrange(0, n as int)),
            decreases spells@.len() - n,
        {
            let ghost next = sv.subrange(0, n + 1);
            assert(next.drop_last() =~= sv.subrange(0, n as int));
            assert(next.last() == spells@[n as int]@);
            let s = &spells[n];
            if is_unlisted(&raw.raw_spell_slots, s.raw_foundry_id.as_str()) {
                let slot: i64 = if contains_string(&s.traits.traits, "cantrip") {
                    0
                } else {
                    match s.heightened_level {
                        Some(x) => x,
                        None => s.level,
                    }
                };
                append_to_slot(&mut out, slot, s.copy());
            }
            n = n + 1;
        }
        assert(sv.subrange(0, sv.len() as int) =~= sv);
        let heighten_level = match raw.heighten_level {
            Some(h) => h,
            None => default_heighten(cr_lvl),
        };
        SpellCastingEntry {
            name: raw.name.clone(),
            is_flexible: raw.is_flexible,
            type_of_spellcaster: raw.type_of_spellcaster.clone(),
            dc_modifier: raw.dc_modifier,
            atk_modifier: raw.atk_modifier,
            tradition: raw.tradition.clone(),
            spell_slots: out,
            heighten_level,
        }
    }
}

/// A spell picked by id has an id from the list.
proof fn lemma_spells_with_ids_listed(ss: Seq<SpellView>, ids: Seq<Seq<char>>, x: SpellView)
    ensures
        spells_with_ids(ss, ids).contains(x) ==> ids.contains(x.raw_foundry_id),
    decreases ss.len(),
{
    if ss.len() > 0 {
        lemma_spells_with_ids_listed(ss.drop_last(), ids, x);
        let rest = spells_with_ids(ss.drop_last(), ids);
        if spells_with_ids(ss, ids).contains(x) && ids.contains(ss.last().raw_foundry_id) {
            let i = choose|i: int| 0 <= i < rest.push(ss.last()).len() && rest.push(ss.last())[i] == x;
            if i < rest.len() {
                assert(rest[i] == x);
            }
        }
    }
}

/// A spell that no slot lists is placed in its own slot.
proof fn lemma_placed_in_own_slot(base: Map<i64, Seq<SpellView>>, raw: Map<i64, Seq<Seq<char>>>, ss: Seq<SpellView>, i: int)
    requires
        0 <= i < ss.len(),
        unlisted(raw, ss[i]),
    ensures
        place_unlisted(base, raw, ss).contains_key(own_slot(ss[i])),
        place_unlisted(base, raw, ss)[own_slot(ss[i])].contains(ss[i]),
    decreases ss.len(),
{
    let m = place_unlisted(base, raw, ss.drop_last());
    let s = ss.last();
    let h = own_slot(ss[i]);
    if i == ss.len() - 1 {
        let v = spells_or_empty(m, own_slot(s)).push(s);
        assert(v[v.len() - 1] == s);
    } else {
        assert(ss.drop_last()[i] == ss[i]);
        lemma_placed_in_own_slot(base, raw, ss.drop_last(), i);
        if unlisted(raw, s) && own_slot(s) == h {
            let v = m[h].push(s);
            let j = choose|j: int| 0 <= j < m[h].len() && m[h][j] == ss[i];
            assert(v[j] == ss[i]);
        }
    }
}

/// A spell in a slot after placing was already there, or was placed there
/// because no slot lists it and the slot is its own.
proof fn lemma_placed_only_in_own_slot(
    base: Map<i64, Seq<SpellView>>,
    raw: Map<i64, Seq<Seq<char>>>,
    ss: Seq<SpellView>,
    k: i64,
    x: SpellView,
)
    requires
        place_unlisted(base, raw, ss).contains_key(k),
        place_unlisted(base, raw, ss)[k].contains(x),
    ensures
        (base.contains_key(k) && base[k].contains(x)) || (k == own_slot(x) && unlisted(raw, x)),
    decreases ss.len(),
{
    if ss.len() > 0 {
        let m = place_unlisted(base, raw, ss.drop_last());
        let s = ss.last();
        if unlisted(raw, s) && own_slot(s) == k {
            let v = spells_or_empty(m, k).push(s);
            let j = choose|j: int| 0 <= j < v.len() && v[j] == x;
            if j < v.len() - 1 {
                assert(spells_or_empty(m, k)[j] == x);
                assert(m.contains_key(k));
                lemma_placed_only_in_own_slot(base, raw, ss.drop_last(), k, x);
            }
        } else {
            lemma_placed_only_in_own_slot(base, raw, ss.drop_last(), k, x);
        }
    }
}

/// Law: a spell that no slot of its entry lists and that is no cantrip goes
/// to the slot of its heightened level where it has one, else to the slot of
/// its level; a cantrip goes to slot 0; and it goes to no other slot.
pub proof fn law_unlisted_spell_slot(raw: RawSpellCastingEntryView, ss: Seq<SpellView>, cr_lvl: i64, i: int)
    requires
        0 <= i < ss.len(),
        forall|k: i64| #[trigger] raw.raw_spell_slots.contains_key(k) ==> !raw.raw_spell_slots[k].contains(ss[i].raw_foundry_id),
    ensures
        ({
            let slots = spec_entry_from(raw, ss, cr_lvl).spell_slots;
            let slot = if ss[i].traits.traits.contains("cantrip"@) {
                0
            } else {
                match ss[i].heightened_level {
                    Some(h) => h,
                    None => ss[i].level,
                }
            };
            &&& slots.contains_key(slot)
            &&& slots[slot].contains(ss[i])
            &&& forall|k: i64| #[trigger] slots.contains_key(k) && k != slot ==> !slots[k].contains(ss[i])
        }),
{
    let rm = raw.raw_spell_slots;
    let base = listed_map(rm, ss);
    let slots = spec_entry_from(raw, ss, cr_lvl).spell_slots;
    assert(unlisted(rm, ss[i]));
    lemma_placed_in_own_slot(base, rm, ss, i);
    assert forall|k: i64| #[trigger] slots.contains_key(k) && k != own_slot(ss[i]) implies !slots[k].contains(ss[i]) by {
        if slots[k].contains(ss[i]) {
            lemma_placed_only_in_own_slot(base, rm, ss, k, ss[i]);
            lemma_spells_with_ids_listed(ss, rm[k], ss[i]);
        }
    }
}

} // verus!
