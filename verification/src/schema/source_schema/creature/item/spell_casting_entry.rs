//! Spellcasting entries of creatures in the earlier layout of the source data.
use crate::assoc::{distinct_keys, map_of};
use crate::json::{bool_of, field, i64_of, json_view, lemma_members_view, members_view, spec_sub_strings, str_of, strings_view, sub_strings, Json, JsonV};
use crate::model::views;
use crate::schema::source_schema::creature::item::spell::{Spell, SpellView};
use crate::schema::source_schema::creature::item::spellcasting_entry::{
    is_unlisted, lemma_listed_map, listed_map, listed_slots, slot_entries_view, spells_listed, unlisted,
};
use vstd::prelude::*;

verus! {

#[derive(Debug)]
pub struct RawSpellCastingEntry {
    pub raw_foundry_id: String,
    pub name: String,
    pub is_flexible: Option<bool>,
    pub type_of_spell_caster: String,
    pub dc_modifier: Option<i64>,
    pub atk_modifier: Option<i64>,
    pub tradition: String,
    /// The spells prepared in each slot, numbered in the order of the slots.
    pub raw_spell_slots: Vec<(i64, Vec<String>)>,
}

pub struct RawSpellCastingEntryView {
    pub raw_foundry_id: Seq<char>,
    pub name: Seq<char>,
    pub is_flexible: Option<bool>,
    pub type_of_spell_caster: Seq<char>,
    pub dc_modifier: Option<i64>,
    pub atk_modifier: Option<i64>,
    pub tradition: Seq<char>,
    pub raw_spell_slots: Map<i64, Seq<Seq<char>>>,
}

impl RawSpellCastingEntry {
    pub open spec fn wf(&self) -> bool {
        distinct_keys(slot_entries_view(self.raw_spell_slots@))
    }
}

impl View for RawSpellCastingEntry {
    type V = RawSpellCastingEntryView;

    open spec fn view(&self) -> RawSpellCastingEntryView {
        RawSpellCastingEntryView {
            raw_foundry_id: self.raw_foundry_id@,
            name: self.name@,
            is_flexible: self.is_flexible,
            type_of_spell_caster: self.type_of_spell_caster@,
            dc_modifier: self.dc_modifier,
            atk_modifier: self.atk_modifier,
            tradition: self.tradition@,
            raw_spell_slots: map_of(slot_entries_view(self.raw_spell_slots@)),
        }
    }
}

/// The slots numbered in order, each with the `id`s of its `prepared` array.
pub open spec fn numbered_slots(ms: Seq<(Seq<char>, JsonV)>) -> Seq<(i64, Seq<Seq<char>>)> {
    Seq::new(ms.len(), |i: int| (i as i64, spec_sub_strings(ms[i].1, "prepared"@, "id"@)))
}

impl RawSpellCastingEntry {
    /// The record reads without panicking: it has a string `_id`, `name`,
    /// `prepared.value` and `type`, and an object `slots`.
    pub open spec fn reads(j: JsonV) -> bool {
        let system = j.field("system"@);
        &&& j.field("_id"@).as_str() is Some
        &&& j.field("name"@).as_str() is Some
        &&& system.field("prepared"@).field("value"@).as_str() is Some
        &&& system.field("type"@).as_str() is Some
        &&& system.field("slots"@).as_object() is Some
    }

    pub open spec fn spec_init(j: JsonV) -> RawSpellCastingEntryView {
        let system = j.field("system"@);
        let prepared = system.field("prepared"@);
        let dc = system.field("spelldc"@);
        RawSpellCastingEntryView {
            raw_foundry_id: j.field("_id"@).as_str().unwrap(),
            name: j.field("name"@).as_str().unwrap(),
            is_flexible: prepared.field("flexible"@).as_bool(),
            type_of_spell_caster: prepared.field("value"@).as_str().unwrap(),
            dc_modifier: dc.field("dc"@).as_i64(),
            atk_modifier: dc.field("value"@).as_i64(),
            tradition: system.field("type"@).as_str().unwrap(),
            raw_spell_slots: map_of(numbered_slots(system.field("slots"@).as_object().unwrap())),
        }
    }

    pub fn init_from_json(json: &Json) -> (r: RawSpellCastingEntry)
        requires
            Self::reads(json@),
            json@.field("system"@).field("slots"@).as_object().unwrap().len() <= i64::MAX,
        ensures
            r.wf(),
            r@ == Self::spec_init(json@),
    {
        let system = json.get("system");
        let prepared = field(system, "prepared");
        let dc = field(system, "spelldc");
        let raw_foundry_id = str_of(json.get("_id")).unwrap();
        let name = str_of(json.get("name")).unwrap();
        let is_flexible = bool_of(field(prepared, "flexible"));
        let type_of_spell_caster = str_of(field(prepared, "value")).unwrap();
        let dc_modifier = i64_of(field(dc, "dc"));
        let atk_modifier = i64_of(field(dc, "value"));
        let tradition = str_of(field(system, "type")).unwrap();
        let ms = field(system, "slots").unwrap().as_object().unwrap();
        proof {
            lemma_members_view(ms@);
        }
        let ghost mv = members_view(ms@);
        let ghost target = numbered_slots(mv);
        let mut slots: Vec<(i64, Vec<String>)> = Vec::new();
        let mut i: usize = 0;
        while i < ms.len()
            invariant
                i <= ms@.len(),
                mv == members_view(ms@),
                mv.len() == ms@.len(),
                target == numbered_slots(mv),
                forall|k: int| 0 <= k < ms@.len() ==> #[trigger] mv[k] == (ms@[k].0@, json_view(ms@[k].1)),
                slot_entries_view(slots@) == target.subrange(0, i as int),
                ms@.len() <= i64::MAX,
            decreases ms@.len() - i,
        {
            let ids = sub_strings(Some(&ms[i].1), "prepared", "id");
            let ghost before = slot_entries_view(slots@);
            let ghost idv = strings_view(ids@);
            assert(mv[i as int].1 == json_view(ms@[i as int].1));
            assert(target[i as int] == (i as i64, idv));
            slots.push((i as i64, ids));
            assert(slot_entries_view(slots@) =~= before.push((i as i64, idv)));
            assert(target.subrange(0, i + 1) =~= target.subrange(0, i as int).push(target[i as int]));
            i = i + 1;
        }
        assert(target.subrange(0, target.len() as int) =~= target);
        assert(distinct_keys(target)) by {
            assert forall|a: int, b: int| 0 <= a < b < target.len() implies target[a].0 != target[b].0 by {
                assert(target[a].0 == a as i64);
                assert(target[b].0 == b as i64);
            }
        }
        RawSpellCastingEntry {
            raw_foundry_id,
            name,
            is_flexible,
            type_of_spell_caster,
            dc_modifier,
            atk_modifier,
            tradition,
            raw_spell_slots: slots,
        }
    }
}

#[derive(Debug)]
pub struct SpellCastingEntry {
    pub name: String,
    pub is_flexible: Option<bool>,
    pub type_of_spell_caster: String,
    pub dc_modifier: Option<i64>,
    pub atk_modifier: Option<i64>,
    pub tradition: String,
    /// The spells of each slot, with the spells that no slot lists under -1.
    pub spell_slots: Vec<(i64, Vec<Spell>)>,
}

pub struct SpellCastingEntryView {
    pub name: Seq<char>,
    pub is_flexible: Option<bool>,
    pub type_of_spell_caster: Seq<char>,
    pub dc_modifier: Option<i64>,
    pub atk_modifier: Option<i64>,
    pub tradition: Seq<char>,
    pub spell_slots: Map<i64, Seq<SpellView>>,
}

pub open spec fn spell_slot_entries(es: Seq<(i64, Vec<Spell>)>) -> Seq<(i64, Seq<SpellView>)> {
    es.map_values(|e: (i64, Vec<Spell>)| (e.0, views(e.1@)))
}

impl View for SpellCastingEntry {
    type V = SpellCastingEntryView;

    open spec fn view(&self) -> SpellCastingEntryView {
        SpellCastingEntryView {
            name: self.name@,
            is_flexible: self.is_flexible,
            type_of_spell_caster: self.type_of_spell_caster@,
            dc_modifier: self.dc_modifier,
            atk_modifier: self.atk_modifier,
            tradition: self.tradition@,
            spell_slots: map_of(spell_slot_entries(self.spell_slots@)),
        }
    }
}

/// The spells that no slot lists, in order.
pub open spec fn spells_unlisted(ss: Seq<SpellView>, raw: Map<i64, Seq<Seq<char>>>) -> Seq<SpellView>
    decreases ss.len(),
{
    if ss.len() == 0 {
        Seq::empty()
    } else if unlisted(raw, ss.last()) {
        spells_unlisted(ss.drop_last(), raw).push(ss.last())
    } else {
        spells_unlisted(ss.drop_last(), raw)
    }
}

impl SpellCastingEntry {
    /// The entry with its spells: each slot with the spells it lists, and slot
    /// -1 with the spells that no slot lists.
    pub open spec fn spec_from(raw: RawSpellCastingEntryView, ss: Seq<SpellView>) -> SpellCastingEntryView {
        SpellCastingEntryView {
            name: raw.name,
            is_flexible: raw.is_flexible,
            type_of_spell_caster: raw.type_of_spell_caster,
            dc_modifier: raw.dc_modifier,
            atk_modifier: raw.atk_modifier,
            tradition: raw.tradition,
            spell_slots: listed_map(raw.raw_spell_slots, ss).insert(-1i64, spells_unlisted(ss, raw.raw_spell_slots)),
        }
    }

    pub fn from(raw: &RawSpellCastingEntry, spells: &Vec<Spell>) -> (r: SpellCastingEntry)
        requires
            raw.wf(),
        ensures
            r@ == Self::spec_from(raw@, views(spells@)),
    {
        let ghost rv = slot_entries_view(raw.raw_spell_slots@);
        let ghost sv = views(spells@);
        let mut out: Vec<(i64, Vec<Spell>)> = Vec::new();
        let mut i: usize = 0;
        assert(spell_slot_entries(out@) =~= Seq::<(i64, Seq<SpellView>)>::empty());
        assert(rv.subrange(0, 0) =~= Seq::<(i64, Seq<Seq<char>>)>::empty());
        while i < raw.raw_spell_slots.len()
            invariant
                i <= raw.raw_spell_slots@.len(),
                rv == slot_entries_view(raw.raw_spell_slots@),
                sv == views(spells@),
                map_of(spell_slot_entries(out@)) == listed_slots(rv.subrange(0, i as int), sv),
            decreases raw.raw_spell_slots@.len() - i,
        {
            let ghost next = rv.subrange(0, i + 1);
            assert(next.drop_last() =~= rv.subrange(0, i as int));
            assert(next.last() == rv[i as int]);
            let k = raw.raw_spell_slots[i].0;
            let found = spells_listed(spells, &raw.raw_spell_slots[i].1);
            if found.len() > 0 {
                let ghost before = spell_slot_entries(out@);
                let ghost fv = views(found@);
                out.push((k, found));
                assert(spell_slot_entries(out@) =~= before.push((k, fv)));
                assert(spell_slot_entries(out@).drop_last() =~= before);
            }
            i = i + 1;
        }
        assert(rv.subrange(0, rv.len() as int) =~= rv);
        proof {
            lemma_listed_map(rv, sv);
        }
        let ghost rm = map_of(rv);
        let mut unused: Vec<Spell> = Vec::new();
        let mut n: usize = 0;
        assert(views(unused@) =~= Seq::<SpellView>::empty());
        assert(sv.subrange(0, 0) =~= Seq::<SpellView>::empty());
        while n < spells.len()
            invariant
                n <= spells@.len(),
                rv == slot_entries_view(raw.raw_spell_slots@),
                distinct_keys(rv),
                rm == map_of(rv),
                sv == views(spells@),
                views(unused@) == spells_unlisted(sv.subrange(0, n as int), rm),
            decreases spells@.len() - n,
        {
            let ghost next = sv.subrange(0, n + 1);
            assert(next.drop_last() =~= sv.subrange(0, n as int));
            assert(next.last() == spells@[n as int]@);
            if is_unlisted(&raw.raw_spell_slots, spells[n].raw_foundry_id.as_str()) {
                let c = spells[n].copy();
                let ghost before = views(unused@);
                unused.push(c);
                assert(views(unused@) =~= before.push(spells@[n as int]@));
            }
            n = n + 1;
        }
        assert(sv.subrange(0, sv.len() as int) =~= sv);
        let ghost before = spell_slot_entries(out@);
        let ghost uv = views(unused@);
        out.push((-1, unused));
        assert(spell_slot_entries(out@) =~= before.push((-1i64, uv)));
        assert(spell_slot_entries(out@).drop_last() =~= before);
        SpellCastingEntry {
            name: raw.name.clone(),
            is_flexible: raw.is_flexible,
            type_of_spell_caster: raw.type_of_spell_caster.clone(),
            dc_modifier: raw.dc_modifier,
            atk_modifier: raw.atk_modifier,
            tradition: raw.tradition.clone(),
            spell_slots: out,
        }
    }
}

} // verus!
