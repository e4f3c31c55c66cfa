//! The items listed in a creature's record, sorted by kind.
use crate::json::{items_view, json_view, lemma_items_view, Json, JsonV};
use crate::model::views;
use crate::schema::bybe_item::{
    lower_type, price_overflows, BybeArmor, BybeArmorView, BybeItem, BybeItemView, BybeWeapon, BybeWeaponView, SourceWeapon,
    SourceWeaponView,
};
use crate::schema::source_schema::creature::item::action::{Action, ActionView};
use crate::schema::source_schema::creature::item::skill::{Skill, SkillView};
use crate::schema::source_schema::creature::item::spell::{Spell, SpellParsingError, SpellView};
use crate::schema::source_schema::creature::item::spellcasting_entry::{RawSpellCastingEntry, RawSpellCastingEntryView};
use crate::text::str_eq;
use vstd::prelude::*;

verus! {

#[derive(Debug)]
pub struct ItemLinkedToCreature {
    pub spell_list: Vec<Spell>,
    pub weapon_list: Vec<SourceWeapon>,
    pub armor_list: Vec<BybeArmor>,
    pub item_list: Vec<BybeItem>,
    pub action_list: Vec<Action>,
    pub spellcasting_entry: Vec<RawSpellCastingEntry>,
    pub skill_list: Vec<Skill>,
}

pub struct ItemLinkedToCreatureView {
    pub spell_list: Seq<SpellView>,
    pub weapon_list: Seq<SourceWeaponView>,
    pub armor_list: Seq<BybeArmorView>,
    pub item_list: Seq<BybeItemView>,
    pub action_list: Seq<ActionView>,
    pub spellcasting_entry: Seq<RawSpellCastingEntryView>,
    pub skill_list: Seq<SkillView>,
}

impl View for ItemLinkedToCreature {
    type V = ItemLinkedToCreatureView;

    open spec fn view(&self) -> ItemLinkedToCreatureView {
        ItemLinkedToCreatureView {
            spell_list: views(self.spell_list@),
            weapon_list: views(self.weapon_list@),
            armor_list: views(self.armor_list@),
            item_list: views(self.item_list@),
            action_list: views(self.action_list@),
            spellcasting_entry: views(self.spellcasting_entry@),
            skill_list: views(self.skill_list@),
        }
    }
}

impl ItemLinkedToCreature {
    /// Each spellcasting entry has at most one entry per slot.
    pub open spec fn wf(&self) -> bool {
        forall|i: int| 0 <= i < self.spellcasting_entry@.len() ==> (#[trigger] self.spellcasting_entry@[i]).wf()
    }
}

#[derive(Debug, Clone, Copy, PartialEq, Eq)]
pub enum CreatureItemParsingError {
    JsonIsNotAVector,
    MissingItemType,
    MissingSystemField,
    SpellError(SpellParsingError),
}

/// The stored weapon of a weapon read from the source data: no attack effects.
pub open spec fn plain_weapon(w: SourceWeaponView) -> BybeWeaponView {
    BybeWeaponView {
        item_core: w.item_core,
        to_hit_bonus: w.to_hit_bonus,
        damage_data: w.damage_data,
        splash_dmg: w.splash_dmg,
        n_of_potency_runes: w.n_of_potency_runes,
        n_of_striking_runes: w.n_of_striking_runes,
        property_runes: w.property_runes,
        range: w.range,
        reload: w.reload,
        weapon_type: w.weapon_type,
        attack_effects: Seq::empty(),
    }
}

pub open spec fn empty_items() -> ItemLinkedToCreatureView {
    ItemLinkedToCreatureView {
        spell_list: Seq::empty(),
        weapon_list: Seq::empty(),
        armor_list: Seq::empty(),
        item_list: Seq::empty(),
        action_list: Seq::empty(),
        spellcasting_entry: Seq::empty(),
        skill_list: Seq::empty(),
    }
}

/// Sorts one element into the lists: each kind goes to its list where it
/// parses and is left out where it does not; spells only where they are no
/// rituals; kinds of no list are left out. An element without a type, or a
/// spell without `system`, is an error.
pub open spec fn add_item(acc: ItemLinkedToCreatureView, el: JsonV) -> Result<ItemLinkedToCreatureView, CreatureItemParsingError> {
    match lower_type(el) {
        None => Err(CreatureItemParsingError::MissingItemType),
        Some(t) => if t == "spellcastingentry"@ {
            match RawSpellCastingEntry::spec_try_from(el) {
                Ok(se) => Ok(ItemLinkedToCreatureView { spellcasting_entry: acc.spellcasting_entry.push(se), ..acc }),
                Err(_) => Ok(acc),
            }
        } else if t == "spell"@ {
            match el.get("system"@) {
                None => Err(CreatureItemParsingError::MissingSystemField),
                Some(system) => if system.get("ritual"@) is None {
                    match Spell::spec_try_from(el) {
                        Ok(sp) => Ok(ItemLinkedToCreatureView { spell_list: acc.spell_list.push(sp), ..acc }),
                        Err(_) => Ok(acc),
                    }
                } else {
                    Ok(acc)
                },
            }
        } else if t == "melee"@ || t == "weapon"@ {
            match SourceWeapon::spec_try_from(el, true) {
                Ok(w) => Ok(ItemLinkedToCreatureView { weapon_list: acc.weapon_list.push(w), ..acc }),
                Err(_) => Ok(acc),
            }
        } else if t == "armor"@ {
            match BybeArmor::spec_try_from(el, true) {
                Ok(a) => Ok(ItemLinkedToCreatureView { armor_list: acc.armor_list.push(a), ..acc }),
                Err(_) => Ok(acc),
            }
        } else if t == "action"@ {
            match Action::spec_try_from(el) {
                Ok(a) => Ok(ItemLinkedToCreatureView { action_list: acc.action_list.push(a), ..acc }),
                Err(_) => Ok(acc),
            }
        } else if t == "lore"@ {
            match Skill::spec_try_from(el) {
                Ok(sk) => Ok(ItemLinkedToCreatureView { skill_list: acc.skill_list.push(sk), ..acc }),
                Err(_) => Ok(acc),
            }
        } else if t == "consumable"@ || t == "equipment"@ {
            match BybeItem::spec_try_from(el, true) {
                Ok(it) => Ok(ItemLinkedToCreatureView { item_list: acc.item_list.push(it), ..acc }),
                Err(_) => Ok(acc),
            }
        } else {
            Ok(acc)
        }
    }
}

/// The elements sorted in turn; the first error ends the reading.
pub open spec fn spec_items(els: Seq<JsonV>) -> Result<ItemLinkedToCreatureView, CreatureItemParsingError>
    decreases els.len(),
{
    if els.len() == 0 {
        Ok(empty_items())
    } else {
        match spec_items(els.drop_last()) {
            Err(e) => Err(e),
            Ok(acc) => add_item(acc, els.last()),
        }
    }
}

/// Reading the element panics (see the `stops` of each kind).
pub open spec fn item_stops(el: JsonV) -> bool {
    match lower_type(el) {
        None => false,
        Some(t) => if t == "spellcastingentry"@ {
            RawSpellCastingEntry::stops(el)
        } else if t == "melee"@ || t == "weapon"@ {
            SourceWeapon::stops(el)
        } else if t == "armor"@ || t == "consumable"@ || t == "equipment"@ {
            price_overflows(el)
        } else {
            false
        },
    }
}

proof fn lemma_items_err_prefix(els: Seq<JsonV>, n: int)
    requires
        0 <= n <= els.len(),
        spec_items(els.subrange(0, n)) is Err,
    ensures
        spec_items(els) == spec_items(els.subrange(0, n)),
    decreases els.len(),
{
    if n < els.len() {
        assert(els.drop_last().subrange(0, n) =~= els.subrange(0, n));
        lemma_items_err_prefix(els.drop_last(), n);
    } else {
        assert(els.subrange(0, n) =~= els);
    }
}

/// Sorts one element into the lists.
fn add_element(out: &mut ItemLinkedToCreature, el: &Json) -> (r: Result<(), CreatureItemParsingError>)
    requires
        old(out).wf(),
        !item_stops(el@),
    ensures
        final(out).wf(),
        match r {
        Ok(()) => add_item(old(out)@, el@) == Ok::<ItemLinkedToCreatureView, CreatureItemParsingError>(final(out)@),
        Err(e) => add_item(old(out)@, el@) == Err::<ItemLinkedToCreatureView, CreatureItemParsingError>(e),
    },
{
    let t = match crate::json::str_of(el.get("type")) {
        Some(t) => crate::text::to_ascii_lowercase(t.as_str()),
        None => return Err(CreatureItemParsingError::MissingItemType),
    };
    let ts = t.as_str();
    if str_eq(ts, "spellcastingentry") {
        match RawSpellCastingEntry::try_from(el) {
            Ok(se) => {
                let ghost sv = se@;
                let ghost before = out.spellcasting_entry@;
                out.spellcasting_entry.push(se);
                assert(views(out.spellcasting_entry@) =~= views(before).push(sv));
            },
            Err(_) => {},
        }
    } else if str_eq(ts, "spell") {
        match el.get("system") {
            None => return Err(CreatureItemParsingError::MissingSystemField),
            Some(system) => {
                if system.get("ritual").is_none() {
                    match Spell::try_from(el) {
                        Ok(sp) => {
                            let ghost sv = sp@;
                            let ghost before = out.spell_list@;
                            out.spell_list.push(sp);
                            assert(views(out.spell_list@) =~= views(before).push(sv));
                        },
                        Err(_) => {},
                    }
                }
            },
        }
    } else if str_eq(ts, "melee") || str_eq(ts, "weapon") {
        match SourceWeapon::try_from(el, true) {
            Ok(w) => {
                let ghost wv = w@;
                let ghost before = out.weapon_list@;
                out.weapon_list.push(w);
                assert(views(out.weapon_list@) =~= views(before).push(wv));
            },
            Err(_) => {},
        }
    } else if str_eq(ts, "armor") {
        match BybeArmor::try_from(el, true) {
            Ok(a) => {
                let ghost av = a@;
                let ghost before = out.armor_list@;
                out.armor_list.push(a);
                assert(views(out.armor_list@) =~= views(before).push(av));
            },
            Err(_) => {},
        }
    } else if str_eq(ts, "action") {
        match Action::try_from(el) {
            Ok(a) => {
                let ghost av = a@;
                let ghost before = out.action_list@;
                out.action_list.push(a);
                assert(views(out.action_list@) =~= views(before).push(av));
            },
            Err(_) => {},
        }
    } else if str_eq(ts, "lore") {
        match Skill::try_from(el) {
            Ok(sk) => {
                let ghost sv = sk@;
                let ghost before = out.skill_list@;
                out.skill_list.push(sk);
                assert(views(out.skill_list@) =~= views(before).push(sv));
            },
            Err(_) => {},
        }
    } else if str_eq(ts, "consumable") || str_eq(ts, "equipment") {
        match BybeItem::try_from(el, true) {
            Ok(it) => {
                let ghost iv = it@;
                let ghost before = out.item_list@;
                out.item_list.push(it);
                assert(views(out.item_list@) =~= views(before).push(iv));
            },
            Err(_) => {},
        }
    }
    Ok(())
}

/// Whether reading the element would panic.
fn item_stops_on(el: &Json) -> (r: bool)
    ensures
        r == item_stops(el@),
{
    let t = match crate::json::str_of(el.get("type")) {
        Some(t) => crate::text::to_ascii_lowercase(t.as_str()),
        None => return false,
    };
    let ts = t.as_str();
    assert(lower_type(el@) == Some(t@));
    if str_eq(ts, "spellcastingentry") {
        RawSpellCastingEntry::stops_on(el)
    } else if str_eq(ts, "melee") || str_eq(ts, "weapon") {
        SourceWeapon::stops_on(el)
    } else if str_eq(ts, "armor") || str_eq(ts, "consumable") || str_eq(ts, "equipment") {
        crate::schema::bybe_item::price_overflows_exec(el)
    } else {
        false
    }
}

impl ItemLinkedToCreature {
    /// Whether reading the items would panic.
    pub fn stops_on(json: &Json) -> (r: bool)
        ensures
            r == Self::stops(json@),
    {
        let els = match json.as_array() {
            Some(v) => v,
            None => return false,
        };
        proof {
            lemma_items_view(els@);
        }
        let ghost ev = items_view(els@);
        let mut out = ItemLinkedToCreature {
            spell_list: Vec::new(),
            weapon_list: Vec::new(),
            armor_list: Vec::new(),
            item_list: Vec::new(),
            action_list: Vec::new(),
            spellcasting_entry: Vec::new(),
            skill_list: Vec::new(),
        };
        assert(out@ == empty_items()) by {
            assert(views(out.spell_list@) =~= Seq::<SpellView>::empty());
            assert(views(out.weapon_list@) =~= Seq::<SourceWeaponView>::empty());
            assert(views(out.armor_list@) =~= Seq::<BybeArmorView>::empty());
            assert(views(out.item_list@) =~= Seq::<BybeItemView>::empty());
            assert(views(out.action_list@) =~= Seq::<ActionView>::empty());
            assert(views(out.spellcasting_entry@) =~= Seq::<RawSpellCastingEntryView>::empty());
            assert(views(out.skill_list@) =~= Seq::<SkillView>::empty());
        }
        assert(ev.subrange(0, 0) =~= Seq::<JsonV>::empty());
        let mut i: usize = 0;
        while i < els.len()
            invariant
                i <= els@.len(),
                ev == items_view(els@),
                json@.as_array() == Some(ev),
                ev.len() == els@.len(),
                forall|k: int| 0 <= k < els@.len() ==> #[trigger] ev[k] == json_view(els@[k]),
                out.wf(),
                spec_items(ev.subrange(0, i as int)) == Ok::<ItemLinkedToCreatureView, CreatureItemParsingError>(out@),
                forall|k: int| 0 <= k < i ==> !item_stops(#[trigger] ev[k]),
            decreases els@.len() - i,
        {
            let ghost pre = ev.subrange(0, i as int);
            let ghost next = ev.subrange(0, i + 1);
            assert(next.drop_last() =~= pre);
            assert(next.last() == json_view(els@[i as int]));
            if item_stops_on(&els[i]) {
                assert(spec_items(ev.subrange(0, i as int)) is Ok && item_stops(ev[i as int]));
                return true;
            }
            match add_element(&mut out, &els[i]) {
                Ok(()) => {},
                Err(e) => {
                    proof {
                        assert forall|k: int|
                            0 <= k < ev.len() && item_stops(#[trigger] ev[k]) implies !(spec_items(ev.subrange(0, k)) is Ok) by {
                            if k > i {
                                assert(ev.subrange(0, k).subrange(0, i + 1) =~= next);
                                lemma_items_err_prefix(ev.subrange(0, k), i + 1);
                            }
                        }
                    }
                    return false;
                },
            }
            i = i + 1;
        }
        false
    }

    /// Reading stops on an element that panics, where no error came before it.
    pub open spec fn stops(j: JsonV) -> bool {
        match j.as_array() {
            Some(els) => exists|k: int|
                0 <= k < els.len() && spec_items(els.subrange(0, k)) is Ok && item_stops(#[trigger] els[k]),
            None => false,
        }
    }

    pub open spec fn spec_try_from(j: JsonV) -> Result<ItemLinkedToCreatureView, CreatureItemParsingError> {
        match j.as_array() {
            None => Err(CreatureItemParsingError::JsonIsNotAVector),
            Some(els) => spec_items(els),
        }
    }

    #[verifier::rlimit(40)]
    pub fn try_from(json: &Json) -> (r: Result<ItemLinkedToCreature, CreatureItemParsingError>)
        requires
            !Self::stops(json@),
        ensures
            match r {
                Ok(items) => items.wf() && Self::spec_try_from(json@) == Ok::<ItemLinkedToCreatureView, CreatureItemParsingError>(items@),
                Err(e) => Self::spec_try_from(json@) == Err::<ItemLinkedToCreatureView, CreatureItemParsingError>(e),
            },
    {
        let els = match json.as_array() {
            Some(v) => v,
            None => return Err(CreatureItemParsingError::JsonIsNotAVector),
        };
        proof {
            lemma_items_view(els@);
        }
        let ghost ev = items_view(els@);
        let mut out = ItemLinkedToCreature {
            spell_list: Vec::new(),
            weapon_list: Vec::new(),
            armor_list: Vec::new(),
            item_list: Vec::new(),
            action_list: Vec::new(),
            spellcasting_entry: Vec::new(),
            skill_list: Vec::new(),
        };
        assert(out@ == empty_items()) by {
            assert(views(out.spell_list@) =~= Seq::<SpellView>::empty());
            assert(views(out.weapon_list@) =~= Seq::<SourceWeaponView>::empty());
            assert(views(out.armor_list@) =~= Seq::<BybeArmorView>::empty());
            assert(views(out.item_list@) =~= Seq::<BybeItemView>::empty());
            assert(views(out.action_list@) =~= Seq::<ActionView>::empty());
            assert(views(out.spellcasting_entry@) =~= Seq::<RawSpellCastingEntryView>::empty());
            assert(views(out.skill_list@) =~= Seq::<SkillView>::empty());
        }
        assert(ev.subrange(0, 0) =~= Seq::<JsonV>::empty());
        let mut i: usize = 0;
        while i < els.len()
            invariant
                i <= els@.len(),
                ev == items_view(els@),
                json@.as_array() == Some(ev),
                ev.len() == els@.len(),
                forall|k: int| 0 <= k < els@.len() ==> #[trigger] ev[k] == json_view(els@[k]),
                !Self::stops(json@),
                out.wf(),
                spec_items(ev.subrange(0, i as int)) == Ok::<ItemLinkedToCreatureView, CreatureItemParsingError>(out@),
            decreases els@.len() - i,
        {
            let ghost pre = ev.subrange(0, i as int);
            let ghost next = ev.subrange(0, i + 1);
            assert(next.drop_last() =~= pre);
            assert(next.last() == json_view(els@[i as int]));
            let ghost acc = out@;
            assert(!item_stops(ev[i as int]));
            match add_element(&mut out, &els[i]) {
                Ok(()) => {},
                Err(e) => {
                    proof {
                        lemma_items_err_prefix(ev, i + 1);
                    }
                    return Err(e);
                },
            }
            assert(spec_items(next) == add_item(acc, ev[i as int]));
            i = i + 1;
        }
        assert(ev.subrange(0, ev.len() as int) =~= ev);
        Ok(out)
    }
}

} // verus!
