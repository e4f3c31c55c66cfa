//! Hazards as they are stored.
use crate::assoc::StrIntMap;
use crate::json::{strings_view, Json, JsonV};
use crate::model::{opt_view, views};
use crate::schema::bybe_item::{effect_actions, rarity_or_common, size_or_medium, BybeWeapon, BybeWeaponView, SourceWeapon, SourceWeaponView};
use crate::schema::bybe_metadata_enum::{RarityEnum, SizeEnum};
use crate::schema::publication_info::{PublicationInfo, PublicationInfoView};
use crate::schema::source_schema::common::description::Description;
use crate::schema::source_schema::common::resistance::{Resistance, ResistanceView};
use crate::schema::source_schema::common::saves::{RawSaves, RawSavesView};
use crate::schema::source_schema::creature::item::action::{Action, ActionView};
use crate::schema::source_schema::hazard::source_hazard::{SourceHazard, SourceHazardParsingError, SourceHazardView};
use vstd::prelude::*;

verus! {

#[derive(Debug)]
pub struct BybeHazard {
    pub name: String,
    pub foundry_id: String,
    pub ac_value: Option<i64>,
    pub hardness: i64,
    pub has_health: bool,
    pub hp: Option<i64>,
    pub hp_details: Option<String>,
    pub stealth: i64,
    pub stealth_detail: Description,
    pub immunities: Vec<String>,
    pub resistances: Vec<Resistance>,
    pub weaknesses: StrIntMap,
    pub description: Description,
    pub disable_description: Description,
    pub reset_description: Description,
    pub routine_description: Description,
    pub is_complex: bool,
    pub level: i64,
    pub publication_info: PublicationInfo,
    pub saves: RawSaves,
    pub weapons: Vec<BybeWeapon>,
    pub actions: Vec<Action>,
    pub rarity: RarityEnum,
    pub size: SizeEnum,
    pub traits: Vec<String>,
}

pub struct BybeHazardView {
    pub name: Seq<char>,
    pub foundry_id: Seq<char>,
    pub ac_value: Option<i64>,
    pub hardness: i64,
    pub has_health: bool,
    pub hp: Option<i64>,
    pub hp_details: Option<Seq<char>>,
    pub stealth: i64,
    pub stealth_detail: Seq<char>,
    pub immunities: Seq<Seq<char>>,
    pub resistances: Seq<ResistanceView>,
    pub weaknesses: Map<Seq<char>, i64>,
    pub description: Seq<char>,
    pub disable_description: Seq<char>,
    pub reset_description: Seq<char>,
    pub routine_description: Seq<char>,
    pub is_complex: bool,
    pub level: i64,
    pub publication_info: PublicationInfoView,
    pub saves: RawSavesView,
    pub weapons: Seq<BybeWeaponView>,
    pub actions: Seq<ActionView>,
    pub rarity: RarityEnum,
    pub size: SizeEnum,
    pub traits: Seq<Seq<char>>,
}

impl View for BybeHazard {
    type V = BybeHazardView;

    open spec fn view(&self) -> BybeHazardView {
        BybeHazardView {
            name: self.name@,
            foundry_id: self.foundry_id@,
            ac_value: self.ac_value,
            hardness: self.hardness,
            has_health: self.has_health,
            hp: self.hp,
            hp_details: opt_view(self.hp_details),
            stealth: self.stealth,
            stealth_detail: self.stealth_detail@,
            immunities: strings_view(self.immunities@),
            resistances: views(self.resistances@),
            weaknesses: self.weaknesses@,
            description: self.description@,
            disable_description: self.disable_description@,
            reset_description: self.reset_description@,
            routine_description: self.routine_description@,
            is_complex: self.is_complex,
            level: self.level,
            publication_info: self.publication_info@,
            saves: self.saves@,
            weapons: views(self.weapons@),
            actions: views(self.actions@),
            rarity: self.rarity,
            size: self.size,
            traits: strings_view(self.traits@),
        }
    }
}

#[derive(Debug, Clone, Copy, PartialEq, Eq)]
pub enum BybeHazardParsingError {
    SourceHazardError(SourceHazardParsingError),
}

/// A weapon with the hazard's actions for its attack effects.
pub open spec fn weapon_with_effects(w: SourceWeaponView, acts: Seq<ActionView>) -> BybeWeaponView {
    BybeWeaponView {
        item_core: w.item_core,
        to_hit_bonus: w.to_hit_bonus,
        damage_data: w.damage_data,
        splash_dmg: w.splash_dmg,
        n_of_potency_runes: w.n_of_potency_runes,
        n_of_striking_runes: w.n_of_striking_runes,
        property_runes: w.property_runes,
        range: w.range,
        reload: w.reload,
        weapon_type: w.weapon_type,
        attack_effects: effect_actions(acts, w.attack_effects),
    }
}

/// Hit points without the text that details them stop the conversion.
pub open spec fn hp_without_details(h: SourceHazardView) -> bool {
    h.attributes.hp_values is Some && h.attributes.hp_values.unwrap().hp_details is None
}

impl BybeHazard {
    /// The stored hazard of a source hazard: its parts copied, its weapons with
    /// its actions for their attack effects, and its rarity and size read from
    /// their names (common and medium where they name none).
    pub open spec fn spec_from(h: SourceHazardView) -> BybeHazardView {
        BybeHazardView {
            name: h.name,
            foundry_id: h.foundry_id,
            ac_value: h.attributes.ac,
            hardness: h.attributes.hardness,
            has_health: h.attributes.has_health,
            hp: match h.attributes.hp_values {
                Some(v) => Some(v.hp),
                None => None,
            },
            hp_details: match h.attributes.hp_values {
                Some(v) => v.hp_details,
                None => None,
            },
            stealth: h.attributes.stealth,
            stealth_detail: h.attributes.stealth_detail,
            immunities: h.attributes.immunities,
            resistances: h.attributes.resistances,
            weaknesses: h.attributes.weakness,
            description: h.description,
            disable_description: h.disable_description,
            reset_description: h.reset_description,
            routine_description: h.routine_description,
            is_complex: h.is_complex,
            level: h.level,
            publication_info: h.publication_info,
            saves: h.saves,
            weapons: h.items.weapon_list.map_values(|w: SourceWeaponView| weapon_with_effects(w, h.items.action_list)),
            actions: h.items.action_list,
            rarity: rarity_or_common(h.traits.rarity),
            size: size_or_medium(h.traits.size),
            traits: h.traits.traits,
        }
    }

    pub fn from(source_hz: SourceHazard) -> (r: BybeHazard)
        requires
            source_hz.wf(),
            !hp_without_details(source_hz@),
        ensures
            r.weaknesses.wf(),
            r@ == Self::spec_from(source_hz@),
    {
        let ghost hv = source_hz@;
        let ghost acts = hv.items.action_list;
        let ghost wv = hv.items.weapon_list;
        let ghost n = wv.len();
        let mut weapons: Vec<BybeWeapon> = Vec::new();
        let mut rest = source_hz.items.weapon_list;
        assert(wv.subrange(0, n as int) =~= wv);
        while rest.len() > 0
            invariant
                wv.len() == n,
                acts == views(source_hz.items.action_list@),
                weapons@.len() + rest@.len() == n,
                views(rest@) == wv.subrange(weapons@.len() as int, n as int),
                forall|k: int| 0 <= k < weapons@.len() ==> #[trigger] weapons@[k]@ == weapon_with_effects(wv[k], acts),
            decreases rest@.len(),
        {
            let ghost before = rest@;
            assert(views(before)[0] == before[0]@);
            assert(views(before)[0] == wv[weapons@.len() as int]);
            let w = rest.remove(0);
            assert(rest@ =~= before.subrange(1, before.len() as int));
            assert forall|k: int| 0 <= k < rest@.len() implies #[trigger] views(rest@)[k] == wv[weapons@.len() as int + 1 + k] by {
                assert(rest@[k] == before[k + 1]);
                assert(views(before)[k + 1] == before[k + 1]@);
            }
            assert(views(rest@) =~= wv.subrange(weapons@.len() as int + 1, n as int));
            weapons.push(BybeWeapon::new(w, &source_hz.items.action_list));
        }
        assert(views(weapons@) =~= wv.map_values(|w: SourceWeaponView| weapon_with_effects(w, acts)));
        let (hp, hp_details) = match source_hz.attributes.hp_values {
            Some(v) => (Some(v.hp), v.hp_details),
            None => (None, None),
        };
        let rarity = match RarityEnum::from_str(source_hz.traits.rarity.as_str()) {
            Some(r) => r,
            None => RarityEnum::Common,
        };
        let size = match SizeEnum::from_str(source_hz.traits.size.as_str()) {
            Some(s) => s,
            None => SizeEnum::Medium,
        };
        let r = BybeHazard {
            name: source_hz.name,
            foundry_id: source_hz.foundry_id,
            ac_value: source_hz.attributes.ac,
            hardness: source_hz.attributes.hardness,
            has_health: source_hz.attributes.has_health,
            hp,
            hp_details,
            stealth: source_hz.attributes.stealth,
            stealth_detail: source_hz.attributes.stealth_detail,
            immunities: source_hz.attributes.immunities,
            resistances: source_hz.attributes.resistances,
            weaknesses: source_hz.attributes.weakness,
            description: source_hz.description,
            disable_description: source_hz.disable_description,
            reset_description: source_hz.reset_description,
            routine_description: source_hz.routine_description,
            is_complex: source_hz.is_complex,
            level: source_hz.level,
            publication_info: source_hz.publication_info,
            saves: source_hz.saves,
            weapons,
            actions: source_hz.items.action_list,
            rarity,
            size,
            traits: source_hz.traits.traits,
        };
        assert(strings_view(r.traits@) == hv.traits.traits);
        r
    }

    /// Reading panics in the source hazard, or where its hit points come
    /// without the text that details them.
    pub open spec fn stops(j: JsonV) -> bool {
        SourceHazard::stops(j) || (SourceHazard::spec_try_from(j) matches Ok(h) && hp_without_details(h))
    }

    pub open spec fn spec_try_from(j: JsonV) -> Result<BybeHazardView, BybeHazardParsingError> {
        match SourceHazard::spec_try_from(j) {
            Err(e) => Err(BybeHazardParsingError::SourceHazardError(e)),
            Ok(h) => Ok(Self::spec_from(h)),
        }
    }

    /// Reads a hazard where reading does not panic; `None` where it would.
    pub fn try_from_checked(json: &Json) -> (r: Option<Result<BybeHazard, BybeHazardParsingError>>)
        ensures
            r is None <==> Self::stops(json@),
            match r {
                Some(res) => crate::model::result_view(res) == Self::spec_try_from(json@),
                None => true,
            },
    {
        if SourceHazard::stops_on(json) {
            return None;
        }
        match SourceHazard::try_from(json) {
            Err(e) => Some(Err(BybeHazardParsingError::SourceHazardError(e))),
            Ok(h) => {
                let undetailed = match &h.attributes.hp_values {
                    Some(v) => v.hp_details.is_none(),
                    None => false,
                };
                if undetailed {
                    None
                } else {
                    Some(Ok(Self::from(h)))
                }
            },
        }
    }

    pub fn try_from(json: &Json) -> (r: Result<BybeHazard, BybeHazardParsingError>)
        requires
            !Self::stops(json@),
        ensures
            crate::model::result_view(r) == Self::spec_try_from(json@),
    {
        match SourceHazard::try_from(json) {
            Err(e) => Err(BybeHazardParsingError::SourceHazardError(e)),
            Ok(h) => Ok(Self::from(h)),
        }
    }
}

/// Law: a stored hazard is complex exactly when its record's
/// `system.details.isComplex` is `true` (a record that reads without
/// panicking holds a boolean there); its level, armour class, hardness and
/// stealth are the integers at `system.details.level.value`,
/// `system.attributes.ac.value`, `system.attributes.hardness` and
/// `system.attributes.stealth.value` (0 where level, hardness or stealth has
/// none).
pub proof fn law_hazard_complex_from_the_record(j: JsonV)
    ensures
        !BybeHazard::stops(j) ==> (BybeHazard::spec_try_from(j) matches Ok(h) ==> {
            let details = j.field("system"@).field("details"@);
            let attributes = j.field("system"@).field("attributes"@);
            &&& details.field("isComplex"@).as_bool() == Some(h.is_complex)
            &&& h.level == (match details.field("level"@).field("value"@) {
                JsonV::Int(n) => n,
                _ => 0,
            })
            &&& h.ac_value == (match attributes.field("ac"@).field("value"@) {
                JsonV::Int(n) => Some(n),
                _ => None,
            })
            &&& h.hardness == (match attributes.field("hardness"@) {
                JsonV::Int(n) => n,
                _ => 0,
            })
            &&& h.stealth == (match attributes.field("stealth"@).field("value"@) {
                JsonV::Int(n) => n,
                _ => 0,
            })
        }),
{
}

} // verus!
