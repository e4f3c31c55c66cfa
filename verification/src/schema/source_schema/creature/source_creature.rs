//! Creatures as the source data writes them.
use crate::json::{field, str_of, Json, JsonV};
use crate::schema::source_schema::creature::abilities::{AbilityParsingError, RawAbilities};
use crate::schema::source_schema::creature::attributes::{AttributeParsingError, RawAttributes, RawAttributesView};
use crate::schema::source_schema::creature::details::{DetailsParsingError, RawDetails, RawDetailsView};
use crate::schema::source_schema::creature::item::items::{CreatureItemParsingError, ItemLinkedToCreature, ItemLinkedToCreatureView};
use crate::schema::source_schema::creature::perception::{PerceptionParsingError, RawPerception, RawPerceptionView};
use crate::schema::source_schema::creature::resources::RawResource;
use crate::schema::source_schema::creature::saves::{RawSaves, RawSavesView, SaveParsingError};
use crate::schema::source_schema::traits::{RawTraits, RawTraitsView, TraitParsingError};
use crate::text::{eq_ignore_ascii_case, starts_with, str_eq_ignore_ascii_case, str_starts_with, to_uppercase, unicode_uppercase};
use vstd::prelude::*;

verus! {

#[derive(Debug)]
pub struct SourceCreature {
    pub name: String,
    pub creature_type: String,
    pub abilities: RawAbilities,
    pub attributes: RawAttributes,
    pub details: RawDetails,
    pub initiative_ability: String,
    pub perception: RawPerception,
    pub resource: RawResource,
    pub saves: RawSaves,
    pub traits: RawTraits,
    pub items: ItemLinkedToCreature,
}

pub struct SourceCreatureView {
    pub name: Seq<char>,
    pub creature_type: Seq<char>,
    pub abilities: RawAbilities,
    pub attributes: RawAttributesView,
    pub details: RawDetailsView,
    pub initiative_ability: Seq<char>,
    pub perception: RawPerceptionView,
    pub n_of_focus_points: i64,
    pub saves: RawSavesView,
    pub traits: RawTraitsView,
    pub items: ItemLinkedToCreatureView,
}

impl View for SourceCreature {
    type V = SourceCreatureView;

    open spec fn view(&self) -> SourceCreatureView {
        SourceCreatureView {
            name: self.name@,
            creature_type: self.creature_type@,
            abilities: self.abilities,
            attributes: self.attributes@,
            details: self.details@,
            initiative_ability: self.initiative_ability@,
            perception: self.perception@,
            n_of_focus_points: self.resource.n_of_focus_points,
            saves: self.saves@,
            traits: self.traits@,
            items: self.items@,
        }
    }
}

impl SourceCreature {
    /// The lists and maps inside are well formed.
    pub open spec fn wf(&self) -> bool {
        &&& self.attributes.speed.wf()
        &&& self.attributes.weakness.wf()
        &&& self.items.wf()
    }
}

#[derive(Debug, Clone, Copy, PartialEq, Eq)]
pub enum SourceCreatureParsingError {
    DuplicatedCreature,
    CreatureTypeFormat,
    InvalidCreatureType,
    NameFormat,
    InitiativeAbilityFormat,
    ResistanceError(AttributeParsingError),
    CreatureItemError(CreatureItemParsingError),
    CreatureDetailError(DetailsParsingError),
    CreatureAbilityError(AbilityParsingError),
    CreaturePerceptionError(PerceptionParsingError),
    CreatureTraitParsingError(TraitParsingError),
    CreatureSaveParsingError(SaveParsingError),
}

/// Elite and weak variants are derived when needed, so their records are
/// duplicates.
pub open spec fn is_variant_name(name: Seq<char>) -> bool {
    starts_with(unicode_uppercase(name), "ELITE "@) || starts_with(unicode_uppercase(name), "WEAK "@)
}

impl SourceCreature {
    /// Reading panics in the perception or in the items, where the reading
    /// gets that far.
    pub open spec fn stops(j: JsonV) -> bool {
        let system = j.field("system"@);
        &&& j.field("type"@).as_str() is Some
        &&& eq_ignore_ascii_case(j.field("type"@).as_str().unwrap(), "npc"@)
        &&& j.field("name"@).as_str() is Some
        &&& !is_variant_name(j.field("name"@).as_str().unwrap())
        &&& RawAbilities::spec_try_from(system.field("abilities"@)) is Ok
        &&& RawAttributes::spec_try_from(system.field("attributes"@)) is Ok
        &&& RawDetails::spec_try_from(system.field("details"@)) is Ok
        &&& system.field("initiative"@).field("statistic"@).as_str() is Some
        &&& {
            ||| RawPerception::stops(system.field("perception"@))
            ||| {
                &&& RawPerception::spec_try_from(system.field("perception"@)) is Ok
                &&& RawSaves::spec_try_from(system.field("saves"@)) is Ok
                &&& RawTraits::spec_try_from(system.field("traits"@)) is Ok
                &&& ItemLinkedToCreature::stops(j.field("items"@))
            }
        }
    }

    /// A creature record: an `npc` that is no elite or weak variant, with its
    /// parts read in turn.
    pub open spec fn spec_try_from(j: JsonV) -> Result<SourceCreatureView, SourceCreatureParsingError> {
        let system = j.field("system"@);
        match j.field("type"@).as_str() {
            None => Err(SourceCreatureParsingError::CreatureTypeFormat),
            Some(creature_type) => if !eq_ignore_ascii_case(creature_type, "npc"@) {
                Err(SourceCreatureParsingError::InvalidCreatureType)
            } else {
                match j.field("name"@).as_str() {
                    None => Err(SourceCreatureParsingError::NameFormat),
                    Some(name) => if is_variant_name(name) {
                        Err(SourceCreatureParsingError::DuplicatedCreature)
                    } else {
                        match RawAbilities::spec_try_from(system.field("abilities"@)) {
                            Err(e) => Err(SourceCreatureParsingError::CreatureAbilityError(e)),
                            Ok(abilities) => match RawAttributes::spec_try_from(system.field("attributes"@)) {
                                Err(e) => Err(SourceCreatureParsingError::ResistanceError(e)),
                                Ok(attributes) => match RawDetails::spec_try_from(system.field("details"@)) {
                                    Err(e) => Err(SourceCreatureParsingError::CreatureDetailError(e)),
                                    Ok(details) => match system.field("initiative"@).field("statistic"@).as_str() {
                                        None => Err(SourceCreatureParsingError::InitiativeAbilityFormat),
                                        Some(initiative_ability) => match RawPerception::spec_try_from(system.field("perception"@)) {
                                            Err(e) => Err(SourceCreatureParsingError::CreaturePerceptionError(e)),
                                            Ok(perception) => match RawSaves::spec_try_from(system.field("saves"@)) {
                                                Err(e) => Err(SourceCreatureParsingError::CreatureSaveParsingError(e)),
                                                Ok(saves) => match RawTraits::spec_try_from(system.field("traits"@)) {
                                                    Err(e) => Err(SourceCreatureParsingError::CreatureTraitParsingError(e)),
                                                    Ok(traits) => match ItemLinkedToCreature::spec_try_from(j.field("items"@)) {
                                                        Err(e) => Err(SourceCreatureParsingError::CreatureItemError(e)),
                                                        Ok(items) => Ok(
                                                            SourceCreatureView {
                                                                name,
                                                                creature_type,
                                                                abilities,
                                                                attributes,
                                                                details,
                                                                initiative_ability,
                                                                perception,
                                                                n_of_focus_points: RawResource::spec_focus_points(system.field("resources"@)),
                                                                saves,
                                                                traits,
                                                                items,
                                                            },
                                                        ),
                                                    },
                                                },
                                            },
                                        },
                                    },
                                },
                            },
                        }
                    },
                }
            },
        }
    }

    /// Whether reading the creature would panic.
    pub fn stops_on(json: &Json) -> (r: bool)
        ensures
            r == Self::stops(json@),
    {
        let creature_type = match str_of(json.get("type")) {
            Some(t) => t,
            None => return false,
        };
        if !str_eq_ignore_ascii_case(creature_type.as_str(), "npc") {
            return false;
        }
        let name = match str_of(json.get("name")) {
            Some(n) => n,
            None => return false,
        };
        let upper = to_uppercase(name.as_str());
        if str_starts_with(upper.as_str(), "ELITE ") || str_starts_with(upper.as_str(), "WEAK ") {
            return false;
        }
        let system = json.get("system");
        let null = Json::Null;
        if RawAbilities::try_from(crate::model::deref_or(field(system, "abilities"), &null)).is_err() {
            return false;
        }
        if RawAttributes::try_from(crate::model::deref_or(field(system, "attributes"), &null)).is_err() {
            return false;
        }
        if RawDetails::try_from(crate::model::deref_or(field(system, "details"), &null)).is_err() {
            return false;
        }
        if str_of(field(field(system, "initiative"), "statistic")).is_none() {
            return false;
        }
        let perception_json = crate::model::deref_or(field(system, "perception"), &null);
        if RawPerception::stops_on(perception_json) {
            return true;
        }
        if RawPerception::try_from(perception_json).is_err() {
            return false;
        }
        if RawSaves::try_from(crate::model::deref_or(field(system, "saves"), &null)).is_err() {
            return false;
        }
        if RawTraits::try_from(crate::model::deref_or(field(system, "traits"), &null)).is_err() {
            return false;
        }
        ItemLinkedToCreature::stops_on(crate::model::deref_or(json.get("items"), &null))
    }

    pub fn try_from(json: &Json) -> (r: Result<SourceCreature, SourceCreatureParsingError>)
        requires
            !Self::stops(json@),
        ensures
            match r {
                Ok(c) => c.wf() && Self::spec_try_from(json@) == Ok::<SourceCreatureView, SourceCreatureParsingError>(c@),
                Err(e) => Self::spec_try_from(json@) == Err::<SourceCreatureView, SourceCreatureParsingError>(e),
            },
    {
        let creature_type = match str_of(json.get("type")) {
            Some(t) => t,
            None => return Err(SourceCreatureParsingError::CreatureTypeFormat),
        };
        if !str_eq_ignore_ascii_case(creature_type.as_str(), "npc") {
            return Err(SourceCreatureParsingError::InvalidCreatureType);
        }
        let system = json.get("system");
        let null = Json::Null;
        let name = match str_of(json.get("name")) {
            Some(n) => n,
            None => return Err(SourceCreatureParsingError::NameFormat),
        };
        let upper = to_uppercase(name.as_str());
        if str_starts_with(upper.as_str(), "ELITE ") || str_starts_with(upper.as_str(), "WEAK ") {
            return Err(SourceCreatureParsingError::DuplicatedCreature);
        }
        let abilities = match RawAbilities::try_from(crate::model::deref_or(field(system, "abilities"), &null)) {
            Ok(a) => a,
            Err(e) => return Err(SourceCreatureParsingError::CreatureAbilityError(e)),
        };
        let attributes = match RawAttributes::try_from(crate::model::deref_or(field(system, "attributes"), &null)) {
            Ok(a) => a,
            Err(e) => return Err(SourceCreatureParsingError::ResistanceError(e)),
        };
        let details = match RawDetails::try_from(crate::model::deref_or(field(system, "details"), &null)) {
            Ok(d) => d,
            Err(e) => return Err(SourceCreatureParsingError::CreatureDetailError(e)),
        };
        let initiative_ability = match str_of(field(field(system, "initiative"), "statistic")) {
            Some(s) => s,
            None => return Err(SourceCreatureParsingError::InitiativeAbilityFormat),
        };
        let perception = match RawPerception::try_from(crate::model::deref_or(field(system, "perception"), &null)) {
            Ok(p) => p,
            Err(e) => return Err(SourceCreatureParsingError::CreaturePerceptionError(e)),
        };
        let resource = RawResource::init_from_json(crate::model::deref_or(field(system, "resources"), &null));
        let saves = match RawSaves::try_from(crate::model::deref_or(field(system, "saves"), &null)) {
            Ok(s) => s,
            Err(e) => return Err(SourceCreatureParsingError::CreatureSaveParsingError(e)),
        };
        let traits = match RawTraits::try_from(crate::model::deref_or(field(system, "traits"), &null)) {
            Ok(t) => t,
            Err(e) => return Err(SourceCreatureParsingError::CreatureTraitParsingError(e)),
        };
        let items = match ItemLinkedToCreature::try_from(crate::model::deref_or(json.get("items"), &null)) {
            Ok(i) => i,
            Err(e) => return Err(SourceCreatureParsingError::CreatureItemError(e)),
        };
        Ok(
            SourceCreature {
                name,
                creature_type,
                abilities,
                attributes,
                details,
                initiative_ability,
                perception,
                resource,
                saves,
                traits,
                items,
            },
        )
    }
}

} // verus!
