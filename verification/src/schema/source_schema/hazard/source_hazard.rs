//! Hazards as the source data writes them.
use crate::json::{bool_of, field, i64_of, str_of, Json, JsonV};
use crate::model::opt_view;
use crate::schema::publication_info::{PublicationInfo, PublicationInfoView, PublicationParsingError};
use crate::schema::source_schema::common::description::Description;
use crate::schema::source_schema::common::saves::{RawSaves, RawSavesView, SaveParsingError};
use crate::schema::source_schema::creature::item::action::ActionParsingError;
use crate::schema::source_schema::creature::item::items::{CreatureItemParsingError, ItemLinkedToCreature, ItemLinkedToCreatureView};
use crate::schema::source_schema::hazard::attributes::{AttributeParsingError, RawAttributes, RawAttributesView};
use crate::schema::source_schema::hp_values::HpParsingError;
use crate::schema::source_schema::traits::{RawTraits, RawTraitsView, TraitParsingError};
use crate::text::{eq_ignore_ascii_case, str_eq_ignore_ascii_case};
use vstd::prelude::*;

verus! {

#[derive(Debug)]
pub struct SourceHazard {
    pub name: String,
    pub foundry_id: String,
    pub attributes: RawAttributes,
    pub creature_type: Option<String>,
    pub description: Description,
    pub disable_description: Description,
    pub is_complex: bool,
    pub level: i64,
    pub publication_info: PublicationInfo,
    pub reset_description: Description,
    pub routine_description: Description,
    pub saves: RawSaves,
    pub items: ItemLinkedToCreature,
    pub traits: RawTraits,
}

pub struct SourceHazardView {
    pub name: Seq<char>,
    pub foundry_id: Seq<char>,
    pub attributes: RawAttributesView,
    pub creature_type: Option<Seq<char>>,
    pub description: Seq<char>,
    pub disable_description: Seq<char>,
    pub is_complex: bool,
    pub level: i64,
    pub publication_info: PublicationInfoView,
    pub reset_description: Seq<char>,
    pub routine_description: Seq<char>,
    pub saves: RawSavesView,
    pub items: ItemLinkedToCreatureView,
    pub traits: RawTraitsView,
}

impl View for SourceHazard {
    type V = SourceHazardView;

    open spec fn view(&self) -> SourceHazardView {
        SourceHazardView {
            name: self.name@,
            foundry_id: self.foundry_id@,
            attributes: self.attributes@,
            creature_type: opt_view(self.creature_type),
            description: self.description@,
            disable_description: self.disable_description@,
            is_complex: self.is_complex,
            level: self.level,
            publication_info: self.publication_info@,
            reset_description: self.reset_description@,
            routine_description: self.routine_description@,
            saves: self.saves@,
            items: self.items@,
            traits: self.traits@,
        }
    }
}

impl SourceHazard {
    pub open spec fn wf(&self) -> bool {
        &&& self.attributes.speed.wf()
        &&& self.attributes.weakness.wf()
        &&& self.items.wf()
    }
}

#[derive(Debug, Clone, Copy, PartialEq, Eq)]
pub enum SourceHazardParsingError {
    IdMissing,
    NameFieldMissing,
    PublicationError(PublicationParsingError),
    HpError(HpParsingError),
    TraitError(TraitParsingError),
    HazardActionError(ActionParsingError),
    HazardSavesError(SaveParsingError),
    HazardTypeFormat,
    InvalidHazardType,
    HazardItemError(CreatureItemParsingError),
    AttributeError(AttributeParsingError),
}

/// A text of the details, empty where it is no string.
pub open spec fn detail_text(details: JsonV, key: Seq<char>) -> Seq<char> {
    match details.field(key).as_str() {
        Some(s) => s,
        None => Seq::empty(),
    }
}

fn read_detail_text(details: Option<&Json>, key: &str) -> (r: Description)
    ensures
        r@ == detail_text(crate::json::or_null(details), key@),
{
    match str_of(field(details, key)) {
        Some(s) => Description::from_string(s),
        None => Description::default(),
    }
}

impl SourceHazard {
    /// Reading panics where a hazard with an id and a name has attributes
    /// whose reading panics, or attributes that read and no boolean
    /// `isComplex`; and, once its publication, saves and traits read, where
    /// reading its items panics.
    pub open spec fn stops(j: JsonV) -> bool {
        let system = j.field("system"@);
        let details = system.field("details"@);
        &&& j.field("type"@).as_str() is Some
        &&& eq_ignore_ascii_case(j.field("type"@).as_str().unwrap(), "hazard"@)
        &&& j.field("_id"@).as_str() is Some
        &&& j.field("name"@).as_str() is Some
        &&& {
            ||| RawAttributes::stops(system.field("attributes"@))
            ||| {
                &&& RawAttributes::spec_try_from(system.field("attributes"@)) is Ok
                &&& {
                    ||| details.field("isComplex"@).as_bool() is None
                    ||| {
                        &&& PublicationInfo::spec_try_from(details.field("publication"@)) is Ok
                        &&& RawSaves::spec_try_from(system.field("saves"@)) is Ok
                        &&& RawTraits::spec_try_from(system.field("traits"@)) is Ok
                        &&& ItemLinkedToCreature::stops(j.field("items"@))
                    }
                }
            }
        }
    }

    /// The hazard of a record: its type must be a string (else
    /// `HazardTypeFormat`) equal to `hazard` without regard to ASCII case (else
    /// `InvalidHazardType`); then it needs a string `_id` (`IdMissing`), a
    /// string `name` (`NameFieldMissing`), attributes that read
    /// (`AttributeError`), a publication (`PublicationError`), saves
    /// (`HazardSavesError`), traits (`TraitError`) and items
    /// (`HazardItemError`), checked in that order.
    pub open spec fn spec_try_from(j: JsonV) -> Result<SourceHazardView, SourceHazardParsingError> {
        let system = j.field("system"@);
        let details = system.field("details"@);
        match j.field("type"@).as_str() {
            None => Err(SourceHazardParsingError::HazardTypeFormat),
            Some(t) => if !eq_ignore_ascii_case(t, "hazard"@) {
                Err(SourceHazardParsingError::InvalidHazardType)
            } else {
                match j.field("_id"@).as_str() {
                    None => Err(SourceHazardParsingError::IdMissing),
                    Some(foundry_id) => match j.field("name"@).as_str() {
                        None => Err(SourceHazardParsingError::NameFieldMissing),
                        Some(name) => match RawAttributes::spec_try_from(system.field("attributes"@)) {
                            Err(e) => Err(SourceHazardParsingError::AttributeError(e)),
                            Ok(attributes) => match PublicationInfo::spec_try_from(details.field("publication"@)) {
                                Err(e) => Err(SourceHazardParsingError::PublicationError(e)),
                                Ok(publication_info) => match RawSaves::spec_try_from(system.field("saves"@)) {
                                    Err(e) => Err(SourceHazardParsingError::HazardSavesError(e)),
                                    Ok(saves) => match RawTraits::spec_try_from(system.field("traits"@)) {
                                        Err(e) => Err(SourceHazardParsingError::TraitError(e)),
                                        Ok(traits) => match ItemLinkedToCreature::spec_try_from(j.field("items"@)) {
                                            Err(e) => Err(SourceHazardParsingError::HazardItemError(e)),
                                            Ok(items) => Ok(
                                                SourceHazardView {
                                                    name,
                                                    foundry_id,
                                                    attributes,
                                                    creature_type: system.field("creatureType"@).as_str(),
                                                    description: detail_text(details, "description"@),
                                                    disable_description: detail_text(details, "disable"@),
                                                    is_complex: details.field("isComplex"@).as_bool().unwrap(),
                                                    level: match details.field("level"@).field("value"@).as_i64() {
                                                        Some(v) => v,
                                                        None => 0,
                                                    },
                                                    publication_info,
                                                    reset_description: detail_text(details, "reset"@),
                                                    routine_description: detail_text(details, "routine"@),
                                                    saves,
                                                    items,
                                                    traits,
                                                },
                                            ),
                                        },
                                    },
                                },
                            },
                        },
                    },
                }
            },
        }
    }

    /// Tells whether reading the hazard in `json` would panic.
    pub fn stops_on(json: &Json) -> (r: bool)
        ensures
            r == Self::stops(json@),
    {
        let kind = match str_of(json.get("type")) {
            Some(t) => t,
            None => return false,
        };
        if !str_eq_ignore_ascii_case(kind.as_str(), "hazard") {
            return false;
        }
        let null = Json::Null;
        let system = json.get("system");
        let details = field(system, "details");
        let attributes = crate::model::deref_or(field(system, "attributes"), &null);
        if str_of(json.get("_id")).is_none() || str_of(json.get("name")).is_none() {
            return false;
        }
        if RawAttributes::stops_on(attributes) {
            return true;
        }
        if RawAttributes::try_from(attributes).is_err() {
            return false;
        }
        if bool_of(field(details, "isComplex")).is_none() {
            return true;
        }
        let items = crate::model::deref_or(json.get("items"), &null);
        PublicationInfo::try_from(crate::model::deref_or(field(details, "publication"), &null)).is_ok()
            && RawSaves::try_from(crate::model::deref_or(field(system, "saves"), &null)).is_ok()
            && RawTraits::try_from(crate::model::deref_or(field(system, "traits"), &null)).is_ok()
            && ItemLinkedToCreature::stops_on(items)
    }

    pub fn try_from(json: &Json) -> (r: Result<SourceHazard, SourceHazardParsingError>)
        requires
            !Self::stops(json@),
        ensures
            match r {
                Ok(h) => h.wf() && Self::spec_try_from(json@) == Ok::<SourceHazardView, SourceHazardParsingError>(h@),
                Err(e) => Self::spec_try_from(json@) == Err::<SourceHazardView, SourceHazardParsingError>(e),
            },
    {
        let creature_type = match str_of(json.get("type")) {
            Some(t) => t,
            None => return Err(SourceHazardParsingError::HazardTypeFormat),
        };
        if !str_eq_ignore_ascii_case(creature_type.as_str(), "hazard") {
            return Err(SourceHazardParsingError::InvalidHazardType);
        }
        let null = Json::Null;
        let foundry_id = match str_of(json.get("_id")) {
            Some(s) => s,
            None => return Err(SourceHazardParsingError::IdMissing),
        };
        let name = match str_of(json.get("name")) {
            Some(s) => s,
            None => return Err(SourceHazardParsingError::NameFieldMissing),
        };
        let system = json.get("system");
        let details = field(system, "details");
        let attributes = match RawAttributes::try_from(crate::model::deref_or(field(system, "attributes"), &null)) {
            Ok(a) => a,
            Err(e) => return Err(SourceHazardParsingError::AttributeError(e)),
        };
        let hazard_type = str_of(field(system, "creatureType"));
        let description = read_detail_text(details, "description");
        let disable_description = read_detail_text(details, "disable");
        let reset_description = read_detail_text(details, "reset");
        let routine_description = read_detail_text(details, "routine");
        let is_complex = match bool_of(field(details, "isComplex")) {
            Some(b) => b,
            None => {
                assert(false);
                false
            },
        };
        let level = match i64_of(field(field(details, "level"), "value")) {
            Some(v) => v,
            None => 0,
        };
        let publication_info = match PublicationInfo::try_from(crate::model::deref_or(field(details, "publication"), &null)) {
            Ok(p) => p,
            Err(e) => return Err(SourceHazardParsingError::PublicationError(e)),
        };
        let saves = match RawSaves::try_from(crate::model::deref_or(field(system, "saves"), &null)) {
            Ok(s) => s,
            Err(e) => return Err(SourceHazardParsingError::HazardSavesError(e)),
        };
        let traits = match RawTraits::try_from(crate::model::deref_or(field(system, "traits"), &null)) {
            Ok(t) => t,
            Err(e) => return Err(SourceHazardParsingError::TraitError(e)),
        };
        let items = match ItemLinkedToCreature::try_from(crate::model::deref_or(json.get("items"), &null)) {
            Ok(i) => i,
            Err(e) => return Err(SourceHazardParsingError::HazardItemError(e)),
        };
        assert(opt_view(hazard_type) == crate::json::opt_string_view(hazard_type));
        Ok(
            SourceHazard {
                name,
                foundry_id,
                attributes,
                creature_type: hazard_type,
                description,
                disable_description,
                is_complex,
                level,
                publication_info,
                reset_description,
                routine_description,
                saves,
                items,
                traits,
            },
        )
    }
}

} // verus!
