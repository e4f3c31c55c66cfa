//! Items as the source data writes them.
use crate::json::{field, i64_of, str_of, Json, JsonV};
use crate::model::opt_view;
use crate::schema::publication_info::{PublicationInfo, PublicationInfoView, PublicationParsingError};
use crate::schema::source_schema::description::Description;
use crate::schema::source_schema::hp_values::{HpParsingError, RawHpValues};
use crate::schema::source_schema::item::material::{RawMaterial, RawMaterialView};
use crate::schema::source_schema::price_struct::{spec_price, PriceStruct};
use crate::schema::source_schema::traits::{RawTraits, RawTraitsView, TraitParsingError};
use crate::text::{ascii_lower, str_eq, to_ascii_lowercase};
use vstd::prelude::*;

verus! {

/// An item. `bulk` holds the number that the source data gives for it.
#[derive(Debug)]
pub struct SourceItem {
    pub name: String,
    pub foundry_id: String,
    pub bulk: Json,
    pub quantity: i64,
    pub base_item: Option<String>,
    pub description: String,
    pub hardness: i64,
    pub hp_values: RawHpValues,
    pub level: i64,
    pub price: PriceStruct,
    pub publication_info: PublicationInfo,
    pub traits: RawTraits,
    pub usage: Option<String>,
    pub item_type: String,
    pub group: Option<String>,
    pub category: Option<String>,
    pub material: RawMaterial,
    pub uses: Option<i64>,
}

pub struct SourceItemView {
    pub name: Seq<char>,
    pub foundry_id: Seq<char>,
    pub bulk: JsonV,
    pub quantity: i64,
    pub base_item: Option<Seq<char>>,
    pub description: Seq<char>,
    pub hardness: i64,
    pub hp: i64,
    pub level: i64,
    pub price: (i64, i64, i64, i64),
    pub publication_info: PublicationInfoView,
    pub traits: RawTraitsView,
    pub usage: Option<Seq<char>>,
    pub item_type: Seq<char>,
    pub group: Option<Seq<char>>,
    pub category: Option<Seq<char>>,
    pub material: RawMaterialView,
    pub uses: Option<i64>,
}

impl View for SourceItem {
    type V = SourceItemView;

    open spec fn view(&self) -> SourceItemView {
        SourceItemView {
            name: self.name@,
            foundry_id: self.foundry_id@,
            bulk: self.bulk@,
            quantity: self.quantity,
            base_item: opt_view(self.base_item),
            description: self.description@,
            hardness: self.hardness,
            hp: self.hp_values@,
            level: self.level,
            price: self.price@,
            publication_info: self.publication_info@,
            traits: self.traits@,
            usage: opt_view(self.usage),
            item_type: self.item_type@,
            group: opt_view(self.group),
            category: opt_view(self.category),
            material: self.material@,
            uses: self.uses,
        }
    }
}

#[derive(Debug, Clone, Copy, PartialEq, Eq)]
pub enum SourceItemParsingError {
    CategoryFieldMissing,
    NameFieldMissing,
    PublicationError(PublicationParsingError),
    TypeFieldError,
    HpError(HpParsingError),
    TraitError(TraitParsingError),
}

/// The value that stands for `n` where `n` is absent: `null`.
pub open spec fn or_null_opt(o: Option<JsonV>) -> JsonV {
    match o {
        Some(v) => v,
        None => JsonV::Null,
    }
}

/// An integer, or `d` where the value is not one.
pub open spec fn i64_or(j: JsonV, d: i64) -> i64 {
    match j.as_i64() {
        Some(v) => v,
        None => d,
    }
}

/// The bulk: the number `bulk.value`, or 0 where it is not a number.
pub open spec fn spec_bulk(system: JsonV) -> JsonV {
    let b = system.field("bulk"@).field("value"@);
    if b.is_number() {
        b
    } else {
        JsonV::Int(0)
    }
}

/// The type, lower case, with `melee` standing for `weapon`.
pub open spec fn spec_item_type(t: Seq<char>) -> Seq<char> {
    if ascii_lower(t) == "melee"@ {
        "weapon"@
    } else {
        ascii_lower(t)
    }
}

/// The material: `material`, or `specific.material` where there is none.
pub open spec fn spec_material_json(system: JsonV) -> JsonV {
    match system.get("material"@) {
        Some(m) => m,
        None => system.field("specific"@).field("material"@),
    }
}

impl SourceItem {
    pub open spec fn spec_try_from(j: JsonV) -> Result<SourceItemView, SourceItemParsingError> {
        let system = j.field("system"@);
        match j.field("type"@).as_str() {
            None => Err(SourceItemParsingError::TypeFieldError),
            Some(t) => match j.field("name"@).as_str() {
                None => Err(SourceItemParsingError::NameFieldMissing),
                Some(name) => match RawHpValues::spec_try_from(system.field("hp"@)) {
                    Err(e) => Err(SourceItemParsingError::HpError(e)),
                    Ok(hp) => match PublicationInfo::spec_try_from(system.field("publication"@)) {
                        Err(e) => Err(SourceItemParsingError::PublicationError(e)),
                        Ok(publication_info) => match RawTraits::spec_try_from(system.field("traits"@)) {
                            Err(e) => Err(SourceItemParsingError::TraitError(e)),
                            Ok(traits) => {
                                let category = system.get("category"@);
                                if category is Some && category.unwrap().as_str() is None {
                                    Err(SourceItemParsingError::CategoryFieldMissing)
                                } else {
                                    Ok(
                                        SourceItemView {
                                            name,
                                            foundry_id: match j.field("_id"@).as_str() {
                                                Some(id) => id,
                                                None => Seq::empty(),
                                            },
                                            bulk: spec_bulk(system),
                                            quantity: i64_or(system.field("quantity"@), 1),
                                            base_item: system.field("baseItem"@).as_str(),
                                            description: match system.field("description"@).field("value"@).as_str() {
                                                Some(d) => d,
                                                None => Seq::empty(),
                                            },
                                            hardness: i64_or(system.field("hardness"@), 0),
                                            hp,
                                            level: i64_or(system.field("level"@).field("value"@), 0),
                                            price: spec_price(system.field("price"@)),
                                            publication_info,
                                            traits,
                                            usage: system.field("usage"@).field("value"@).as_str(),
                                            item_type: spec_item_type(t),
                                            group: system.field("group"@).as_str(),
                                            category: match category {
                                                Some(c) => c.as_str(),
                                                None => None,
                                            },
                                            material: RawMaterial::spec_from(spec_material_json(system)),
                                            uses: system.field("uses"@).field("max"@).as_i64(),
                                        },
                                    )
                                }
                            },
                        },
                    },
                },
            },
        }
    }

    pub fn try_from(json: &Json) -> (r: Result<SourceItem, SourceItemParsingError>)
        ensures
            crate::model::result_view(r) == Self::spec_try_from(json@),
    {
        let item_type = match str_of(json.get("type")) {
            Some(t) => to_ascii_lowercase(t.as_str()),
            None => return Err(SourceItemParsingError::TypeFieldError),
        };
        let system = json.get("system");
        let null = Json::Null;
        let name = match str_of(json.get("name")) {
            Some(n) => n,
            None => return Err(SourceItemParsingError::NameFieldMissing),
        };
        let foundry_id = match str_of(json.get("_id")) {
            Some(id) => id,
            None => String::new(),
        };
        let bulk_json = field(field(system, "bulk"), "value");
        let bulk = match bulk_json {
            Some(b) => match b {
                Json::Int(_) | Json::Decimal(_) => b.copy(),
                _ => Json::Int(0),
            },
            None => Json::Int(0),
        };
        let quantity = match i64_of(field(system, "quantity")) {
            Some(v) => v,
            None => 1,
        };
        let base_item = str_of(field(system, "baseItem"));
        let description = match str_of(field(field(system, "description"), "value")) {
            Some(d) => Description::from_string(d),
            None => Description::default(),
        }.to_string();
        let hardness = match i64_of(field(system, "hardness")) {
            Some(v) => v,
            None => 0,
        };
        let hp_values = match RawHpValues::try_from(crate::model::deref_or(field(system, "hp"), &null)) {
            Ok(h) => h,
            Err(e) => return Err(SourceItemParsingError::HpError(e)),
        };
        let level = match i64_of(field(field(system, "level"), "value")) {
            Some(v) => v,
            None => 0,
        };
        let price = PriceStruct::init_from_json(crate::model::deref_or(field(system, "price"), &null));
        let publication_info = match PublicationInfo::try_from(
            crate::model::deref_or(field(system, "publication"), &null),
        ) {
            Ok(p) => p,
            Err(e) => return Err(SourceItemParsingError::PublicationError(e)),
        };
        let traits = match RawTraits::try_from(crate::model::deref_or(field(system, "traits"), &null)) {
            Ok(t) => t,
            Err(e) => return Err(SourceItemParsingError::TraitError(e)),
        };
        let usage = str_of(field(field(system, "usage"), "value"));
        let item_type = if str_eq(item_type.as_str(), "melee") {
            crate::json::text("weapon")
        } else {
            item_type
        };
        let group = str_of(field(system, "group"));
        let category = match field(system, "category") {
            Some(c) => match c.as_string() {
                Some(s) => Some(s),
                None => return Err(SourceItemParsingError::CategoryFieldMissing),
            },
            None => None,
        };
        let material_json = match field(system, "material") {
            Some(m) => m,
            None => crate::model::deref_or(field(field(system, "specific"), "material"), &null),
        };
        let material = RawMaterial::from(material_json);
        let uses = i64_of(field(field(system, "uses"), "max"));
        assert(opt_view(base_item) == crate::json::opt_string_view(base_item));
        assert(opt_view(usage) == crate::json::opt_string_view(usage));
        assert(opt_view(group) == crate::json::opt_string_view(group));
        assert(opt_view(category) == crate::json::opt_string_view(category));
        Ok(
            SourceItem {
                name,
                foundry_id,
                bulk,
                quantity,
                base_item,
                description,
                hardness,
                hp_values,
                level,
                price,
                publication_info,
                traits,
                usage,
                item_type,
                group,
                category,
                material,
                uses,
            },
        )
    }
}

} // verus!
