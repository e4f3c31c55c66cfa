//! Items, armours, weapons and shields as they are stored.
use crate::json::{array_of, field, i64_of, json_view, lemma_members_view, members_view, str_of, strings_in, strings_of, strings_view, Json, JsonV};
use crate::model::{first_index, keep_ok, lemma_first_index_bound, lemma_first_index_prefix, opt_view, views};
use crate::schema::bybe_metadata_enum::{spec_rarity_of_upper, spec_size_of_upper, RarityEnum, SizeEnum};
use crate::schema::source_schema::item::source_item::{SourceItem, SourceItemParsingError, SourceItemView};
use crate::localize::{split_char, split_on};
use crate::schema::source_schema::common::range_data::{RangeData, RangeDataView};
use crate::schema::source_schema::creature::item::action::{Action, ActionView};
use crate::schema::source_schema::price_struct::{spec_price, PriceStruct};
use crate::schema::status::Status;
use crate::text::{ascii_lower, parse_i32, spec_parse_i32, chars_of, contains, parse_i64, spec_parse_i64, split_once, split_once_char, str_eq, string_from_chars, to_ascii_lowercase, to_uppercase, trim, unicode_trimmed, unicode_uppercase};
use vstd::prelude::*;

verus! {

/// An item. `bulk` holds the number that the source data gives for it.
#[derive(Debug)]
pub struct BybeItem {
    pub name: String,
    pub foundry_id: String,
    pub bulk: Json,
    pub quantity: i64,
    pub base_item: Option<String>,
    pub category: Option<String>,
    pub description: String,
    pub hardness: i64,
    pub hp: i64,
    pub level: i64,
    pub price: i64,
    pub usage: Option<String>,
    pub group: Option<String>,
    pub item_type: String,
    pub material_grade: Option<String>,
    pub material_type: Option<String>,
    pub number_of_uses: Option<i64>,
    pub license: String,
    pub remaster: bool,
    pub source: String,
    pub rarity: RarityEnum,
    pub size: SizeEnum,
    pub traits: Vec<String>,
    pub is_derived: bool,
    pub status: Status,
}

pub struct BybeItemView {
    pub name: Seq<char>,
    pub foundry_id: Seq<char>,
    pub bulk: JsonV,
    pub quantity: i64,
    pub base_item: Option<Seq<char>>,
    pub category: Option<Seq<char>>,
    pub description: Seq<char>,
    pub hardness: i64,
    pub hp: i64,
    pub level: i64,
    pub price: i64,
    pub usage: Option<Seq<char>>,
    pub group: Option<Seq<char>>,
    pub item_type: Seq<char>,
    pub material_grade: Option<Seq<char>>,
    pub material_type: Option<Seq<char>>,
    pub number_of_uses: Option<i64>,
    pub license: Seq<char>,
    pub remaster: bool,
    pub source: Seq<char>,
    pub rarity: RarityEnum,
    pub size: SizeEnum,
    pub traits: Seq<Seq<char>>,
    pub is_derived: bool,
    pub status: Status,
}

impl View for BybeItem {
    type V = BybeItemView;

    open spec fn view(&self) -> BybeItemView {
        BybeItemView {
            name: self.name@,
            foundry_id: self.foundry_id@,
            bulk: self.bulk@,
            quantity: self.quantity,
            base_item: opt_view(self.base_item),
            category: opt_view(self.category),
            description: self.description@,
            hardness: self.hardness,
            hp: self.hp,
            level: self.level,
            price: self.price,
            usage: opt_view(self.usage),
            group: opt_view(self.group),
            item_type: self.item_type@,
            material_grade: opt_view(self.material_grade),
            material_type: opt_view(self.material_type),
            number_of_uses: self.number_of_uses,
            license: self.license@,
            remaster: self.remaster,
            source: self.source@,
            rarity: self.rarity,
            size: self.size,
            traits: strings_view(self.traits@),
            is_derived: self.is_derived,
            status: self.status,
        }
    }
}

#[derive(Debug, Clone, Copy, PartialEq, Eq)]
pub enum BybeItemParsingError {
    UnsupportedItemType,
    InvalidItemType,
    MissingItemType,
    PropertyRunes,
    AcBonus,
    CheckPenalty,
    DexterityCap,
    SpeedPenalty,
    DamageData,
    SourceItemError(SourceItemParsingError),
}

/// Every step of the sum of the coins, in copper pieces, fits an `i64`.
pub open spec fn price_fits(p: (i64, i64, i64, i64)) -> bool {
    &&& i64::MIN <= p.0 * 1000 <= i64::MAX
    &&& i64::MIN <= p.1 * 100 <= i64::MAX
    &&& i64::MIN <= p.2 * 10 <= i64::MAX
    &&& i64::MIN <= p.0 * 1000 + p.1 * 100 <= i64::MAX
    &&& i64::MIN <= p.0 * 1000 + p.1 * 100 + p.2 * 10 <= i64::MAX
    &&& i64::MIN <= p.0 * 1000 + p.1 * 100 + p.2 * 10 + p.3 <= i64::MAX
}

/// The price in copper pieces.
pub open spec fn price_cp(p: (i64, i64, i64, i64)) -> int {
    p.0 * 1000 + p.1 * 100 + p.2 * 10 + p.3
}

/// The price of the item record in `j` can be counted in copper pieces.
pub open spec fn item_price_fits(j: JsonV) -> bool {
    price_fits(spec_price(j.field("system"@).field("price"@)))
}

/// The record parses as a source item whose price overflows an `i64` when
/// counted in copper pieces (there the conversion panics).
#[verifier::opaque]
pub open spec fn price_overflows(j: JsonV) -> bool {
    SourceItem::spec_try_from(j) is Ok && !item_price_fits(j)
}

/// The record's type, lower case, is `t`.
pub open spec fn typed_as(j: JsonV, t: Seq<char>) -> bool {
    lower_type(j) == Some(t)
}

pub open spec fn rarity_or_common(s: Seq<char>) -> RarityEnum {
    match spec_rarity_of_upper(unicode_uppercase(s)) {
        Some(r) => r,
        None => RarityEnum::Common,
    }
}

pub open spec fn size_or_medium(s: Seq<char>) -> SizeEnum {
    match spec_size_of_upper(unicode_uppercase(s)) {
        Some(r) => r,
        None => SizeEnum::Medium,
    }
}

/// The type of the record in `j`, lower case.
pub open spec fn lower_type(j: JsonV) -> Option<Seq<char>> {
    match j.field("type"@).as_str() {
        Some(t) => Some(ascii_lower(t)),
        None => None,
    }
}

/// Reads the type of a record, lower case.
pub fn read_lower_type(json: &Json) -> (r: Option<String>)
    ensures
        opt_view(r) == lower_type(json@),
{
    match str_of(json.get("type")) {
        Some(t) => Some(to_ascii_lowercase(t.as_str())),
        None => None,
    }
}

impl BybeItem {
    /// The stored item of a source item.
    pub open spec fn spec_from(s: SourceItemView, is_derived: bool) -> BybeItemView {
        BybeItemView {
            name: s.name,
            foundry_id: s.foundry_id,
            bulk: s.bulk,
            quantity: s.quantity,
            base_item: s.base_item,
            category: s.category,
            description: s.description,
            hardness: s.hardness,
            hp: s.hp,
            level: s.level,
            price: price_cp(s.price) as i64,
            usage: s.usage,
            group: s.group,
            item_type: unicode_uppercase(s.item_type),
            material_grade: s.material.grade,
            material_type: s.material.m_type,
            number_of_uses: s.uses,
            license: s.publication_info.license,
            remaster: s.publication_info.remastered,
            source: s.publication_info.source,
            rarity: rarity_or_common(s.traits.rarity),
            size: size_or_medium(s.traits.size),
            traits: s.traits.traits,
            is_derived,
            status: if !contains(s.description, "@Embed"@) {
                Status::Valid
            } else {
                Status::Deprecated
            },
        }
    }

    pub fn from(source_item: SourceItem, is_derived: bool) -> (r: BybeItem)
        requires
            price_fits(source_item@.price),
        ensures
            r@ == Self::spec_from(source_item@, is_derived),
    {
        let status = Status::from_item(&source_item);
        let price = source_item.price.to_cp();
        let item_type = to_uppercase(source_item.item_type.as_str());
        let rarity = match RarityEnum::from_str(source_item.traits.rarity.as_str()) {
            Some(r) => r,
            None => RarityEnum::Common,
        };
        let size = match SizeEnum::from_str(source_item.traits.size.as_str()) {
            Some(s) => s,
            None => SizeEnum::Medium,
        };
        let ghost sv = source_item@;
        let r = BybeItem {
            name: source_item.name,
            foundry_id: source_item.foundry_id,
            bulk: source_item.bulk,
            quantity: source_item.quantity,
            base_item: source_item.base_item,
            category: source_item.category,
            description: source_item.description,
            hardness: source_item.hardness,
            hp: source_item.hp_values.hp,
            level: source_item.level,
            price,
            usage: source_item.usage,
            group: source_item.group,
            item_type,
            material_grade: source_item.material.grade,
            material_type: source_item.material.m_type,
            number_of_uses: source_item.uses,
            license: source_item.publication_info.license,
            remaster: source_item.publication_info.remastered,
            source: source_item.publication_info.source,
            rarity,
            size,
            traits: source_item.traits.traits,
            is_derived,
            status,
        };
        assert(strings_view(r.traits@) =~= sv.traits.traits);
        r
    }

    /// Equipment and consumables only.
    pub open spec fn spec_try_from(j: JsonV, is_derived: bool) -> Result<BybeItemView, BybeItemParsingError> {
        match lower_type(j) {
            None => Err(BybeItemParsingError::MissingItemType),
            Some(t) => if !(t == "equipment"@ || t == "consumable"@) {
                Err(BybeItemParsingError::UnsupportedItemType)
            } else {
                match SourceItem::spec_try_from(j) {
                    Err(e) => Err(BybeItemParsingError::SourceItemError(e)),
                    Ok(s) => Ok(Self::spec_from(s, is_derived)),
                }
            },
        }
    }

    pub fn try_from(json: &Json, is_derived: bool) -> (r: Result<BybeItem, BybeItemParsingError>)
        requires
            (typed_as(json@, "equipment"@) || typed_as(json@, "consumable"@)) ==> !price_overflows(json@),
        ensures
            crate::model::result_view(r) == Self::spec_try_from(json@, is_derived),
    {
        proof {
            reveal(price_overflows);
        }
        let item_type = match read_lower_type(json) {
            Some(t) => t,
            None => return Err(BybeItemParsingError::MissingItemType),
        };
        if !(str_eq(item_type.as_str(), "equipment") || str_eq(item_type.as_str(), "consumable")) {
            return Err(BybeItemParsingError::UnsupportedItemType);
        }
        match SourceItem::try_from(json) {
            Err(e) => Err(BybeItemParsingError::SourceItemError(e)),
            Ok(s) => Ok(Self::from(s, is_derived)),
        }
    }
}

#[derive(Debug)]
pub struct BybeArmor {
    pub item_core: BybeItem,
    pub ac_bonus: i64,
    pub check_penalty: i64,
    pub dex_cap: i64,
    pub n_of_potency_runes: i64,
    pub property_runes: Vec<String>,
    pub n_of_resilient_runes: i64,
    pub speed_penalty: i64,
    pub strength_required: Option<i64>,
}

pub struct BybeArmorView {
    pub item_core: BybeItemView,
    pub ac_bonus: i64,
    pub check_penalty: i64,
    pub dex_cap: i64,
    pub n_of_potency_runes: i64,
    pub property_runes: Seq<Seq<char>>,
    pub n_of_resilient_runes: i64,
    pub speed_penalty: i64,
    pub strength_required: Option<i64>,
}

impl View for BybeArmor {
    type V = BybeArmorView;

    open spec fn view(&self) -> BybeArmorView {
        BybeArmorView {
            item_core: self.item_core@,
            ac_bonus: self.ac_bonus,
            check_penalty: self.check_penalty,
            dex_cap: self.dex_cap,
            n_of_potency_runes: self.n_of_potency_runes,
            property_runes: strings_view(self.property_runes@),
            n_of_resilient_runes: self.n_of_resilient_runes,
            speed_penalty: self.speed_penalty,
            strength_required: self.strength_required,
        }
    }
}

pub open spec fn i64_or_zero(j: JsonV) -> i64 {
    match j.as_i64() {
        Some(v) => v,
        None => 0,
    }
}

fn read_i64_or_zero(j: Option<&Json>) -> (r: i64)
    ensures
        r == i64_or_zero(crate::json::or_null(j)),
{
    match i64_of(j) {
        Some(v) => v,
        None => 0,
    }
}

impl BybeArmor {
    /// Armours only: the item, then `acBonus`, `checkPenalty` and `dexCap`
    /// (integers), the runes (`property` an array), and `speedPenalty`.
    pub open spec fn spec_try_from(j: JsonV, is_derived: bool) -> Result<BybeArmorView, BybeItemParsingError> {
        let system = j.field("system"@);
        let runes = system.field("runes"@);
        match lower_type(j) {
            None => Err(BybeItemParsingError::MissingItemType),
            Some(t) => if t != "armor"@ {
                Err(BybeItemParsingError::InvalidItemType)
            } else {
                match SourceItem::spec_try_from(j) {
                    Err(e) => Err(BybeItemParsingError::SourceItemError(e)),
                    Ok(s) => match system.field("acBonus"@).as_i64() {
                        None => Err(BybeItemParsingError::AcBonus),
                        Some(ac_bonus) => match system.field("checkPenalty"@).as_i64() {
                            None => Err(BybeItemParsingError::CheckPenalty),
                            Some(check_penalty) => match system.field("dexCap"@).as_i64() {
                                None => Err(BybeItemParsingError::DexterityCap),
                                Some(dex_cap) => match runes.field("property"@).as_array() {
                                    None => Err(BybeItemParsingError::PropertyRunes),
                                    Some(property) => match system.field("speedPenalty"@).as_i64() {
                                        None => Err(BybeItemParsingError::SpeedPenalty),
                                        Some(speed_penalty) => Ok(
                                            BybeArmorView {
                                                item_core: BybeItem::spec_from(s, is_derived),
                                                ac_bonus,
                                                check_penalty,
                                                dex_cap,
                                                n_of_potency_runes: i64_or_zero(runes.field("potency"@)),
                                                property_runes: strings_of(property),
                                                n_of_resilient_runes: i64_or_zero(runes.field("resilient"@)),
                                                speed_penalty,
                                                strength_required: system.field("strength"@).as_i64(),
                                            },
                                        ),
                                    },
                                },
                            },
                        },
                    },
                }
            },
        }
    }

    pub fn try_from(json: &Json, is_derived: bool) -> (r: Result<BybeArmor, BybeItemParsingError>)
        requires
            typed_as(json@, "armor"@) ==> !price_overflows(json@),
        ensures
            crate::model::result_view(r) == Self::spec_try_from(json@, is_derived),
    {
        proof {
            reveal(price_overflows);
        }
        let item_type = match read_lower_type(json) {
            Some(t) => t,
            None => return Err(BybeItemParsingError::MissingItemType),
        };
        if !str_eq(item_type.as_str(), "armor") {
            return Err(BybeItemParsingError::InvalidItemType);
        }
        let system = json.get("system");
        let item_core = match SourceItem::try_from(json) {
            Err(e) => return Err(BybeItemParsingError::SourceItemError(e)),
            Ok(s) => BybeItem::from(s, is_derived),
        };
        let runes = field(system, "runes");
        let ac_bonus = match i64_of(field(system, "acBonus")) {
            Some(v) => v,
            None => return Err(BybeItemParsingError::AcBonus),
        };
        let check_penalty = match i64_of(field(system, "checkPenalty")) {
            Some(v) => v,
            None => return Err(BybeItemParsingError::CheckPenalty),
        };
        let dex_cap = match i64_of(field(system, "dexCap")) {
            Some(v) => v,
            None => return Err(BybeItemParsingError::DexterityCap),
        };
        let n_of_potency_runes = read_i64_or_zero(field(runes, "potency"));
        let property_runes = match array_of(field(runes, "property")) {
            Some(items) => strings_in(items),
            None => return Err(BybeItemParsingError::PropertyRunes),
        };
        let n_of_resilient_runes = read_i64_or_zero(field(runes, "resilient"));
        let speed_penalty = match i64_of(field(system, "speedPenalty")) {
            Some(v) => v,
            None => return Err(BybeItemParsingError::SpeedPenalty),
        };
        let strength_required = i64_of(field(system, "strength"));
        Ok(
            BybeArmor {
                item_core,
                ac_bonus,
                check_penalty,
                dex_cap,
                n_of_potency_runes,
                property_runes,
                n_of_resilient_runes,
                speed_penalty,
                strength_required,
            },
        )
    }
}

#[derive(Debug)]
pub struct BybeShield {
    pub item_core: BybeItem,
    pub n_of_reinforcing_runes: i64,
    pub ac_bonus: i64,
    pub speed_penalty: i64,
}

pub struct BybeShieldView {
    pub item_core: BybeItemView,
    pub n_of_reinforcing_runes: i64,
    pub ac_bonus: i64,
    pub speed_penalty: i64,
}

impl View for BybeShield {
    type V = BybeShieldView;

    open spec fn view(&self) -> BybeShieldView {
        BybeShieldView {
            item_core: self.item_core@,
            n_of_reinforcing_runes: self.n_of_reinforcing_runes,
            ac_bonus: self.ac_bonus,
            speed_penalty: self.speed_penalty,
        }
    }
}

impl BybeShield {
    /// Shields only: the item, with `specific.runes.reinforcing`, `acBonus`
    /// and `speedPenalty`, each 0 where it is not an integer.
    pub open spec fn spec_try_from(j: JsonV, is_derived: bool) -> Result<BybeShieldView, BybeItemParsingError> {
        let system = j.field("system"@);
        match lower_type(j) {
            None => Err(BybeItemParsingError::MissingItemType),
            Some(t) => if t != "shield"@ {
                Err(BybeItemParsingError::InvalidItemType)
            } else {
                match SourceItem::spec_try_from(j) {
                    Err(e) => Err(BybeItemParsingError::SourceItemError(e)),
                    Ok(s) => Ok(
                        BybeShieldView {
                            item_core: BybeItem::spec_from(s, is_derived),
                            n_of_reinforcing_runes: i64_or_zero(
                                j.field("specific"@).field("runes"@).field("reinforcing"@),
                            ),
                            ac_bonus: i64_or_zero(system.field("acBonus"@)),
                            speed_penalty: i64_or_zero(system.field("speedPenalty"@)),
                        },
                    ),
                }
            },
        }
    }

    pub fn try_from(json: &Json, is_derived: bool) -> (r: Result<BybeShield, BybeItemParsingError>)
        requires
            typed_as(json@, "shield"@) ==> !price_overflows(json@),
        ensures
            crate::model::result_view(r) == Self::spec_try_from(json@, is_derived),
    {
        proof {
            reveal(price_overflows);
        }
        let item_type = match read_lower_type(json) {
            Some(t) => t,
            None => return Err(BybeItemParsingError::MissingItemType),
        };
        if !str_eq(item_type.as_str(), "shield") {
            return Err(BybeItemParsingError::InvalidItemType);
        }
        let system = json.get("system");
        let item_core = match SourceItem::try_from(json) {
            Err(e) => return Err(BybeItemParsingError::SourceItemError(e)),
            Ok(s) => BybeItem::from(s, is_derived),
        };
        let n_of_reinforcing_runes = read_i64_or_zero(
            field(field(json.get("specific"), "runes"), "reinforcing"),
        );
        let ac_bonus = read_i64_or_zero(field(system, "acBonus"));
        let speed_penalty = read_i64_or_zero(field(system, "speedPenalty"));
        Ok(BybeShield { item_core, n_of_reinforcing_runes, ac_bonus, speed_penalty })
    }
}

#[derive(Debug)]
pub struct WeaponDamageData {
    pub dmg_type: Option<String>,
    pub n_of_dice: Option<i64>,
    pub die_size: Option<i64>,
    pub bonus_dmg: i64,
}

pub struct WeaponDamageDataView {
    pub dmg_type: Option<Seq<char>>,
    pub n_of_dice: Option<i64>,
    pub die_size: Option<i64>,
    pub bonus_dmg: i64,
}

impl View for WeaponDamageData {
    type V = WeaponDamageDataView;

    open spec fn view(&self) -> WeaponDamageDataView {
        WeaponDamageDataView {
            dmg_type: opt_view(self.dmg_type),
            n_of_dice: self.n_of_dice,
            die_size: self.die_size,
            bonus_dmg: self.bonus_dmg,
        }
    }
}

/// A formula `NdS+B` (or `NdS-B`) cut into the number of dice, the die and the
/// signed bonus; a formula without `d` is a number of one-sided dice.
pub open spec fn damage_parts(dmg: Seq<char>) -> (Seq<char>, Seq<char>, Seq<char>) {
    let (n_dices, dmg_data) = match split_once(dmg, 'd') {
        Some(p) => p,
        None => (dmg, "1"@),
    };
    match split_once(dmg_data, '+') {
        Some((die, bonus)) => (n_dices, die, bonus),
        None => match split_once(dmg_data, '-') {
            Some((die, bonus)) => (n_dices, die, seq!['-'] + bonus),
            None => (n_dices, dmg_data, Seq::empty()),
        },
    }
}

/// A text without any occurrence of `c` (`str::replace` with an empty replacement).
pub open spec fn without_char(s: Seq<char>, c: char) -> Seq<char>
    decreases s.len(),
{
    if s.len() == 0 {
        s
    } else if s.last() == c {
        without_char(s.drop_last(), c)
    } else {
        without_char(s.drop_last(), c).push(s.last())
    }
}

fn remove_char(s: &str, c: char) -> (r: String)
    ensures
        r@ == without_char(s@, c),
{
    let cs = chars_of(s);
    let mut out: Vec<char> = Vec::new();
    let mut i: usize = 0;
    assert(cs@.subrange(0, 0) =~= Seq::<char>::empty());
    while i < cs.len()
        invariant
            i <= cs@.len(),
            cs@ == s@,
            out@ == without_char(cs@.subrange(0, i as int), c),
        decreases cs@.len() - i,
    {
        let ghost next = cs@.subrange(0, i + 1);
        assert(next.drop_last() =~= cs@.subrange(0, i as int));
        if cs[i] != c {
            out.push(cs[i]);
        }
        i = i + 1;
    }
    assert(cs@.subrange(0, cs@.len() as int) =~= cs@);
    string_from_chars(out.as_slice())
}

pub open spec fn opt_i64_or(o: Option<i64>, d: i64) -> i64 {
    match o {
        Some(v) => v,
        None => d,
    }
}

impl WeaponDamageData {
    /// One entry of `damageRolls`: its `damage` formula (which must be a
    /// string) cut into dice and bonus, each part trimmed and read as an integer.
    pub open spec fn spec_try_from(j: JsonV) -> Result<WeaponDamageDataView, BybeItemParsingError> {
        match j.field("damage"@).as_str() {
            None => Err(BybeItemParsingError::InvalidItemType),
            Some(dmg) => {
                let (n_dices, die, bonus) = damage_parts(dmg);
                Ok(
                    WeaponDamageDataView {
                        dmg_type: j.field("damageType"@).as_str(),
                        n_of_dice: spec_parse_i64(unicode_trimmed(n_dices)),
                        die_size: spec_parse_i64(unicode_trimmed(die)),
                        bonus_dmg: opt_i64_or(spec_parse_i64(unicode_trimmed(bonus)), 0),
                    },
                )
            },
        }
    }

    pub fn try_from(json: &Json) -> (r: Result<WeaponDamageData, BybeItemParsingError>)
        ensures
            crate::model::result_view(r) == Self::spec_try_from(json@),
    {
        let dmg = match str_of(json.get("damage")) {
            Some(d) => d,
            None => return Err(BybeItemParsingError::InvalidItemType),
        };
        let (n_dices, dmg_data) = match split_once_char(dmg.as_str(), 'd') {
            Some((a, b)) => (a, b),
            None => (dmg.clone(), crate::json::text("1")),
        };
        proof {
            reveal_strlit("1");
        }
        let (die, bonus) = match split_once_char(dmg_data.as_str(), '+') {
            Some((a, b)) => (a, b),
            None => match split_once_char(dmg_data.as_str(), '-') {
                Some((a, b)) => {
                    let signed = crate::text::concat("-", b.as_str());
                    proof {
                        reveal_strlit("-");
                    }
                    (a, signed)
                },
                None => (dmg_data.clone(), String::new()),
            },
        };
        let dmg_type = str_of(json.get("damageType"));
        let n_of_dice = parse_i64(trim(n_dices.as_str()).as_str());
        let die_size = parse_i64(trim(die.as_str()).as_str());
        let bonus_dmg = match parse_i64(trim(bonus.as_str()).as_str()) {
            Some(v) => v,
            None => 0,
        };
        assert(opt_view(dmg_type) == crate::json::opt_string_view(dmg_type));
        assert(damage_parts(dmg@) == (n_dices@, die@, bonus@));
        Ok(WeaponDamageData { dmg_type, n_of_dice, die_size, bonus_dmg })
    }
}

pub open spec fn weapon_damage_parser() -> spec_fn(JsonV) -> Result<WeaponDamageDataView, BybeItemParsingError> {
    |x: JsonV| WeaponDamageData::spec_try_from(x)
}

/// The values of the members of an object, in order.
pub open spec fn member_values(ms: Seq<(Seq<char>, JsonV)>) -> Seq<JsonV> {
    ms.map_values(|m: (Seq<char>, JsonV)| m.1)
}

/// The damage of a weapon as the `damage` member gives it, else the entries of
/// `damageRolls` that parse.
pub open spec fn listed_damage(j: JsonV) -> Seq<WeaponDamageDataView> {
    match j.get("damage"@) {
        Some(x) => seq![
            WeaponDamageDataView {
                dmg_type: x.field("damageType"@).as_str(),
                n_of_dice: x.field("dice"@).as_i64(),
                die_size: Some(
                    match x.field("die"@).as_str() {
                        Some(d) => opt_i64_or(spec_parse_i64(without_char(d, 'd')), 1),
                        None => 1,
                    },
                ),
                bonus_dmg: 0,
            },
        ],
        None => match j.field("damageRolls"@).as_object() {
            Some(ms) => keep_ok(member_values(ms), weapon_damage_parser()),
            None => Seq::empty(),
        },
    }
}

/// The damage of a weapon: what it lists, or, where it lists none, only its
/// `bonusDamage.value` (0 where that is not an integer).
pub open spec fn spec_weapon_damage(j: JsonV) -> Seq<WeaponDamageDataView> {
    if listed_damage(j).len() == 0 {
        seq![
            WeaponDamageDataView {
                dmg_type: None,
                n_of_dice: None,
                die_size: None,
                bonus_dmg: i64_or_zero(j.field("bonusDamage"@).field("value"@)),
            },
        ]
    } else {
        listed_damage(j)
    }
}

fn damage_rolls(ms: &Vec<(String, Json)>) -> (r: Vec<WeaponDamageData>)
    ensures
        views(r@) == keep_ok(member_values(members_view(ms@)), weapon_damage_parser()),
{
    proof {
        lemma_members_view(ms@);
    }
    let ghost iv = member_values(members_view(ms@));
    let mut out: Vec<WeaponDamageData> = Vec::new();
    let mut i: usize = 0;
    assert(views(out@) =~= Seq::<WeaponDamageDataView>::empty());
    assert(iv.subrange(0, 0) =~= Seq::<JsonV>::empty());
    while i < ms.len()
        invariant
            i <= ms@.len(),
            iv == member_values(members_view(ms@)),
            members_view(ms@).len() == ms@.len(),
            forall|k: int| 0 <= k < ms@.len() ==> #[trigger] members_view(ms@)[k] == (ms@[k].0@, json_view(ms@[k].1)),
            keep_ok(iv.subrange(0, i as int), weapon_damage_parser()) == views(out@),
        decreases ms@.len() - i,
    {
        let ghost next = iv.subrange(0, i + 1);
        assert(next.drop_last() =~= iv.subrange(0, i as int));
        assert(next.last() == json_view(ms@[i as int].1));
        match WeaponDamageData::try_from(&ms[i].1) {
            Ok(d) => {
                let ghost dv = d@;
                let ghost before = out@;
                out.push(d);
                assert(views(out@) =~= views(before).push(dv));
            },
            Err(_) => {},
        }
        i = i + 1;
    }
    assert(iv.subrange(0, iv.len() as int) =~= iv);
    out
}

impl WeaponDamageData {
    pub fn init_vec_from_json(json: &Json) -> (r: Vec<WeaponDamageData>)
        ensures
            views(r@) == spec_weapon_damage(json@),
    {
        let listed: Vec<WeaponDamageData> = match json.get("damage") {
            Some(x) => {
                let dmg_type = str_of(x.get("damageType"));
                let n_of_dice = i64_of(x.get("dice"));
                let die = match str_of(x.get("die")) {
                    Some(d) => match parse_i64(remove_char(d.as_str(), 'd').as_str()) {
                        Some(v) => v,
                        None => 1,
                    },
                    None => 1,
                };
                assert(opt_view(dmg_type) == crate::json::opt_string_view(dmg_type));
                let mut v: Vec<WeaponDamageData> = Vec::new();
                v.push(WeaponDamageData { dmg_type, n_of_dice, die_size: Some(die), bonus_dmg: 0 });
                assert(views(v@) =~= listed_damage(json@));
                v
            },
            None => match field(Some(json), "damageRolls") {
                Some(rolls) => match rolls.as_object() {
                    Some(ms) => damage_rolls(ms),
                    None => {
                        let v: Vec<WeaponDamageData> = Vec::new();
                        assert(views(v@) =~= Seq::<WeaponDamageDataView>::empty());
                        v
                    },
                },
                None => {
                    let v: Vec<WeaponDamageData> = Vec::new();
                    assert(views(v@) =~= Seq::<WeaponDamageDataView>::empty());
                    v
                },
            },
        };
        if listed.len() == 0 {
            let bonus_dmg = read_i64_or_zero(field(field(Some(json), "bonusDamage"), "value"));
            let mut v: Vec<WeaponDamageData> = Vec::new();
            v.push(WeaponDamageData { dmg_type: None, n_of_dice: None, die_size: None, bonus_dmg });
            assert(views(v@) =~= spec_weapon_damage(json@));
            v
        } else {
            listed
        }
    }

    pub fn copy(&self) -> (r: WeaponDamageData)
        ensures
            r@ == self@,
    {
        WeaponDamageData {
            dmg_type: crate::model::copy_opt_string(&self.dmg_type),
            n_of_dice: self.n_of_dice,
            die_size: self.die_size,
            bonus_dmg: self.bonus_dmg,
        }
    }
}

/// The first run of decimal digits in a text, as `regex::Regex::find` gives it
/// for the pattern `\d+`. That crate reads `\d` as any Unicode decimal digit
/// (general category Nd), not only the ASCII ones.
pub uninterp spec fn first_digit_run(s: Seq<char>) -> Option<Seq<char>>;

/// Compiles the pattern `\d+` with `regex::Regex::new` (it always compiles)
/// and copies the first match that `Regex::find` reports. The contract names
/// the match: which runs of which characters it finds is the crate's business.
#[verifier::external_body]
fn find_digit_run(s: &str) -> (r: Option<String>)
    ensures
        crate::text::opt_seq(r) == first_digit_run(s@),
{
    let re = regex::Regex::new(r"\d+").unwrap();
    match re.find(s) {
        Some(m) => Some(m.as_str().to_string()),
        None => None,
    }
}

/// The first letter of a word in upper case and the others in lower case,
/// as `capitalize::Capitalize::capitalize` gives it (through
/// `char::to_uppercase` and `char::to_lowercase`).
pub uninterp spec fn capitalized(s: Seq<char>) -> Seq<char>;

/// Calls `capitalize::Capitalize::capitalize` on a word.
#[verifier::external_body]
fn capitalize_word(s: &str) -> (r: String)
    ensures
        r@ == capitalized(s@),
{
    capitalize::Capitalize::capitalize(&s)
}

#[derive(Debug)]
pub struct SourceWeapon {
    pub item_core: BybeItem,
    pub to_hit_bonus: Option<i64>,
    pub damage_data: Vec<WeaponDamageData>,
    pub splash_dmg: Option<i64>,
    pub n_of_potency_runes: i64,
    pub n_of_striking_runes: i64,
    pub property_runes: Vec<String>,
    pub range: Option<RangeData>,
    pub reload: Option<String>,
    pub weapon_type: String,
    pub attack_effects: Vec<String>,
}

pub struct SourceWeaponView {
    pub item_core: BybeItemView,
    pub to_hit_bonus: Option<i64>,
    pub damage_data: Seq<WeaponDamageDataView>,
    pub splash_dmg: Option<i64>,
    pub n_of_potency_runes: i64,
    pub n_of_striking_runes: i64,
    pub property_runes: Seq<Seq<char>>,
    pub range: Option<RangeDataView>,
    pub reload: Option<Seq<char>>,
    pub weapon_type: Seq<char>,
    pub attack_effects: Seq<Seq<char>>,
}

impl View for SourceWeapon {
    type V = SourceWeaponView;

    open spec fn view(&self) -> SourceWeaponView {
        SourceWeaponView {
            item_core: self.item_core@,
            to_hit_bonus: self.to_hit_bonus,
            damage_data: views(self.damage_data@),
            splash_dmg: self.splash_dmg,
            n_of_potency_runes: self.n_of_potency_runes,
            n_of_striking_runes: self.n_of_striking_runes,
            property_runes: strings_view(self.property_runes@),
            range: opt_view(self.range),
            reload: opt_view(self.reload),
            weapon_type: self.weapon_type@,
            attack_effects: strings_view(self.attack_effects@),
        }
    }
}

/// The range of a weapon, where its `range` member gives one.
pub open spec fn weapon_range(system: JsonV) -> Option<RangeDataView> {
    match RangeData::spec_try_from(system.field("range"@)) {
        Ok(r) => Some(r),
        Err(_) => None,
    }
}

/// The first run of digits of the range's value does not read as an `i32`.
pub open spec fn range_digits_bad(r: Option<RangeDataView>) -> bool {
    match r {
        Some(rd) => match first_digit_run(rd.value) {
            Some(d) => spec_parse_i32(d) is None,
            None => false,
        },
        None => false,
    }
}

/// The number that the range's value begins with, 0 where there is none.
pub open spec fn range_number(r: Option<RangeDataView>) -> int {
    match r {
        Some(rd) => match first_digit_run(rd.value) {
            Some(d) => match spec_parse_i32(d) {
                Some(v) => v as int,
                None => 0,
            },
            None => 0,
        },
        None => 0,
    }
}

/// The kind of weapon: the one the record names, else, for a creature's
/// melee strike, `ranged` where it has a range and `melee` otherwise, else
/// `generic`.
pub open spec fn spec_weapon_kind(t: Seq<char>, named: Seq<char>, range: Option<RangeDataView>) -> Seq<char> {
    if named.len() == 0 {
        if t == "melee"@ {
            if range_number(range) > 0 || (range is Some && range.unwrap().increment is Some) {
                "ranged"@
            } else {
                "melee"@
            }
        } else {
            "generic"@
        }
    } else {
        named
    }
}

/// The property runes: an array of them, or an object whose values they are.
pub open spec fn spec_property_runes(runes: JsonV) -> Result<Seq<Seq<char>>, BybeItemParsingError> {
    match runes.get("property"@) {
        None => Ok(Seq::empty()),
        Some(x) => match x.as_array() {
            Some(items) => Ok(strings_of(items)),
            None => match x.as_object() {
                Some(ms) => Ok(strings_of(member_values(ms))),
                None => Err(BybeItemParsingError::PropertyRunes),
            },
        },
    }
}

fn strings_of_values(ms: &Vec<(String, Json)>) -> (r: Vec<String>)
    ensures
        strings_view(r@) == strings_of(member_values(members_view(ms@))),
{
    proof {
        lemma_members_view(ms@);
    }
    let ghost iv = member_values(members_view(ms@));
    let mut out: Vec<String> = Vec::new();
    let mut i: usize = 0;
    assert(strings_view(out@) =~= Seq::<Seq<char>>::empty());
    assert(iv.subrange(0, 0) =~= Seq::<JsonV>::empty());
    while i < ms.len()
        invariant
            i <= ms@.len(),
            iv == member_values(members_view(ms@)),
            members_view(ms@).len() == ms@.len(),
            forall|k: int| 0 <= k < ms@.len() ==> #[trigger] members_view(ms@)[k] == (ms@[k].0@, json_view(ms@[k].1)),
            strings_of(iv.subrange(0, i as int)) == strings_view(out@),
        decreases ms@.len() - i,
    {
        let ghost next = iv.subrange(0, i + 1);
        assert(next.drop_last() =~= iv.subrange(0, i as int));
        assert(next.last() == json_view(ms@[i as int].1));
        match ms[i].1.as_string() {
            Some(st) => {
                let ghost before = strings_view(out@);
                out.push(st);
                assert(strings_view(out@) =~= before.push(st@));
            },
            None => {},
        }
        i = i + 1;
    }
    assert(iv.subrange(0, iv.len() as int) =~= iv);
    out
}

fn property_runes_of(runes: Option<&Json>) -> (r: Result<Vec<String>, BybeItemParsingError>)
    ensures
        match r {
            Ok(v) => spec_property_runes(crate::json::or_null(runes)) == Ok::<Seq<Seq<char>>, BybeItemParsingError>(strings_view(v@)),
            Err(e) => spec_property_runes(crate::json::or_null(runes)) == Err::<Seq<Seq<char>>, BybeItemParsingError>(e),
        },
{
    match field(runes, "property") {
        None => {
            let v: Vec<String> = Vec::new();
            assert(strings_view(v@) =~= Seq::<Seq<char>>::empty());
            Ok(v)
        },
        Some(x) => match x.as_array() {
            Some(items) => Ok(strings_in(items)),
            None => match x.as_object() {
                Some(ms) => Ok(strings_of_values(ms)),
                None => Err(BybeItemParsingError::PropertyRunes),
            },
        },
    }
}

/// The strings of an array, none where the value is not an array.
pub open spec fn strings_or_none(j: JsonV) -> Seq<Seq<char>> {
    match j.as_array() {
        Some(items) => strings_of(items),
        None => Seq::empty(),
    }
}

fn read_strings_or_none(j: Option<&Json>) -> (r: Vec<String>)
    ensures
        strings_view(r@) == strings_or_none(crate::json::or_null(j)),
{
    match array_of(j) {
        Some(items) => strings_in(items),
        None => {
            let v: Vec<String> = Vec::new();
            assert(strings_view(v@) =~= Seq::<Seq<char>>::empty());
            v
        },
    }
}

/// Every step of the sum of the coins fits an `i64`.
fn price_fits_exec(p: &PriceStruct) -> (r: bool)
    ensures
        r == price_fits(p@),
{
    let pp = p.pp as i128;
    let gp = p.gp as i128;
    let sp = p.sp as i128;
    let cp = p.cp as i128;
    let lo = i64::MIN as i128;
    let hi = i64::MAX as i128;
    let a = pp * 1000;
    let b = gp * 100;
    let c = sp * 10;
    lo <= a && a <= hi && lo <= b && b <= hi && lo <= c && c <= hi && lo <= a + b && a + b <= hi && lo
        <= a + b + c && a + b + c <= hi && lo <= a + b + c + cp && a + b + c + cp <= hi
}

/// Whether the record parses as a source item whose price overflows.
pub fn price_overflows_exec(json: &Json) -> (r: bool)
    ensures
        r == price_overflows(json@),
{
    proof {
        reveal(price_overflows);
    }
    match SourceItem::try_from(json) {
        Ok(s) => !price_fits_exec(&s.price),
        Err(_) => false,
    }
}

impl SourceWeapon {
    /// Reading a weapon panics where its range is a number that is not a 64-bit
    /// integer, where the digits of its range do not read as an `i32`, or
    /// where its price overflows.
    #[verifier::opaque]
    pub open spec fn stops(j: JsonV) -> bool {
        let system = j.field("system"@);
        &&& (typed_as(j, "weapon"@) || typed_as(j, "melee"@))
        &&& (system.field("range"@) is Decimal || range_digits_bad(weapon_range(system)) || price_overflows(j))
    }

    pub open spec fn spec_try_from(j: JsonV, is_derived: bool) -> Result<SourceWeaponView, BybeItemParsingError> {
        let system = j.field("system"@);
        let runes = system.field("runes"@);
        let range = weapon_range(system);
        let named = match system.field("weaponType"@).field("value"@).as_str() {
            Some(n) => n,
            None => Seq::empty(),
        };
        match lower_type(j) {
            None => Err(BybeItemParsingError::MissingItemType),
            Some(t) => if !(t == "weapon"@ || t == "melee"@) {
                Err(BybeItemParsingError::InvalidItemType)
            } else {
                match SourceItem::spec_try_from(j) {
                    Err(e) => Err(BybeItemParsingError::SourceItemError(e)),
                    Ok(s) => match spec_property_runes(runes) {
                        Err(e) => Err(e),
                        Ok(property_runes) => Ok(
                            SourceWeaponView {
                                item_core: BybeItem::spec_from(s, is_derived),
                                to_hit_bonus: system.field("bonus"@).field("value"@).as_i64(),
                                damage_data: spec_weapon_damage(system),
                                splash_dmg: j.field("splashDamage"@).field("value"@).as_i64(),
                                n_of_potency_runes: i64_or_zero(runes.field("potency"@)),
                                n_of_striking_runes: i64_or_zero(runes.field("striking"@)),
                                property_runes,
                                range,
                                reload: system.field("reload"@).field("value"@).as_str(),
                                weapon_type: unicode_uppercase(spec_weapon_kind(t, named, range)),
                                attack_effects: strings_or_none(system.field("attackEffects"@).field("value"@)),
                            },
                        ),
                    },
                }
            },
        }
    }

    pub fn try_from(json: &Json, is_derived: bool) -> (r: Result<SourceWeapon, BybeItemParsingError>)
        requires
            !Self::stops(json@),
        ensures
            crate::model::result_view(r) == Self::spec_try_from(json@, is_derived),
    {
        proof {
            reveal(SourceWeapon::stops);
            reveal(price_overflows);
        }
        let item_type = match read_lower_type(json) {
            Some(t) => t,
            None => return Err(BybeItemParsingError::MissingItemType),
        };
        let is_melee = str_eq(item_type.as_str(), "melee");
        if !(str_eq(item_type.as_str(), "weapon") || is_melee) {
            return Err(BybeItemParsingError::InvalidItemType);
        }
        let system = json.get("system");
        let runes = field(system, "runes");
        let named = match str_of(field(field(system, "weaponType"), "value")) {
            Some(n) => n,
            None => String::new(),
        };
        let null = Json::Null;
        let range_json = crate::model::deref_or(field(system, "range"), &null);
        let range = match RangeData::try_from(range_json) {
            Ok(r) => Some(r),
            Err(_) => None,
        };
        let range_val: i32 = match &range {
            Some(r) => match find_digit_run(r.value.as_str()) {
                Some(d) => match parse_i32(d.as_str()) {
                    Some(v) => v,
                    None => {
                        assert(false);
                        0
                    },
                },
                None => 0,
            },
            None => 0,
        };
        let has_increment = match &range {
            Some(r) => r.increment.is_some(),
            None => false,
        };
        let weapon_kind = if named.as_str().unicode_len() == 0 {
            proof {
                reveal_strlit("ranged");
                reveal_strlit("melee");
                reveal_strlit("generic");
            }
            if is_melee {
                if range_val > 0 || has_increment {
                    crate::json::text("ranged")
                } else {
                    crate::json::text("melee")
                }
            } else {
                crate::json::text("generic")
            }
        } else {
            named
        };
        let item_core = match SourceItem::try_from(json) {
            Err(e) => return Err(BybeItemParsingError::SourceItemError(e)),
            Ok(s) => BybeItem::from(s, is_derived),
        };
        let splash_dmg = i64_of(field(json.get("splashDamage"), "value"));
        let n_of_potency_runes = read_i64_or_zero(field(runes, "potency"));
        let n_of_striking_runes = read_i64_or_zero(field(runes, "striking"));
        let property_runes = match property_runes_of(runes) {
            Ok(v) => v,
            Err(e) => return Err(e),
        };
        let reload = str_of(field(field(system, "reload"), "value"));
        let to_hit_bonus = i64_of(field(field(system, "bonus"), "value"));
        let weapon_type = to_uppercase(weapon_kind.as_str());
        let damage_data = WeaponDamageData::init_vec_from_json(crate::model::deref_or(system, &null));
        let attack_effects = read_strings_or_none(field(field(system, "attackEffects"), "value"));
        assert(opt_view(reload) == crate::json::opt_string_view(reload));
        assert(range_number(opt_view(range)) == range_val as int);
        assert(weapon_kind@ == spec_weapon_kind(item_type@, named@, opt_view(range)));
        Ok(
            SourceWeapon {
                item_core,
                to_hit_bonus,
                damage_data,
                splash_dmg,
                n_of_potency_runes,
                n_of_striking_runes,
                property_runes,
                range,
                reload,
                weapon_type,
                attack_effects,
            },
        )
    }

    /// Whether reading the record as a weapon would panic.
    pub fn stops_on(json: &Json) -> (r: bool)
        ensures
            r == Self::stops(json@),
    {
        proof {
            reveal(SourceWeapon::stops);
        }
        let typed = match read_lower_type(json) {
            Some(t) => str_eq(t.as_str(), "weapon") || str_eq(t.as_str(), "melee"),
            None => false,
        };
        if !typed {
            return false;
        }
        let system = json.get("system");
        let null = Json::Null;
        let range_json = crate::model::deref_or(field(system, "range"), &null);
        let decimal = match range_json {
            Json::Decimal(_) => true,
            _ => false,
        };
        if decimal {
            return true;
        }
        let digits_bad = match RangeData::try_from(range_json) {
            Ok(r) => match find_digit_run(r.value.as_str()) {
                Some(d) => parse_i32(d.as_str()).is_none(),
                None => false,
            },
            Err(_) => false,
        };
        digits_bad || price_overflows_exec(json)
    }

    /// Reads a weapon, or gives none where the reading would panic.
    pub fn try_from_checked(json: &Json, is_derived: bool) -> (r: Option<Result<SourceWeapon, BybeItemParsingError>>)
        ensures
            r is None <==> Self::stops(json@),
            match r {
                Some(res) => crate::model::result_view(res) == Self::spec_try_from(json@, is_derived),
                None => true,
            },
    {
        if Self::stops_on(json) {
            None
        } else {
            Some(Self::try_from(json, is_derived))
        }
    }
}

#[derive(Debug)]
pub struct BybeWeapon {
    pub item_core: BybeItem,
    pub to_hit_bonus: Option<i64>,
    pub damage_data: Vec<WeaponDamageData>,
    pub splash_dmg: Option<i64>,
    pub n_of_potency_runes: i64,
    pub n_of_striking_runes: i64,
    pub property_runes: Vec<String>,
    pub range: Option<RangeData>,
    pub reload: Option<String>,
    pub weapon_type: String,
    pub attack_effects: Vec<Action>,
}

pub struct BybeWeaponView {
    pub item_core: BybeItemView,
    pub to_hit_bonus: Option<i64>,
    pub damage_data: Seq<WeaponDamageDataView>,
    pub splash_dmg: Option<i64>,
    pub n_of_potency_runes: i64,
    pub n_of_striking_runes: i64,
    pub property_runes: Seq<Seq<char>>,
    pub range: Option<RangeDataView>,
    pub reload: Option<Seq<char>>,
    pub weapon_type: Seq<char>,
    pub attack_effects: Seq<ActionView>,
}

impl View for BybeWeapon {
    type V = BybeWeaponView;

    open spec fn view(&self) -> BybeWeaponView {
        BybeWeaponView {
            item_core: self.item_core@,
            to_hit_bonus: self.to_hit_bonus,
            damage_data: views(self.damage_data@),
            splash_dmg: self.splash_dmg,
            n_of_potency_runes: self.n_of_potency_runes,
            n_of_striking_runes: self.n_of_striking_runes,
            property_runes: strings_view(self.property_runes@),
            range: opt_view(self.range),
            reload: opt_view(self.reload),
            weapon_type: self.weapon_type@,
            attack_effects: views(self.attack_effects@),
        }
    }
}

/// The words of a text joined by single spaces.
pub open spec fn join_spaced(ws: Seq<Seq<char>>) -> Seq<char>
    decreases ws.len(),
{
    if ws.len() == 0 {
        Seq::empty()
    } else if ws.len() == 1 {
        ws[0]
    } else {
        join_spaced(ws.drop_last()) + seq![' '] + ws.last()
    }
}

/// The name that an attack effect's slug stands for: its `-`-separated words,
/// each capitalized, joined by spaces.
pub open spec fn slug_name(slug: Seq<char>) -> Seq<char> {
    join_spaced(split_on(slug, '-').map_values(|w: Seq<char>| capitalized(w)))
}

pub open spec fn has_slug(slug: Seq<char>) -> spec_fn(ActionView) -> bool {
    |a: ActionView| a.slug == Some(slug)
}

pub open spec fn has_name(name: Seq<char>) -> spec_fn(ActionView) -> bool {
    |a: ActionView| a.name == name
}

/// The action of an attack effect: the first action with its slug, else the
/// first action named as the slug reads.
pub open spec fn effect_action(acts: Seq<ActionView>, slug: Seq<char>) -> Option<ActionView> {
    match first_index(acts, has_slug(slug)) {
        Some(i) => Some(acts[i]),
        None => match first_index(acts, has_name(slug_name(slug))) {
            Some(i) => Some(acts[i]),
            None => None,
        },
    }
}

/// The actions of the attack effects that the creature has, in the order of
/// the effects.
pub open spec fn effect_actions(acts: Seq<ActionView>, slugs: Seq<Seq<char>>) -> Seq<ActionView>
    decreases slugs.len(),
{
    if slugs.len() == 0 {
        Seq::empty()
    } else {
        let rest = effect_actions(acts, slugs.drop_last());
        match effect_action(acts, slugs.last()) {
            Some(a) => rest.push(a),
            None => rest,
        }
    }
}

fn slug_title(slug: &str) -> (r: String)
    ensures
        r@ == slug_name(slug@),
{
    let words = split_char(slug, '-');
    let ghost wv = strings_view(words@);
    let ghost caps = wv.map_values(|w: Seq<char>| capitalized(w));
    let mut out = String::new();
    let mut i: usize = 0;
    assert(caps.subrange(0, 0) =~= Seq::<Seq<char>>::empty());
    while i < words.len()
        invariant
            i <= words@.len(),
            wv == strings_view(words@),
            wv == split_on(slug@, '-'),
            caps == wv.map_values(|w: Seq<char>| capitalized(w)),
            out@ == join_spaced(caps.subrange(0, i as int)),
        decreases words@.len() - i,
    {
        let w = capitalize_word(words[i].as_str());
        let ghost next = caps.subrange(0, i + 1);
        assert(next.drop_last() =~= caps.subrange(0, i as int));
        assert(next.last() == capitalized(words@[i as int]@));
        if i == 0 {
            assert(next =~= seq![w@]);
            out = w;
        } else {
            let spaced = crate::text::concat(out.as_str(), " ");
            proof {
                reveal_strlit(" ");
            }
            out = crate::text::concat(spaced.as_str(), w.as_str());
        }
        i = i + 1;
    }
    assert(caps.subrange(0, caps.len() as int) =~= caps);
    out
}

fn slug_index(acts: &Vec<Action>, slug: &str) -> (r: Option<usize>)
    ensures
        match first_index(views(acts@), has_slug(slug@)) {
            Some(i) => r is Some && r.unwrap() as int == i,
            None => r is None,
        },
{
    let ghost av = views(acts@);
    let ghost p = has_slug(slug@);
    let mut i: usize = 0;
    assert(av.subrange(0, 0) =~= Seq::<ActionView>::empty());
    while i < acts.len()
        invariant
            i <= acts@.len(),
            av == views(acts@),
            p == has_slug(slug@),
            first_index(av.subrange(0, i as int), p) is None,
        decreases acts@.len() - i,
    {
        let ghost next = av.subrange(0, i + 1);
        assert(next.drop_last() =~= av.subrange(0, i as int));
        let hit = match &acts[i].slug {
            Some(s) => str_eq(s.as_str(), slug),
            None => false,
        };
        if hit {
            proof {
                lemma_first_index_prefix(av, p, i as int + 1);
            }
            assert(first_index(av.subrange(0, i as int + 1), p) == Some(i as int));
            return Some(i);
        }
        i = i + 1;
    }
    assert(av.subrange(0, av.len() as int) =~= av);
    None
}

fn name_index(acts: &Vec<Action>, name: &str) -> (r: Option<usize>)
    ensures
        match first_index(views(acts@), has_name(name@)) {
            Some(i) => r is Some && r.unwrap() as int == i,
            None => r is None,
        },
{
    let ghost av = views(acts@);
    let ghost p = has_name(name@);
    let mut i: usize = 0;
    assert(av.subrange(0, 0) =~= Seq::<ActionView>::empty());
    while i < acts.len()
        invariant
            i <= acts@.len(),
            av == views(acts@),
            p == has_name(name@),
            first_index(av.subrange(0, i as int), p) is None,
        decreases acts@.len() - i,
    {
        let ghost next = av.subrange(0, i + 1);
        assert(next.drop_last() =~= av.subrange(0, i as int));
        if str_eq(acts[i].name.as_str(), name) {
            proof {
                lemma_first_index_prefix(av, p, i as int + 1);
            }
            assert(first_index(av.subrange(0, i as int + 1), p) == Some(i as int));
            return Some(i);
        }
        i = i + 1;
    }
    assert(av.subrange(0, av.len() as int) =~= av);
    None
}

impl BybeWeapon {
    /// A weapon without attack effects.
    pub fn from(value: SourceWeapon) -> (r: BybeWeapon)
        ensures
            r@.item_core == value@.item_core,
            r@.to_hit_bonus == value@.to_hit_bonus,
            r@.damage_data == value@.damage_data,
            r@.splash_dmg == value@.splash_dmg,
            r@.n_of_potency_runes == value@.n_of_potency_runes,
            r@.n_of_striking_runes == value@.n_of_striking_runes,
            r@.property_runes == value@.property_runes,
            r@.range == value@.range,
            r@.reload == value@.reload,
            r@.weapon_type == value@.weapon_type,
            r@.attack_effects == Seq::<ActionView>::empty(),
    {
        let attack_effects: Vec<Action> = Vec::new();
        assert(views(attack_effects@) =~= Seq::<ActionView>::empty());
        BybeWeapon {
            item_core: value.item_core,
            to_hit_bonus: value.to_hit_bonus,
            damage_data: value.damage_data,
            splash_dmg: value.splash_dmg,
            n_of_potency_runes: value.n_of_potency_runes,
            n_of_striking_runes: value.n_of_striking_runes,
            property_runes: value.property_runes,
            range: value.range,
            reload: value.reload,
            weapon_type: value.weapon_type,
            attack_effects,
        }
    }

    /// A weapon with the creature's actions for its attack effects: for each
    /// effect, the first action with its slug, else the first action named as
    /// the slug reads; effects the creature has no action for are left out.
    pub fn new(source_weapon: SourceWeapon, creature_actions: &Vec<Action>) -> (r: BybeWeapon)
        ensures
            r@.item_core == source_weapon@.item_core,
            r@.to_hit_bonus == source_weapon@.to_hit_bonus,
            r@.damage_data == source_weapon@.damage_data,
            r@.splash_dmg == source_weapon@.splash_dmg,
            r@.n_of_potency_runes == source_weapon@.n_of_potency_runes,
            r@.n_of_striking_runes == source_weapon@.n_of_striking_runes,
            r@.property_runes == source_weapon@.property_runes,
            r@.range == source_weapon@.range,
            r@.reload == source_weapon@.reload,
            r@.weapon_type == source_weapon@.weapon_type,
            r@.attack_effects == effect_actions(views(creature_actions@), source_weapon@.attack_effects),
    {
        let ghost av = views(creature_actions@);
        let ghost slugs = source_weapon@.attack_effects;
        let mut attack_effects: Vec<Action> = Vec::new();
        let mut i: usize = 0;
        assert(views(attack_effects@) =~= Seq::<ActionView>::empty());
        assert(slugs.subrange(0, 0) =~= Seq::<Seq<char>>::empty());
        while i < source_weapon.attack_effects.len()
            invariant
                i <= source_weapon.attack_effects@.len(),
                av == views(creature_actions@),
                slugs == strings_view(source_weapon.attack_effects@),
                views(attack_effects@) == effect_actions(av, slugs.subrange(0, i as int)),
            decreases source_weapon.attack_effects@.len() - i,
        {
            let slug = source_weapon.attack_effects[i].as_str();
            let ghost next = slugs.subrange(0, i + 1);
            assert(next.drop_last() =~= slugs.subrange(0, i as int));
            assert(next.last() == slug@);
            proof {
                lemma_first_index_bound(av, has_slug(slug@));
                lemma_first_index_bound(av, has_name(slug_name(slug@)));
            }
            let found = match slug_index(creature_actions, slug) {
                Some(k) => {
                    assert(first_index(av, has_slug(slug@)) == Some(k as int));
                    assert(effect_action(av, slug@) == Some(av[k as int]));
                    Some(k)
                },
                None => {
                    let title = slug_title(slug);
                    let n = name_index(creature_actions, title.as_str());
                    assert(first_index(av, has_slug(slug@)) is None);
                    assert(match n {
                        Some(k) => effect_action(av, slug@) == Some(av[k as int]),
                        None => effect_action(av, slug@) is None,
                    });
                    n
                },
            };
            assert(match found {
                Some(k) => k < av.len() && effect_action(av, slug@) == Some(av[k as int]),
                None => effect_action(av, slug@) is None,
            });
            assert(effect_actions(av, next) == match effect_action(av, slug@) {
                Some(a) => effect_actions(av, slugs.subrange(0, i as int)).push(a),
                None => effect_actions(av, slugs.subrange(0, i as int)),
            });
            match found {
                Some(k) => {
                    let a = creature_actions[k].copy();
                    let ghost before = attack_effects@;
                    attack_effects.push(a);
                    assert(views(attack_effects@) =~= views(before).push(av[k as int]));
                },
                None => {},
            }
            i = i + 1;
        }
        assert(slugs.subrange(0, slugs.len() as int) =~= slugs);
        BybeWeapon {
            item_core: source_weapon.item_core,
            to_hit_bonus: source_weapon.to_hit_bonus,
            damage_data: source_weapon.damage_data,
            splash_dmg: source_weapon.splash_dmg,
            n_of_potency_runes: source_weapon.n_of_potency_runes,
            n_of_striking_runes: source_weapon.n_of_striking_runes,
            property_runes: source_weapon.property_runes,
            range: source_weapon.range,
            reload: source_weapon.reload,
            weapon_type: source_weapon.weapon_type,
            attack_effects,
        }
    }
}

/// Law: a weapon's potency and striking runes are read from their own
/// members: the integers at `system.runes.potency` and
/// `system.runes.striking` (0 where there is no integer); its attack bonus
/// and splash damage are the integers at `system.bonus.value` and
/// `splashDamage.value`, where there are any.
pub proof fn law_weapon_runes_from_their_members(j: JsonV, is_derived: bool)
    ensures
        SourceWeapon::spec_try_from(j, is_derived) matches Ok(w) ==> {
            let runes = j.field("system"@).field("runes"@);
            &&& w.n_of_potency_runes == (match runes.field("potency"@).as_i64() {
                Some(n) => n,
                None => 0,
            })
            &&& w.n_of_striking_runes == (match runes.field("striking"@).as_i64() {
                Some(n) => n,
                None => 0,
            })
            &&& w.to_hit_bonus == j.field("system"@).field("bonus"@).field("value"@).as_i64()
            &&& w.splash_dmg == j.field("splashDamage"@).field("value"@).as_i64()
        },
{
}

} // verus!
