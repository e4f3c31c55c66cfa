//! The records of a data set, kept where they parse; a record of another kind
//! is skipped, and any other error stops the reading (the records are data the
//! project ships, so such an error is a fault in them).
use crate::game_system::GameSystem;
use crate::json::{Json, JsonV};
use crate::text::str_eq;
use crate::model::{keep_ok, views};
use crate::schema::bybe_condition::{BybeCondition, BybeConditionParsingError, BybeConditionView};
use crate::schema::bybe_creature::{BybeCreature, BybeCreatureParsingError, BybeCreatureView};
use crate::schema::bybe_hazard::{BybeHazard, BybeHazardParsingError, BybeHazardView};
use crate::schema::source_schema::hazard::source_hazard::SourceHazardParsingError;
use crate::schema::bybe_item::{
    price_overflows, price_overflows_exec, read_lower_type, typed_as, BybeArmor, BybeArmorView, BybeItem, BybeItemParsingError, BybeItemView, BybeShield,
    BybeShieldView, BybeWeapon, BybeWeaponView, SourceWeapon,
};
use crate::schema::source_schema::creature::item::items::plain_weapon;
use crate::schema::source_schema::creature::source_creature::{SourceCreature, SourceCreatureParsingError};
use crate::schema::source_schema::source_condition::SourceCondition;
use vstd::prelude::*;

verus! {

/// An item error that only says the record is of another kind.
pub open spec fn other_kind(e: BybeItemParsingError) -> bool {
    e == BybeItemParsingError::InvalidItemType || e == BybeItemParsingError::UnsupportedItemType
}

pub open spec fn item_parser() -> spec_fn(JsonV) -> Result<BybeItemView, BybeItemParsingError> {
    |j: JsonV| BybeItem::spec_try_from(j, false)
}

/// The record reads as an item or is of another kind, and its price does not overflow.
pub open spec fn item_record_fits(j: JsonV) -> bool {
    &&& ((typed_as(j, "equipment"@) || typed_as(j, "consumable"@)) ==> !price_overflows(j))
    &&& match BybeItem::spec_try_from(j, false) {
        Ok(_) => true,
        Err(e) => other_kind(e),
    }
}

/// Tells whether an error only says the record is of another kind.
pub fn is_other_kind(e: &BybeItemParsingError) -> (r: bool)
    ensures
        r == other_kind(*e),
{
    match e {
        BybeItemParsingError::InvalidItemType | BybeItemParsingError::UnsupportedItemType => true,
        _ => false,
    }
}

/// Tells whether the record's type, lower case, is `t`.
fn typed_as_exec(json: &Json, t: &str) -> (r: bool)
    ensures
        r == typed_as(json@, t@),
{
    match read_lower_type(json) {
        Some(k) => str_eq(k.as_str(), t),
        None => false,
    }
}

/// Tells whether the items can be read from the record: where not, reading panics.
pub fn item_record_fits_on(json: &Json) -> (r: bool)
    ensures
        r == item_record_fits(json@),
{
    if (typed_as_exec(json, "equipment") || typed_as_exec(json, "consumable")) && price_overflows_exec(json) {
        return false;
    }
    match BybeItem::try_from(json, false) {
        Ok(_) => true,
        Err(e) => is_other_kind(&e),
    }
}

/// The items among the records.
pub fn deserialize_json_items(records: &Vec<Json>) -> (r: Vec<BybeItem>)
    requires
        forall|i: int| 0 <= i < records@.len() ==> item_record_fits(#[trigger] records@[i]@),
    ensures
        views(r@) == keep_ok(views(records@), item_parser()),
{
    let ghost rv = views(records@);
    let mut out: Vec<BybeItem> = Vec::new();
    let mut i: usize = 0;
    assert(views(out@) =~= Seq::<BybeItemView>::empty());
    assert(rv.subrange(0, 0) =~= Seq::<JsonV>::empty());
    while i < records.len()
        invariant
            i <= records@.len(),
            rv == views(records@),
            forall|k: int| 0 <= k < records@.len() ==> item_record_fits(#[trigger] records@[k]@),
            views(out@) == keep_ok(rv.subrange(0, i as int), item_parser()),
        decreases records@.len() - i,
    {
        let ghost next = rv.subrange(0, i + 1);
        assert(next.drop_last() =~= rv.subrange(0, i as int));
        assert(next.last() == records@[i as int]@);
        assert(item_record_fits(records@[i as int]@));
        match BybeItem::try_from(&records[i], false) {
            Ok(item) => {
                let ghost before = views(out@);
                let ghost iv = item@;
                out.push(item);
                assert(views(out@) =~= before.push(iv));
            },
            Err(_) => {},
        }
        i = i + 1;
    }
    assert(rv.subrange(0, rv.len() as int) =~= rv);
    out
}

pub open spec fn armor_parser() -> spec_fn(JsonV) -> Result<BybeArmorView, BybeItemParsingError> {
    |j: JsonV| BybeArmor::spec_try_from(j, false)
}

pub open spec fn armor_record_fits(j: JsonV) -> bool {
    &&& (typed_as(j, "armor"@) ==> !price_overflows(j))
    &&& match BybeArmor::spec_try_from(j, false) {
        Ok(_) => true,
        Err(e) => other_kind(e),
    }
}

/// Tells whether the armours can be read from the record: where not, reading panics.
pub fn armor_record_fits_on(json: &Json) -> (r: bool)
    ensures
        r == armor_record_fits(json@),
{
    if typed_as_exec(json, "armor") && price_overflows_exec(json) {
        return false;
    }
    match BybeArmor::try_from(json, false) {
        Ok(_) => true,
        Err(e) => is_other_kind(&e),
    }
}

/// The armours among the records.
pub fn deserialize_json_armors(records: &Vec<Json>) -> (r: Vec<BybeArmor>)
    requires
        forall|i: int| 0 <= i < records@.len() ==> armor_record_fits(#[trigger] records@[i]@),
    ensures
        views(r@) == keep_ok(views(records@), armor_parser()),
{
    let ghost rv = views(records@);
    let mut out: Vec<BybeArmor> = Vec::new();
    let mut i: usize = 0;
    assert(views(out@) =~= Seq::<BybeArmorView>::empty());
    assert(rv.subrange(0, 0) =~= Seq::<JsonV>::empty());
    while i < records.len()
        invariant
            i <= records@.len(),
            rv == views(records@),
            forall|k: int| 0 <= k < records@.len() ==> armor_record_fits(#[trigger] records@[k]@),
            views(out@) == keep_ok(rv.subrange(0, i as int), armor_parser()),
        decreases records@.len() - i,
    {
        let ghost next = rv.subrange(0, i + 1);
        assert(next.drop_last() =~= rv.subrange(0, i as int));
        assert(next.last() == records@[i as int]@);
        assert(armor_record_fits(records@[i as int]@));
        match BybeArmor::try_from(&records[i], false) {
            Ok(item) => {
                let ghost before = views(out@);
                let ghost iv = item@;
                out.push(item);
                assert(views(out@) =~= before.push(iv));
            },
            Err(_) => {},
        }
        i = i + 1;
    }
    assert(rv.subrange(0, rv.len() as int) =~= rv);
    out
}

pub open spec fn shield_parser() -> spec_fn(JsonV) -> Result<BybeShieldView, BybeItemParsingError> {
    |j: JsonV| BybeShield::spec_try_from(j, false)
}

pub open spec fn shield_record_fits(j: JsonV) -> bool {
    &&& (typed_as(j, "shield"@) ==> !price_overflows(j))
    &&& match BybeShield::spec_try_from(j, false) {
        Ok(_) => true,
        Err(e) => other_kind(e),
    }
}

/// Tells whether the shields can be read from the record: where not, reading panics.
pub fn shield_record_fits_on(json: &Json) -> (r: bool)
    ensures
        r == shield_record_fits(json@),
{
    if typed_as_exec(json, "shield") && price_overflows_exec(json) {
        return false;
    }
    match BybeShield::try_from(json, false) {
        Ok(_) => true,
        Err(e) => is_other_kind(&e),
    }
}

/// The shields among the records.
pub fn deserialize_json_shields(records: &Vec<Json>) -> (r: Vec<BybeShield>)
    requires
        forall|i: int| 0 <= i < records@.len() ==> shield_record_fits(#[trigger] records@[i]@),
    ensures
        views(r@) == keep_ok(views(records@), shield_parser()),
{
    let ghost rv = views(records@);
    let mut out: Vec<BybeShield> = Vec::new();
    let mut i: usize = 0;
    assert(views(out@) =~= Seq::<BybeShieldView>::empty());
    assert(rv.subrange(0, 0) =~= Seq::<JsonV>::empty());
    while i < records.len()
        invariant
            i <= records@.len(),
            rv == views(records@),
            forall|k: int| 0 <= k < records@.len() ==> shield_record_fits(#[trigger] records@[k]@),
            views(out@) == keep_ok(rv.subrange(0, i as int), shield_parser()),
        decreases records@.len() - i,
    {
        let ghost next = rv.subrange(0, i + 1);
        assert(next.drop_last() =~= rv.subrange(0, i as int));
        assert(next.last() == records@[i as int]@);
        assert(shield_record_fits(records@[i as int]@));
        match BybeShield::try_from(&records[i], false) {
            Ok(item) => {
                let ghost before = views(out@);
                let ghost iv = item@;
                out.push(item);
                assert(views(out@) =~= before.push(iv));
            },
            Err(_) => {},
        }
        i = i + 1;
    }
    assert(rv.subrange(0, rv.len() as int) =~= rv);
    out
}

/// The weapon that a weapon record gives, without attack effects.
pub open spec fn weapon_parser() -> spec_fn(JsonV) -> Result<BybeWeaponView, BybeItemParsingError> {
    |j: JsonV| match SourceWeapon::spec_try_from(j, false) {
        Ok(w) => Ok(plain_weapon(w)),
        Err(e) => Err(e),
    }
}

pub open spec fn weapon_record_fits(j: JsonV) -> bool {
    &&& !SourceWeapon::stops(j)
    &&& match SourceWeapon::spec_try_from(j, false) {
        Ok(_) => true,
        Err(e) => other_kind(e),
    }
}

/// Tells whether the weapons can be read from the record: where not, reading panics.
pub fn weapon_record_fits_on(json: &Json) -> (r: bool)
    ensures
        r == weapon_record_fits(json@),
{
    match SourceWeapon::try_from_checked(json, false) {
        None => false,
        Some(Ok(_)) => true,
        Some(Err(e)) => is_other_kind(&e),
    }
}

/// The weapons among the records.
pub fn deserialize_json_weapons(records: &Vec<Json>) -> (r: Vec<BybeWeapon>)
    requires
        forall|i: int| 0 <= i < records@.len() ==> weapon_record_fits(#[trigger] records@[i]@),
    ensures
        views(r@) == keep_ok(views(records@), weapon_parser()),
{
    let ghost rv = views(records@);
    let mut out: Vec<BybeWeapon> = Vec::new();
    let mut i: usize = 0;
    assert(views(out@) =~= Seq::<BybeWeaponView>::empty());
    assert(rv.subrange(0, 0) =~= Seq::<JsonV>::empty());
    while i < records.len()
        invariant
            i <= records@.len(),
            rv == views(records@),
            forall|k: int| 0 <= k < records@.len() ==> weapon_record_fits(#[trigger] records@[k]@),
            views(out@) == keep_ok(rv.subrange(0, i as int), weapon_parser()),
        decreases records@.len() - i,
    {
        let ghost next = rv.subrange(0, i + 1);
        assert(next.drop_last() =~= rv.subrange(0, i as int));
        assert(next.last() == records@[i as int]@);
        assert(weapon_record_fits(records@[i as int]@));
        match SourceWeapon::try_from(&records[i], false) {
            Ok(w) => {
                let ghost wv = w@;
                let b = BybeWeapon::from(w);
                let ghost before = views(out@);
                assert(b@ == plain_weapon(wv));
                out.push(b);
                assert(views(out@) =~= before.push(plain_weapon(wv)));
            },
            Err(_) => {},
        }
        i = i + 1;
    }
    assert(rv.subrange(0, rv.len() as int) =~= rv);
    out
}

pub open spec fn creature_parser() -> spec_fn(JsonV) -> Result<BybeCreatureView, BybeCreatureParsingError> {
    |j: JsonV| BybeCreature::spec_try_from(j)
}

/// The record reads as a creature, or is a variant or of another kind.
pub open spec fn creature_record_fits(j: JsonV) -> bool {
    &&& !SourceCreature::stops(j)
    &&& match BybeCreature::spec_try_from(j) {
        Ok(_) => true,
        Err(BybeCreatureParsingError::SourceCreatureError(e)) => e == SourceCreatureParsingError::DuplicatedCreature
            || e == SourceCreatureParsingError::InvalidCreatureType,
    }
}

/// Tells whether the creatures can be read from the record: where not, reading panics.
pub fn creature_record_fits_on(json: &Json) -> (r: bool)
    ensures
        r == creature_record_fits(json@),
{
    match BybeCreature::try_from_checked(json) {
        None => false,
        Some(Ok(_)) => true,
        Some(Err(BybeCreatureParsingError::SourceCreatureError(e))) => match e {
            SourceCreatureParsingError::DuplicatedCreature | SourceCreatureParsingError::InvalidCreatureType => true,
            _ => false,
        },
    }
}

/// The creatures among the records.
pub fn deserialize_json_creatures(records: &Vec<Json>) -> (r: Vec<BybeCreature>)
    requires
        forall|i: int| 0 <= i < records@.len() ==> creature_record_fits(#[trigger] records@[i]@),
    ensures
        views(r@) == keep_ok(views(records@), creature_parser()),
{
    let ghost rv = views(records@);
    let mut out: Vec<BybeCreature> = Vec::new();
    let mut i: usize = 0;
    assert(views(out@) =~= Seq::<BybeCreatureView>::empty());
    assert(rv.subrange(0, 0) =~= Seq::<JsonV>::empty());
    while i < records.len()
        invariant
            i <= records@.len(),
            rv == views(records@),
            forall|k: int| 0 <= k < records@.len() ==> creature_record_fits(#[trigger] records@[k]@),
            views(out@) == keep_ok(rv.subrange(0, i as int), creature_parser()),
        decreases records@.len() - i,
    {
        let ghost next = rv.subrange(0, i + 1);
        assert(next.drop_last() =~= rv.subrange(0, i as int));
        assert(next.last() == records@[i as int]@);
        assert(creature_record_fits(records@[i as int]@));
        match BybeCreature::try_from(&records[i]) {
            Ok(c) => {
                let ghost before = views(out@);
                let ghost cv = c@;
                out.push(c);
                assert(views(out@) =~= before.push(cv));
            },
            Err(_) => {},
        }
        i = i + 1;
    }
    assert(rv.subrange(0, rv.len() as int) =~= rv);
    out
}

pub open spec fn condition_parser(gs: GameSystem, lang: JsonV, sf2e: JsonV) -> spec_fn(JsonV) -> Result<BybeConditionView, BybeConditionParsingError> {
    |j: JsonV| BybeCondition::spec_try_from(j, gs, lang, sf2e)
}

/// The record reads as a condition or is of another kind.
pub open spec fn condition_record_fits(j: JsonV, gs: GameSystem, lang: JsonV, sf2e: JsonV) -> bool {
    &&& (BybeCondition::is_condition(j) ==> !SourceCondition::stops(j))
    &&& match BybeCondition::spec_try_from(j, gs, lang, sf2e) {
        Ok(_) => true,
        Err(e) => e == BybeConditionParsingError::UnsupportedConditionType,
    }
}

/// Tells whether the conditions can be read from the record: where not, reading panics.
pub fn condition_record_fits_on(json: &Json, gs: GameSystem, lang: &Json, sf2e: &Json) -> (r: bool)
    ensures
        r == condition_record_fits(json@, gs, lang@, sf2e@),
{
    match BybeCondition::try_from_checked(json, gs, lang, sf2e) {
        None => false,
        Some(Ok(_)) => true,
        Some(Err(e)) => match e {
            BybeConditionParsingError::UnsupportedConditionType => true,
            _ => false,
        },
    }
}

/// The conditions among the records.
pub fn deserialize_json_conditions(records: &Vec<Json>, gs: GameSystem, lang: &Json, sf2e: &Json) -> (r: Vec<BybeCondition>)
    requires
        forall|i: int| 0 <= i < records@.len() ==> condition_record_fits(#[trigger] records@[i]@, gs, lang@, sf2e@),
    ensures
        views(r@) == keep_ok(views(records@), condition_parser(gs, lang@, sf2e@)),
{
    let ghost rv = views(records@);
    let mut out: Vec<BybeCondition> = Vec::new();
    let mut i: usize = 0;
    assert(views(out@) =~= Seq::<BybeConditionView>::empty());
    assert(rv.subrange(0, 0) =~= Seq::<JsonV>::empty());
    while i < records.len()
        invariant
            i <= records@.len(),
            rv == views(records@),
            forall|k: int| 0 <= k < records@.len() ==> condition_record_fits(#[trigger] records@[k]@, gs, lang@, sf2e@),
            views(out@) == keep_ok(rv.subrange(0, i as int), condition_parser(gs, lang@, sf2e@)),
        decreases records@.len() - i,
    {
        let ghost next = rv.subrange(0, i + 1);
        assert(next.drop_last() =~= rv.subrange(0, i as int));
        assert(next.last() == records@[i as int]@);
        assert(condition_record_fits(records@[i as int]@, gs, lang@, sf2e@));
        match BybeCondition::try_from(&records[i], gs, lang, sf2e) {
            Ok(c) => {
                let ghost before = views(out@);
                let ghost cv = c@;
                out.push(c);
                assert(views(out@) =~= before.push(cv));
            },
            Err(_) => {},
        }
        i = i + 1;
    }
    assert(rv.subrange(0, rv.len() as int) =~= rv);
    out
}

pub open spec fn hazard_parser() -> spec_fn(JsonV) -> Result<BybeHazardView, BybeHazardParsingError> {
    |j: JsonV| BybeHazard::spec_try_from(j)
}

/// The record reads as a hazard or is of another kind.
pub open spec fn hazard_record_fits(j: JsonV) -> bool {
    &&& !BybeHazard::stops(j)
    &&& match BybeHazard::spec_try_from(j) {
        Ok(_) => true,
        Err(BybeHazardParsingError::SourceHazardError(e)) => e == SourceHazardParsingError::InvalidHazardType
            || e == SourceHazardParsingError::HazardTypeFormat,
    }
}

/// Tells whether the hazards can be read from the record: where not, reading panics.
pub fn hazard_record_fits_on(json: &Json) -> (r: bool)
    ensures
        r == hazard_record_fits(json@),
{
    match BybeHazard::try_from_checked(json) {
        None => false,
        Some(Ok(_)) => true,
        Some(Err(BybeHazardParsingError::SourceHazardError(e))) => match e {
            SourceHazardParsingError::InvalidHazardType | SourceHazardParsingError::HazardTypeFormat => true,
            _ => false,
        },
    }
}

/// The hazards among the records.
pub fn deserialize_json_hazards(records: &Vec<Json>) -> (r: Vec<BybeHazard>)
    requires
        forall|i: int| 0 <= i < records@.len() ==> hazard_record_fits(#[trigger] records@[i]@),
    ensures
        views(r@) == keep_ok(views(records@), hazard_parser()),
{
    let ghost rv = views(records@);
    let mut out: Vec<BybeHazard> = Vec::new();
    let mut i: usize = 0;
    assert(views(out@) =~= Seq::<BybeHazardView>::empty());
    assert(rv.subrange(0, 0) =~= Seq::<JsonV>::empty());
    while i < records.len()
        invariant
            i <= records@.len(),
            rv == views(records@),
            forall|k: int| 0 <= k < records@.len() ==> hazard_record_fits(#[trigger] records@[k]@),
            views(out@) == keep_ok(rv.subrange(0, i as int), hazard_parser()),
        decreases records@.len() - i,
    {
        let ghost next = rv.subrange(0, i + 1);
        assert(next.drop_last() =~= rv.subrange(0, i as int));
        assert(next.last() == records@[i as int]@);
        assert(hazard_record_fits(records@[i as int]@));
        match BybeHazard::try_from(&records[i]) {
            Ok(h) => {
                let ghost before = views(out@);
                let ghost hv = h@;
                out.push(h);
                assert(views(out@) =~= before.push(hv));
            },
            Err(_) => {},
        }
        i = i + 1;
    }
    assert(rv.subrange(0, rv.len() as int) =~= rv);
    out
}

} // verus!
