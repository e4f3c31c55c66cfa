use bybe_db::schema::bybe_item::{BybeArmor, BybeItem, BybeItemParsingError, BybeShield, BybeWeapon, SourceWeapon, WeaponDamageData};
use bybe_db::schema::bybe_metadata_enum::{RarityEnum, SizeEnum};
use bybe_db::schema::source_schema::creature::item::action::Action;
use bybe_db::schema::source_schema::item::source_item::SourceItemParsingError;
use bybe_db::schema::status::Status;
use bybe_db::json::Json;

fn to_json(v: &serde_json::Value) -> Json {
    match v {
        serde_json::Value::Null => Json::Null,
        serde_json::Value::Bool(b) => Json::Bool(*b),
        serde_json::Value::Number(n) => match n.as_i64() {
            Some(i) => Json::Int(i),
            None => Json::Decimal(n.to_string()),
        },
        serde_json::Value::String(s) => Json::Str(s.clone()),
        serde_json::Value::Array(a) => Json::Array(a.iter().map(to_json).collect()),
        serde_json::Value::Object(o) => Json::Object(o.iter().map(|(k, v)| (k.clone(), to_json(v))).collect()),
    }
}

fn json(text: &str) -> Json {
    to_json(&serde_json::from_str(text).unwrap())
}

fn item_record(kind: &str, extra_system: &str) -> String {
    format!(
        r#"{{
        "_id": "abc123",
        "name": "Rope",
        "type": "{kind}",
        "system": {{
            {extra_system}
            "bulk": {{"value": 0.1}},
            "quantity": 2,
            "description": {{"value": "A coil of rope."}},
            "hardness": 3,
            "hp": {{"max": 6, "value": 6}},
            "level": {{"value": 1}},
            "price": {{"value": {{"gp": 1, "sp": 5}}}},
            "publication": {{"license": "ORC", "remaster": true, "title": "Player Core"}},
            "traits": {{"rarity": "uncommon", "size": {{"value": "sm"}}, "value": ["magical", 3]}},
            "usage": {{"value": "held-in-one-hand"}},
            "material": {{"grade": null, "type": null}}
        }}
    }}"#
    )
}

#[test]
fn equipment_becomes_an_item() {
    let item = BybeItem::try_from(&json(&item_record("Equipment", "")), false).unwrap();
    assert_eq!(item.name, "Rope");
    assert_eq!(item.foundry_id, "abc123");
    assert_eq!(item.quantity, 2);
    assert_eq!(item.price, 150);
    assert_eq!(item.hp, 6);
    assert_eq!(item.level, 1);
    assert_eq!(item.item_type, "EQUIPMENT");
    assert_eq!(item.rarity, RarityEnum::Uncommon);
    assert_eq!(item.size, SizeEnum::Small);
    assert_eq!(item.traits, vec!["magical".to_string()]);
    assert_eq!(item.usage.as_deref(), Some("held-in-one-hand"));
    assert_eq!(item.license, "ORC");
    assert!(item.remaster);
    assert_eq!(item.status, Status::Valid);
    assert!(matches!(item.bulk, bybe_db::json::Json::Decimal(_)));
}

#[test]
fn other_kinds_are_not_items() {
    let r = BybeItem::try_from(&json(&item_record("armor", "")), false);
    assert!(matches!(r, Err(BybeItemParsingError::UnsupportedItemType)));
    let r = BybeItem::try_from(&json(r#"{"name": "x"}"#), false);
    assert!(matches!(r, Err(BybeItemParsingError::MissingItemType)));
}

#[test]
fn item_without_publication_is_an_error() {
    let r = BybeItem::try_from(&json(r#"{"type": "consumable", "name": "Potion", "system": {"hp": {"value": 1}}}"#), false);
    assert!(matches!(r, Err(BybeItemParsingError::SourceItemError(SourceItemParsingError::PublicationError(_)))));
}

#[test]
fn embedded_descriptions_are_deprecated() {
    let text = item_record("equipment", "").replace("A coil of rope.", "@Embed[Item.xyz]");
    let item = BybeItem::try_from(&json(&text), false).unwrap();
    assert_eq!(item.status, Status::Deprecated);
}

#[test]
fn armor_reads_its_bonuses_and_runes() {
    let text = item_record(
        "armor",
        r#""acBonus": 4, "checkPenalty": -2, "dexCap": 1, "speedPenalty": -5, "strength": 3,
           "runes": {"potency": 1, "resilient": 2, "property": ["fortification"]},"#,
    );
    let armor = BybeArmor::try_from(&json(&text), true).unwrap();
    assert_eq!(armor.ac_bonus, 4);
    assert_eq!(armor.check_penalty, -2);
    assert_eq!(armor.dex_cap, 1);
    assert_eq!(armor.speed_penalty, -5);
    assert_eq!(armor.strength_required, Some(3));
    assert_eq!(armor.n_of_potency_runes, 1);
    assert_eq!(armor.n_of_resilient_runes, 2);
    assert_eq!(armor.property_runes, vec!["fortification".to_string()]);
    assert!(armor.item_core.is_derived);
}

#[test]
fn armor_without_ac_bonus_is_an_error() {
    let text = item_record("armor", r#""checkPenalty": 0, "dexCap": 1, "speedPenalty": 0, "runes": {"property": []},"#);
    assert!(matches!(BybeArmor::try_from(&json(&text), false), Err(BybeItemParsingError::AcBonus)));
    let text = item_record("armor", r#""acBonus": 1, "checkPenalty": 0, "dexCap": 1, "speedPenalty": 0, "runes": {}, "#);
    assert!(matches!(BybeArmor::try_from(&json(&text), false), Err(BybeItemParsingError::PropertyRunes)));
    assert!(matches!(BybeArmor::try_from(&json(&item_record("shield", "")), false), Err(BybeItemParsingError::InvalidItemType)));
}

#[test]
fn shield_reads_its_bonuses() {
    let text = item_record("shield", r#""acBonus": 2, "speedPenalty": 0,"#);
    let shield = BybeShield::try_from(&json(&text), false).unwrap();
    assert_eq!(shield.ac_bonus, 2);
    assert_eq!(shield.speed_penalty, 0);
    assert_eq!(shield.n_of_reinforcing_runes, 0);
}

#[test]
fn damage_formulas_are_cut_into_dice_and_bonus() {
    let d = WeaponDamageData::try_from(&json(r#"{"damage": "2d6+4", "damageType": "slashing"}"#)).unwrap();
    assert_eq!((d.n_of_dice, d.die_size, d.bonus_dmg), (Some(2), Some(6), 4));
    assert_eq!(d.dmg_type.as_deref(), Some("slashing"));
    let d = WeaponDamageData::try_from(&json(r#"{"damage": "1d4-1"}"#)).unwrap();
    assert_eq!((d.n_of_dice, d.die_size, d.bonus_dmg), (Some(1), Some(4), -1));
    let d = WeaponDamageData::try_from(&json(r#"{"damage": "3"}"#)).unwrap();
    assert_eq!((d.n_of_dice, d.die_size, d.bonus_dmg), (Some(3), Some(1), 0));
    let d = WeaponDamageData::try_from(&json(r#"{"damage": " 2 d 8 + 1 "}"#)).unwrap();
    assert_eq!((d.n_of_dice, d.die_size, d.bonus_dmg), (Some(2), Some(8), 1));
    assert!(matches!(WeaponDamageData::try_from(&json(r#"{"damage": 3}"#)), Err(BybeItemParsingError::InvalidItemType)));
}

#[test]
fn weapon_damage_lists() {
    let v = WeaponDamageData::init_vec_from_json(&json(r#"{"damage": {"damageType": "piercing", "dice": 1, "die": "d8"}}"#));
    assert_eq!(v.len(), 1);
    assert_eq!((v[0].n_of_dice, v[0].die_size, v[0].bonus_dmg), (Some(1), Some(8), 0));
    let v = WeaponDamageData::init_vec_from_json(&json(
        r#"{"damageRolls": {"a": {"damage": "1d6", "damageType": "fire"}, "b": {"nothing": 1}, "c": {"damage": "2d4+1"}}}"#,
    ));
    assert_eq!(v.len(), 2);
    assert_eq!(v[0].dmg_type.as_deref(), Some("fire"));
    assert_eq!(v[1].bonus_dmg, 1);
    let v = WeaponDamageData::init_vec_from_json(&json(r#"{"bonusDamage": {"value": 3}}"#));
    assert_eq!(v.len(), 1);
    assert_eq!((v[0].n_of_dice, v[0].die_size, v[0].bonus_dmg), (None, None, 3));
}

fn strike(range: &str, extra: &str) -> String {
    item_record(
        "melee",
        &format!(r#""range": {range}, "weaponType": {{"value": ""}}, "damageRolls": {{"x": {{"damage": "1d6"}}}}, {extra}"#),
    )
}

#[test]
fn strikes_with_a_range_are_ranged() {
    let w = SourceWeapon::try_from(&json(&strike("\"30 feet\"", "")), true).unwrap();
    assert_eq!(w.weapon_type, "RANGED");
    let w = SourceWeapon::try_from(&json(&strike("null", "")), true).unwrap();
    assert_eq!(w.weapon_type, "MELEE");
    let w = SourceWeapon::try_from(&json(&strike("{\"increment\": 10}", "")), true).unwrap();
    assert_eq!(w.weapon_type, "RANGED");
    let w = SourceWeapon::try_from(&json(&strike("0", "")), true).unwrap();
    assert_eq!(w.weapon_type, "MELEE");
    assert_eq!(w.item_core.item_type, "WEAPON");
}

#[test]
fn weapons_name_their_own_kind() {
    let text = item_record("weapon", r#""weaponType": {"value": "Martial"}, "runes": {"potency": 1, "striking": 1, "property": {"0": "flaming"}},"#);
    let w = SourceWeapon::try_from(&json(&text), false).unwrap();
    assert_eq!(w.weapon_type, "MARTIAL");
    assert_eq!(w.n_of_potency_runes, 1);
    assert_eq!(w.property_runes, vec!["flaming".to_string()]);
    let generic = item_record("weapon", "");
    assert_eq!(SourceWeapon::try_from(&json(&generic), false).unwrap().weapon_type, "GENERIC");
}

#[test]
fn unreadable_range_digits_stop_the_reading() {
    let text = strike("\"\u{0663}0 feet\"", "");
    assert!(SourceWeapon::stops_on(&json(&text)));
    assert!(SourceWeapon::try_from_checked(&json(&text), true).is_none());
    let text = strike("\"99999999999 feet\"", "");
    assert!(SourceWeapon::try_from_checked(&json(&text), true).is_none());
    let ok = strike("\"20 feet\"", "");
    assert!(matches!(SourceWeapon::try_from_checked(&json(&ok), true), Some(Ok(_))));
}

fn action(name: &str, slug: Option<&str>) -> Action {
    let slug_part = match slug {
        Some(s) => format!(r#""slug": "{s}","#),
        None => String::new(),
    };
    let text = format!(
        r#"{{"name": "{name}", "system": {{ {slug_part}
            "actionType": {{"value": "action"}}, "description": {{"value": "d"}},
            "publication": {{"license": "ORC", "remaster": true, "title": "t"}},
            "traits": {{"rarity": "common", "value": []}} }} }}"#
    );
    Action::try_from(&json(&text)).unwrap()
}

#[test]
fn attack_effects_are_found_by_slug_then_by_name() {
    let text = item_record("melee", r#""attackEffects": {"value": ["grab", "improved-knockdown", "missing"]},"#);
    let w = SourceWeapon::try_from(&json(&text), true).unwrap();
    let actions = vec![action("Improved Knockdown", None), action("Grab", Some("grab"))];
    let b = BybeWeapon::new(w, &actions);
    let names: Vec<&str> = b.attack_effects.iter().map(|a| a.name.as_str()).collect();
    assert_eq!(names, vec!["Grab", "Improved Knockdown"]);
    let w = SourceWeapon::try_from(&json(&text), true).unwrap();
    assert!(BybeWeapon::from(w).attack_effects.is_empty());
}
