use bybe_db::collect::{
    condition_record_fits_on, creature_record_fits_on, deserialize_json_conditions, deserialize_json_creatures, deserialize_json_hazards,
    deserialize_json_items, deserialize_json_weapons, hazard_record_fits_on, item_record_fits_on,
};
use bybe_db::game_system::GameSystem;
use bybe_db::localize::localized_text;
use bybe_db::localize::trait_table::parse_ts_traits;
use bybe_db::schema::bybe_condition::{get_condition_field, starfinder_conditions, BybeCondition, BybeConditionParsingError};
use bybe_db::schema::bybe_hazard::{BybeHazard, BybeHazardParsingError};
use bybe_db::schema::source_schema::hazard::source_hazard::SourceHazardParsingError;
use bybe_db::schema::bybe_trait::{fetch_clean_trait_string, Trait, TraitLookupError};
use bybe_db::schema::foundry_schema::creature::saves::RawSaves;
use bybe_db::schema::source_schema::creature::item::spell::Spell;
use bybe_db::schema::source_schema::creature::item::spell_casting_entry::{RawSpellCastingEntry, SpellCastingEntry};
use bybe_db::schema::source_schema::creature::item::weapon::Weapon;
use bybe_db::json::Json;

fn to_json(v: &serde_json::Value) -> Json {
    match v {
        serde_json::Value::Null => Json::Null,
        serde_json::Value::Bool(b) => Json::Bool(*b),
        serde_json::Value::Number(n) => match n.as_i64() {
            Some(i) => Json::Int(i),
            None => Json::Decimal(n.to_string()),
        },
        serde_json::Value::String(s) => Json::Str(s.clone()),
        serde_json::Value::Array(a) => Json::Array(a.iter().map(to_json).collect()),
        serde_json::Value::Object(o) => Json::Object(o.iter().map(|(k, v)| (k.clone(), to_json(v))).collect()),
    }
}

fn json(text: &str) -> Json {
    to_json(&serde_json::from_str(text).unwrap())
}

const LANG: &str = r#"{"PF2E": {"TraitFire": "Fire", "TraitDescriptionFire": "Burns.",
    "condition": {"blinded": {"rule": "You can't see.", "summary": "Blind"}}}}"#;
const SF2E: &str = r#"{"PF2E": {"TraitFire": "Plasma", "condition": {"blinded": {"rule": "Sensors down."}}}}"#;
const TRAITS_TS: &str = r#"
    const traitDescriptions = { fire: "PF2E.TraitDescriptionFire", ice: "PF2E.TraitDescriptionIce" };
    const damageTraits = { fire: "PF2E.TraitFire" };
"#;

#[test]
fn trait_texts_come_from_the_game_system_in_effect() {
    let table = parse_ts_traits(TRAITS_TS);
    let (lang, sf2e) = (json(LANG), json(SF2E));
    assert_eq!(fetch_clean_trait_string("fire", "trait", GameSystem::Pathfinder, &table, &lang, &sf2e), Ok("Fire".to_string()));
    assert_eq!(fetch_clean_trait_string("fire", "trait", GameSystem::Starfinder, &table, &lang, &sf2e), Ok("Plasma".to_string()));
    assert_eq!(fetch_clean_trait_string("fire", "description", GameSystem::Starfinder, &table, &lang, &sf2e), Ok("Burns.".to_string()));
    assert_eq!(fetch_clean_trait_string("ice", "description", GameSystem::Pathfinder, &table, &lang, &sf2e), Err(TraitLookupError::NoData));
    assert_eq!(fetch_clean_trait_string("wood", "trait", GameSystem::Pathfinder, &table, &lang, &sf2e), Err(TraitLookupError::NoTrait));
    let t = Trait::new("fire", GameSystem::Pathfinder, &table, &lang, &sf2e);
    assert_eq!(t.name, "fire");
    assert_eq!(t.display_name.as_deref(), Some("Fire"));
    assert_eq!(t.description.as_deref(), Some("Burns."));
    let t = Trait::new("ice", GameSystem::Pathfinder, &table, &lang, &sf2e);
    assert_eq!(t.display_name, None);
    assert_eq!(t.description, None);
}

#[test]
fn localized_texts_prefer_starfinder_overrides() {
    let (lang, sf2e) = (json(LANG), json(SF2E));
    assert_eq!(localized_text("PF2E.TraitFire", GameSystem::Starfinder, &lang, &sf2e).as_deref(), Some("Plasma"));
    assert_eq!(localized_text("PF2E.TraitFire", GameSystem::Pathfinder, &lang, &sf2e).as_deref(), Some("Fire"));
    assert_eq!(localized_text("PF2E.TraitDescriptionFire", GameSystem::Starfinder, &lang, &sf2e).as_deref(), Some("Burns."));
    assert_eq!(localized_text("PF2E.Nothing", GameSystem::Starfinder, &lang, &sf2e), None);
}

fn condition_record(name: &str) -> String {
    format!(
        r#"{{"_id": "c1", "name": "{name}", "type": "condition",
        "system": {{"publication": {{"license": "ORC", "remaster": true, "title": "Player Core"}},
            "description": {{"value": "fallback"}}, "overrides": ["Dazzled"], "duration": {{"perpetual": true}},
            "value": {{"isValued": false, "value": null}}, "group": "senses"}}}}"#
    )
}

#[test]
fn conditions_take_their_texts_from_the_language_files() {
    let (lang, sf2e) = (json(LANG), json(SF2E));
    let c = BybeCondition::try_from(&json(&condition_record("Blinded")), GameSystem::Pathfinder, &lang, &sf2e).unwrap();
    assert_eq!(c.name, "blinded");
    assert_eq!(c.rule.to_string(), "You can't see.");
    assert_eq!(c.summary.as_ref().map(|d| d.to_string()).as_deref(), Some("Blind"));
    assert!(c.note.is_none());
    assert_eq!(c.overrides, vec!["dazzled".to_string()]);
    assert!(c.is_perpetual);
    let sf = BybeCondition::try_from(&json(&condition_record("Blinded")), GameSystem::Starfinder, &lang, &sf2e).unwrap();
    assert_eq!(sf.rule.to_string(), "Sensors down.");
    let other = BybeCondition::try_from(&json(&condition_record("Dazed")), GameSystem::Pathfinder, &lang, &sf2e).unwrap();
    assert_eq!(other.rule.to_string(), "fallback");
    assert!(get_condition_field("Dazed", "rule", GameSystem::Pathfinder, &lang, &sf2e).is_err());
    let text = condition_record("Blinded").replacen("\"condition\"", "\"effect\"", 1);
    assert!(matches!(
        BybeCondition::try_from(&json(&text), GameSystem::Pathfinder, &lang, &sf2e),
        Err(BybeConditionParsingError::UnsupportedConditionType)
    ));
}

#[test]
fn starfinder_conditions_replace_pathfinder_ones_of_the_same_name() {
    let (lang, sf2e) = (json(LANG), json(SF2E));
    let pf: Vec<BybeCondition> = ["Blinded", "Dazed"]
        .iter()
        .map(|n| BybeCondition::try_from(&json(&condition_record(n)), GameSystem::Pathfinder, &lang, &sf2e).unwrap())
        .collect();
    let sf = vec![BybeCondition::try_from(&json(&condition_record("Blinded")), GameSystem::Starfinder, &lang, &sf2e).unwrap()];
    let merged = starfinder_conditions(&pf, &sf);
    let names: Vec<&str> = merged.iter().map(|c| c.name.as_str()).collect();
    assert_eq!(names, vec!["dazed", "blinded"]);
    assert_eq!(merged[1].rule.to_string(), "Sensors down.");
}

#[test]
fn data_sets_keep_the_records_of_their_kind() {
    let (lang, sf2e) = (json(LANG), json(SF2E));
    let records = vec![json(&condition_record("Blinded")), json(r#"{"type": "npc", "name": "x"}"#)];
    assert_eq!(deserialize_json_conditions(&records, GameSystem::Pathfinder, &lang, &sf2e).len(), 1);
    assert!(deserialize_json_items(&records).is_empty());
    assert!(deserialize_json_weapons(&records).is_empty());
    let not_creatures = vec![json(r#"{"type": "hazard", "name": "Trap"}"#)];
    assert!(deserialize_json_creatures(&not_creatures).is_empty());
    let not_hazards = vec![json(r#"{"type": "npc", "name": "Goblin"}"#), json(r#"{"name": "untyped"}"#)];
    assert!(deserialize_json_hazards(&not_hazards).is_empty());
}

const HAZARD: &str = r#"{
    "_id": "h1", "name": "Spiked Pit", "type": "hazard",
    "items": [
        {"type": "action", "name": "Impale", "system": {"actionType": {"value": "reaction"}, "description": {"value": "ouch"},
            "publication": {"license": "ORC", "remaster": true, "title": "GM Core"}, "traits": {"rarity": "common", "value": []}}}
    ],
    "system": {
        "attributes": {"ac": {"value": 20}, "hardness": 5, "hp": {"max": 20, "details": "BT 10"},
                       "stealth": {"value": 12, "details": "trained"}, "immunities": [{"type": "critical-hits"}]},
        "details": {"description": "A pit.", "disable": "Thievery DC 20", "isComplex": false, "level": {"value": 2},
                    "publication": {"license": "ORC", "remaster": true, "title": "GM Core"}},
        "saves": {"fortitude": {"value": 10, "saveDetail": ""}, "reflex": {"value": 4, "saveDetail": ""}, "will": {"value": 0, "saveDetail": ""}},
        "traits": {"rarity": "common", "size": {"value": "med"}, "value": ["mechanical", "trap"]}
    }
}"#;

#[test]
fn a_hazard() {
    let h = BybeHazard::try_from(&json(HAZARD)).unwrap();
    assert_eq!(h.name, "Spiked Pit");
    assert_eq!(h.ac_value, Some(20));
    assert_eq!(h.hardness, 5);
    assert_eq!(h.hp, Some(20));
    assert_eq!(h.hp_details.as_deref(), Some("BT 10"));
    assert!(h.has_health);
    assert_eq!(h.stealth, 12);
    assert_eq!(h.stealth_detail.to_string(), "trained");
    assert_eq!(h.immunities, vec!["critical-hits".to_string()]);
    assert_eq!(h.description.to_string(), "A pit.");
    assert_eq!(h.reset_description.to_string(), "");
    assert_eq!(h.level, 2);
    assert_eq!(h.actions.len(), 1);
    assert_eq!(h.traits, vec!["mechanical".to_string(), "trap".to_string()]);
    assert_eq!(deserialize_json_hazards(&vec![json(HAZARD)]).len(), 1);
}

#[test]
fn earlier_layout_weapons() {
    let w = Weapon::init_from_json(&json(
        r#"{"name": "Club", "type": "weapon", "system": {
            "baseItem": "club", "bonus": {"value": 0}, "simple": "simple", "group": "club", "size": "med",
            "damage": {"damageType": "bludgeoning", "dice": 1, "die": "d6"},
            "equipped": {"carryType": "held", "handsHeld": 1},
            "hp": {"max": 10}, "publication": {"license": "OGL", "remaster": false, "title": "Core Rulebook"},
            "traits": {"rarity": "common", "value": ["thrown-10"]}, "usage": {"value": "held-in-one-hand"}}}"#,
    ));
    assert_eq!(w.name, "Club");
    assert_eq!(w.bulk, 0);
    let d = w.damage.unwrap();
    assert_eq!((d.dmg_type.as_str(), d.n_of_dices, d.die_size.as_str(), d.bonus_dmg), ("bludgeoning", 1, "d6", 0));
    assert_eq!(w.carry_type.as_deref(), Some("held"));
    assert_eq!(w.hands_held, Some(1));
    assert_eq!(w.invested, None);
    assert_eq!(w.hp_max, Some(10));
    assert_eq!(w.hp_curr, None);
    assert_eq!(w.traits.traits, vec!["thrown-10".to_string()]);
}

#[test]
fn earlier_layout_saves() {
    let s = RawSaves::init_from_json(&json(
        r#"{"fortitude": {"value": 5, "saveDetail": ""}, "reflex": {"value": 6, "saveDetail": "+2 vs traps"}, "will": {"value": 7, "saveDetail": ""}}"#,
    ));
    assert_eq!((s.fortitude, s.reflex, s.will), (5, 6, 7));
    assert_eq!(s.reflex_detail, "+2 vs traps");
}

#[test]
fn earlier_layout_spellcasting_puts_unlisted_spells_in_slot_minus_one() {
    let raw = RawSpellCastingEntry::init_from_json(&json(
        r#"{"_id": "E1", "name": "Prepared", "system": {"prepared": {"value": "prepared"}, "spelldc": {"dc": 20},
            "type": "divine", "slots": {"slot0": {"prepared": [{"id": "S1"}]}, "slot1": {"prepared": []}}}}"#,
    ));
    assert_eq!(raw.dc_modifier, Some(20));
    assert_eq!(raw.atk_modifier, None);
    let spell = |id: &str| {
        Spell::try_from(&json(&format!(
            r#"{{"_id": "{id}", "name": "Spell {id}", "system": {{"location": {{"value": "E1"}}, "duration": {{"sustained": true}},
            "level": {{"value": 1}}, "publication": {{"license": "ORC", "remaster": true, "title": "t"}}, "range": {{"value": ""}},
            "target": {{"value": ""}}, "time": {{"value": "2"}}, "traits": {{"rarity": "common"}}}}}}"#
        )))
        .unwrap()
    };
    let entry = SpellCastingEntry::from(&raw, &vec![spell("S1"), spell("S2")]);
    let slot = |k: i64| -> Vec<String> {
        entry.spell_slots.iter().find(|(n, _)| *n == k).map(|(_, v)| v.iter().map(|s| s.raw_foundry_id.clone()).collect()).unwrap_or_default()
    };
    assert_eq!(slot(0), vec!["S1".to_string()]);
    assert_eq!(slot(-1), vec!["S2".to_string()]);
    assert!(entry.spell_slots.iter().all(|(n, _)| *n != 1));
}

#[test]
fn hazards_whose_reading_would_panic_are_reported() {
    assert!(hazard_record_fits_on(&json(HAZARD)));
    assert!(BybeHazard::try_from_checked(&json(HAZARD)).unwrap().is_ok());
    let no_stealth_detail = HAZARD.replace(r#", "details": "trained""#, "");
    assert!(BybeHazard::try_from_checked(&json(&no_stealth_detail)).is_none());
    assert!(!hazard_record_fits_on(&json(&no_stealth_detail)));
    let no_hp_detail = HAZARD.replace(r#", "details": "BT 10""#, "");
    assert!(BybeHazard::try_from_checked(&json(&no_hp_detail)).is_none());
    let not_a_hazard = json(r#"{"type": "npc", "name": "Goblin"}"#);
    assert!(BybeHazard::try_from_checked(&not_a_hazard).unwrap().is_err());
    assert!(hazard_record_fits_on(&not_a_hazard));
}

#[test]
fn conditions_whose_reading_would_panic_are_reported() {
    let (lang, sf2e) = (json(LANG), json(SF2E));
    let good = json(&condition_record("Blinded"));
    assert!(BybeCondition::try_from_checked(&good, GameSystem::Pathfinder, &lang, &sf2e).unwrap().is_ok());
    assert!(condition_record_fits_on(&good, GameSystem::Pathfinder, &lang, &sf2e));
    let no_overrides = json(&condition_record("Blinded").replace(r#""overrides": ["Dazzled"], "#, ""));
    assert!(BybeCondition::try_from_checked(&no_overrides, GameSystem::Pathfinder, &lang, &sf2e).is_none());
    assert!(!condition_record_fits_on(&no_overrides, GameSystem::Pathfinder, &lang, &sf2e));
    let effect = json(&condition_record("Blinded").replacen("\"condition\"", "\"effect\"", 1));
    assert!(condition_record_fits_on(&effect, GameSystem::Pathfinder, &lang, &sf2e));
}

#[test]
fn records_of_another_kind_fit_every_reader() {
    let npc = json(r#"{"type": "npc", "name": "x"}"#);
    assert!(item_record_fits_on(&npc));
    let trap = json(r#"{"type": "hazard", "name": "Trap"}"#);
    assert!(creature_record_fits_on(&trap));
}

#[test]
fn hazards_without_id_or_name_are_refused() {
    let no_id = HAZARD.replace(r#""_id": "h1", "#, "");
    assert_eq!(
        BybeHazard::try_from(&json(&no_id)).unwrap_err(),
        BybeHazardParsingError::SourceHazardError(SourceHazardParsingError::IdMissing)
    );
    let no_name = HAZARD.replace(r#""name": "Spiked Pit", "#, "");
    assert_eq!(
        BybeHazard::try_from(&json(&no_name)).unwrap_err(),
        BybeHazardParsingError::SourceHazardError(SourceHazardParsingError::NameFieldMissing)
    );
    let neither = no_id.replace(r#""name": "Spiked Pit", "#, "");
    assert_eq!(
        BybeHazard::try_from(&json(&neither)).unwrap_err(),
        BybeHazardParsingError::SourceHazardError(SourceHazardParsingError::IdMissing)
    );
    assert!(BybeHazard::try_from_checked(&json(&no_id)).unwrap().is_err());
    assert!(!hazard_record_fits_on(&json(&no_name)));
}
