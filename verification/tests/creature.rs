use bybe_db::schema::bybe_creature::{
    get_all_immunities, get_immunities_adding_iwr_rules, get_implicit_immunities_from_traits, get_resistances_adding_iwr_rules,
    get_weaknesses_adding_iwr_rules, BybeCreature, BybeCreatureParsingError,
};
use bybe_db::schema::bybe_metadata_enum::{RarityEnum, SizeEnum};
use bybe_db::schema::source_schema::creature::resistance::Resistance;
use bybe_db::schema::source_schema::creature::source_creature::SourceCreatureParsingError;
use bybe_db::schema::source_schema::rules::Rule;
use bybe_db::assoc::StrIntMap;
use bybe_db::json::Json;

fn to_json(v: &serde_json::Value) -> Json {
    match v {
        serde_json::Value::Null => Json::Null,
        serde_json::Value::Bool(b) => Json::Bool(*b),
        serde_json::Value::Number(n) => match n.as_i64() {
            Some(i) => Json::Int(i),
            None => Json::Decimal(n.to_string()),
        },
        serde_json::Value::String(s) => Json::Str(s.clone()),
        serde_json::Value::Array(a) => Json::Array(a.iter().map(to_json).collect()),
        serde_json::Value::Object(o) => Json::Object(o.iter().map(|(k, v)| (k.clone(), to_json(v))).collect()),
    }
}

fn json(text: &str) -> Json {
    to_json(&serde_json::from_str(text).unwrap())
}

fn strings(v: &[&str]) -> Vec<String> {
    v.iter().map(|s| s.to_string()).collect()
}

fn rule(key: &str, name: &str, value: i64) -> Rule {
    Rule::try_from(&json(&format!(r#"{{"key": "{key}", "type": "{name}", "value": {value}}}"#))).unwrap()
}

const PUBLICATION: &str = r#"{"license": "ORC", "remaster": true, "title": "Monster Core"}"#;

fn creature_record(name: &str, traits: &str, items: &str) -> String {
    format!(
        r#"{{
        "type": "npc",
        "name": "{name}",
        "items": [{items}],
        "system": {{
            "abilities": {{"cha": {{"mod": 1}}, "con": {{"mod": 2}}, "dex": {{"mod": 3}}, "int": {{"mod": null}}, "str": {{"mod": 5}}, "wis": {{"mod": -1}}}},
            "attributes": {{
                "ac": {{"value": 18, "details": ""}},
                "hp": {{"max": 40, "value": 40, "details": "regeneration 5"}},
                "speed": {{"value": 25, "otherSpeeds": [{{"type": "fly", "value": 40}}]}},
                "immunities": [{{"type": "fire"}}, {{"type": "poison"}}],
                "resistances": [{{"type": "cold", "value": 5}}],
                "weaknesses": [{{"type": "water", "value": 10}}]
            }},
            "details": {{"level": {{"value": 4}}, "languages": {{"details": "", "value": ["common", 7]}}, "publication": {PUBLICATION}}},
            "initiative": {{"statistic": "perception"}},
            "perception": {{"details": "", "mod": 10, "senses": [{{"type": "darkvision"}}, {{"type": "scent", "range": 30, "acuity": "imprecise"}}]}},
            "resources": {{"focus": {{"max": 2}}}},
            "saves": {{
                "fortitude": {{"value": 12, "saveDetail": ""}},
                "reflex": {{"value": 9, "saveDetail": ""}},
                "will": {{"value": 7, "saveDetail": "+1 vs mental"}}
            }},
            "traits": {{"rarity": "rare", "size": {{"value": "lg"}}, "value": [{traits}]}}
        }}
    }}"#
    )
}

const RULE_ACTION: &str = r#"{
    "type": "action", "name": "Fire Aura",
    "system": {
        "actionType": {"value": "passive"}, "description": {"value": "hot"},
        "publication": {"license": "ORC", "remaster": true, "title": "t"},
        "traits": {"rarity": "common", "value": ["aura"]},
        "rules": [
            {"key": "Immunity", "type": "cold", "value": 0},
            {"key": "Weakness", "type": "water", "value": 15},
            {"key": "Resistance", "type": "cold", "value": 10},
            {"key": "FlatModifier", "type": "x", "value": 1}
        ]
    }
}"#;

fn entry_and_spells() -> String {
    let spell = |id: &str, name: &str, location: &str, level: i64, traits: &str| {
        format!(
            r#"{{"type": "spell", "_id": "{id}", "name": "{name}",
            "system": {{
                "location": {{"value": "{location}"}},
                "duration": {{"sustained": false, "value": ""}},
                "level": {{"value": {level}}},
                "publication": {PUBLICATION},
                "range": {{"value": "30 feet"}}, "target": {{"value": "1 creature"}}, "time": {{"value": "2"}},
                "traits": {{"rarity": "common", "traditions": ["arcane"], "value": [{traits}]}},
                "damage": {{"0": {{"formula": "2d6", "kinds": ["damage"], "type": "fire"}}}}
            }}}}"#
        )
    };
    let entry = r#"{"type": "spellcastingEntry", "_id": "E1", "name": "Arcane Innate Spells",
        "system": {"prepared": {"value": "innate"}, "spelldc": {"dc": 21, "value": 13}, "tradition": {"value": "arcane"},
                   "type": "arcane", "slots": {"slot1": {"prepared": [{"id": "S1"}]}, "slot3": {"prepared": [{"id": "missing"}]}}}}"#;
    [
        entry.to_string(),
        spell("S1", "Burning Hands", "E1", 1, ""),
        spell("S2", "Fireball", "E1", 3, ""),
        spell("S3", "Ignition", "E1", 1, "\"cantrip\""),
        spell("S4", "Elsewhere", "E9", 1, ""),
    ]
    .join(",")
}

#[test]
fn a_full_creature() {
    let items = format!("{RULE_ACTION}, {}", entry_and_spells());
    let c = BybeCreature::try_from(&json(&creature_record("Fire Elemental", "\"elemental\"", &items))).unwrap();
    assert_eq!(c.name, "Fire Elemental");
    assert_eq!((c.charisma, c.intelligence, c.wisdom), (1, 0, -1));
    assert_eq!((c.ac, c.hp, c.level), (18, 40, 4));
    assert_eq!(c.speed.get("Base"), Some(25));
    assert_eq!(c.speed.get("fly"), Some(40));
    assert_eq!(c.immunities, strings(&["cold", "fire", "poison"]));
    assert_eq!(c.resistances.len(), 1);
    assert_eq!(c.resistances[0].value, 10);
    assert_eq!(c.weaknesses.get("water"), Some(15));
    assert_eq!(c.languages, strings(&["common"]));
    assert_eq!(c.senses.len(), 2);
    assert!(c.vision);
    assert_eq!(c.n_of_focus_points, 2);
    assert_eq!(c.rarity, RarityEnum::Rare);
    assert_eq!(c.size, SizeEnum::Large);
    assert_eq!(c.actions.len(), 1);
    assert_eq!(c.spells.len(), 4);
    assert_eq!(c.spellcasting.len(), 1);
    let e = &c.spellcasting[0];
    assert_eq!(e.heighten_level, 2);
    let slot = |k: i64| -> Vec<String> {
        e.spell_slots.iter().find(|(n, _)| *n == k).map(|(_, v)| v.iter().map(|s| s.name.clone()).collect()).unwrap_or_default()
    };
    assert_eq!(slot(1), strings(&["Burning Hands"]));
    assert_eq!(slot(3), strings(&["Fireball"]));
    assert_eq!(slot(0), strings(&["Ignition"]));
}

#[test]
fn elite_and_weak_variants_are_duplicates() {
    let r = BybeCreature::try_from(&json(&creature_record("Elite Goblin", "", "")));
    assert!(matches!(r, Err(BybeCreatureParsingError::SourceCreatureError(SourceCreatureParsingError::DuplicatedCreature))));
    let r = BybeCreature::try_from(&json(&creature_record("weak goblin", "", "")));
    assert!(matches!(r, Err(BybeCreatureParsingError::SourceCreatureError(SourceCreatureParsingError::DuplicatedCreature))));
    let text = creature_record("Goblin", "", "").replacen("\"npc\"", "\"character\"", 1);
    let r = BybeCreature::try_from(&json(&text));
    assert!(matches!(r, Err(BybeCreatureParsingError::SourceCreatureError(SourceCreatureParsingError::InvalidCreatureType))));
}

#[test]
fn items_without_a_type_are_an_error() {
    let r = BybeCreature::try_from(&json(&creature_record("Goblin", "", r#"{"name": "x"}"#)));
    assert!(matches!(r, Err(BybeCreatureParsingError::SourceCreatureError(SourceCreatureParsingError::CreatureItemError(_)))));
}

#[test]
fn checked_reading_stops_on_a_decimal_sense_range() {
    let text = creature_record("Goblin", "", "").replace("\"range\": 30", "\"range\": 30.5");
    assert!(BybeCreature::try_from_checked(&json(&text)).is_none());
    let ok = creature_record("Goblin", "", "");
    assert!(matches!(BybeCreature::try_from_checked(&json(&ok)), Some(Ok(_))));
}

#[test]
fn constructs_are_immune_to_what_their_bodies_spare_them() {
    let v = get_implicit_immunities_from_traits(&strings(&["construct", "mindless"]));
    assert_eq!(v.len(), 16);
    assert_eq!(v[0], "bleed");
    assert_eq!(v[14], "void");
    assert_eq!(v[15], "mental");
    assert!(get_implicit_immunities_from_traits(&strings(&["construct", "eidolon"])).is_empty());
    assert!(get_implicit_immunities_from_traits(&strings(&["mindless", "mental"])).is_empty());
    assert_eq!(get_implicit_immunities_from_traits(&strings(&["swarm"])), strings(&["grabbed", "prone", "restrained"]));
}

#[test]
fn immunities_are_listed_once_rules_first() {
    let rules = vec![rule("immunity", "fire", 0), rule("weakness", "cold", 5), rule("Immunity", "poison", 0)];
    let all = get_all_immunities(strings(&["poison", "sleep"]), &rules, &strings(&["swarm"]));
    assert_eq!(all, strings(&["fire", "poison", "sleep", "grabbed", "prone", "restrained"]));
    assert_eq!(get_immunities_adding_iwr_rules(strings(&["a", "a", "b"]), &vec![]), strings(&["a", "b"]));
}

#[test]
fn weakness_rules_set_the_value_of_their_damage() {
    let mut w = StrIntMap::new();
    w.insert("fire".to_string(), 5);
    w.insert("cold".to_string(), 3);
    let rules = vec![rule("weakness", "fire", 10), rule("weakness", "acid", 2), rule("weakness", "fire", 12), rule("resistance", "cold", 9)];
    let r = get_weaknesses_adding_iwr_rules(w, &rules);
    assert_eq!(r.get("fire"), Some(12));
    assert_eq!(r.get("acid"), Some(2));
    assert_eq!(r.get("cold"), Some(3));
}

#[test]
fn resistance_rules_replace_resistances_of_their_damage() {
    let fire = Resistance::try_from(&json(r#"{"type": "fire", "value": 5, "exceptions": ["magic"]}"#)).unwrap();
    let cold = Resistance::try_from(&json(r#"{"type": "cold", "value": 5}"#)).unwrap();
    let rules = vec![rule("resistance", "fire", 10), rule("resistance", "fire", 20), rule("weakness", "cold", 1)];
    let r = get_resistances_adding_iwr_rules(vec![fire, cold], &rules);
    assert_eq!((r[0].name.as_str(), r[0].value), ("fire", 10));
    assert!(r[0].exceptions.is_empty());
    assert_eq!((r[1].name.as_str(), r[1].value), ("cold", 5));
}
