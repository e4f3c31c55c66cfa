use bybe_db::json::Json;
use bybe_db::localize::lookup_path;
use bybe_db::localize::trait_table::parse_ts_traits;

fn to_json(v: &serde_json::Value) -> Json {
    match v {
        serde_json::Value::Null => Json::Null,
        serde_json::Value::Bool(b) => Json::Bool(*b),
        serde_json::Value::Number(n) => match n.as_i64() {
            Some(i) => Json::Int(i),
            None => Json::Decimal(n.to_string()),
        },
        serde_json::Value::String(s) => Json::Str(s.clone()),
        serde_json::Value::Array(a) => Json::Array(a.iter().map(to_json).collect()),
        serde_json::Value::Object(o) => Json::Object(o.iter().map(|(k, v)| (k.clone(), to_json(v))).collect()),
    }
}

fn json(text: &str) -> Json {
    to_json(&serde_json::from_str(text).unwrap())
}

const SIMPLE_TS: &str = r#"
            const kingmakerDescriptions = {
                cavalry: "PF2E.Kingmaker.TraitDescription.cavalry",
                infantry: "PF2E.Kingmaker.TraitDescription.infantry",
            };
            const preciousMaterialDescriptions = {
                abysium: "PF2E.PreciousMaterialAbysiumDescription",
                "cold-iron": "PF2E.PreciousMaterialColdIronDescription",
            };
            const traitDescriptions = {
                ...kingmakerDescriptions,
                ...preciousMaterialDescriptions,
                aasimar: "PF2E.TraitDescriptionAasimar",
            };
            const armorTraits = {
                alchemical: "PF2E.TraitAlchemical",
            };
        "#;

const CHAINED_TS: &str = r#"
            const base = {
                fire: "PF2E.TraitFire",
            };
            const middle = {
                ...base,
                water: "PF2E.TraitWater",
            };
            const top = {
                ...middle,
                earth: "PF2E.TraitEarth",
            };
        "#;

const OVERRIDE_TS: &str = r#"
            const base = {
                alchemical: "PF2E.TraitAlchemical.Old",
            };
            const derived = {
                ...base,
                alchemical: "PF2E.TraitAlchemical.New",
            };
        "#;

const JSON_DATA: &str = r#"{
    "PF2E": {
        "TraitFire": "Fire",
        "TraitWater": "Water",
        "Kingmaker": {
            "Trait": {
                "cavalry": "Cavalry"
            }
        }
    }
}"#;

fn spread_case(key: &str, kind: &str, expected: Option<&str>) {
    let result = parse_ts_traits(SIMPLE_TS);
    assert_eq!(result.get(key, kind).as_deref(), expected);
}

#[test]
fn test_spread_resolution_aasimar() {
    spread_case("aasimar", "description", Some("PF2E.TraitDescriptionAasimar"));
}

#[test]
fn test_spread_resolution_cavalry() {
    spread_case("cavalry", "description", Some("PF2E.Kingmaker.TraitDescription.cavalry"));
}

#[test]
fn test_spread_resolution_abysium() {
    spread_case("abysium", "description", Some("PF2E.PreciousMaterialAbysiumDescription"));
}

#[test]
fn test_spread_resolution_cold_iron() {
    spread_case("cold-iron", "description", Some("PF2E.PreciousMaterialColdIronDescription"));
}

#[test]
fn test_spread_resolution_alchemical_trait() {
    spread_case("alchemical", "trait", Some("PF2E.TraitAlchemical"));
}

#[test]
fn test_spread_resolution_unknown_trait() {
    spread_case("unknown", "trait", None);
}

#[test]
fn test_spread_resolution_unknown_description() {
    spread_case("unknown", "description", None);
}

fn chained_case(key: &str, kind: &str, expected: Option<&str>) {
    let result = parse_ts_traits(CHAINED_TS);
    assert_eq!(result.get(key, kind).as_deref(), expected);
}

#[test]
fn test_chained_spreads_fire() {
    chained_case("fire", "trait", Some("PF2E.TraitFire"));
}

#[test]
fn test_chained_spreads_water() {
    chained_case("water", "trait", Some("PF2E.TraitWater"));
}

#[test]
fn test_chained_spreads_earth() {
    chained_case("earth", "trait", Some("PF2E.TraitEarth"));
}

#[test]
fn test_own_key_overrides_spread() {
    let result = parse_ts_traits(OVERRIDE_TS);
    assert_eq!(result.get("alchemical", "trait").as_deref(), Some("PF2E.TraitAlchemical.New"));
}

fn lookup_case(path: &str, expected: Option<&str>) {
    let data = json(JSON_DATA);
    assert_eq!(lookup_path(&data, path).as_deref(), expected);
}

#[test]
fn test_lookup_path_fire() {
    lookup_case("PF2E.TraitFire", Some("Fire"));
}

#[test]
fn test_lookup_path_water() {
    lookup_case("PF2E.TraitWater", Some("Water"));
}

#[test]
fn test_lookup_path_nested() {
    lookup_case("PF2E.Kingmaker.Trait.cavalry", Some("Cavalry"));
}

#[test]
fn test_lookup_path_unknown() {
    lookup_case("PF2E.Unknown", None);
}

#[test]
fn r_pick_constants_are_dropped_and_spreads_of_them_count_as_empty() {
    let ts = r#"
        const picked = R.pick(traitDescriptions, ["fire"]);
        const mine = {
            ...picked,
            wood: "PF2E.TraitWood",
        };
    "#;
    let result = parse_ts_traits(ts);
    assert_eq!(result.get("wood", "trait").as_deref(), Some("PF2E.TraitWood"));
    assert_eq!(result.get("fire", "trait"), None);
}

#[test]
fn blocks_in_a_cycle_of_spreads_are_left_out() {
    let ts = r#"
        const a = {
            ...b,
            x: "PF2E.TraitX",
        };
        const b = {
            ...a,
            y: "PF2E.TraitY",
        };
        const c = {
            z: "PF2E.TraitZ",
        };
    "#;
    let result = parse_ts_traits(ts);
    assert_eq!(result.get("x", "trait"), None);
    assert_eq!(result.get("y", "trait"), None);
    assert_eq!(result.get("z", "trait").as_deref(), Some("PF2E.TraitZ"));
}

#[test]
fn other_kinds_have_no_path() {
    let result = parse_ts_traits(SIMPLE_TS);
    assert_eq!(result.get("alchemical", "label"), None);
}

#[test]
fn parsed_traits_reads_the_same_table() {
    let a = bybe_db::localize::trait_table::parsed_traits(CHAINED_TS);
    assert_eq!(a.get("earth", "trait").as_deref(), Some("PF2E.TraitEarth"));
}

#[test]
fn blocks_are_flattened_after_the_blocks_they_spread() {
    let ts = r#"
        const late = { ...early, shared: "PF2E.TraitLate", own: "PF2E.TraitOwn" };
        const early = { shared: "PF2E.TraitEarly", base: "PF2E.TraitBase" };
    "#;
    let table = parse_ts_traits(ts);
    assert_eq!(table.get("shared", "trait").as_deref(), Some("PF2E.TraitLate"));
    assert_eq!(table.get("base", "trait").as_deref(), Some("PF2E.TraitBase"));
    assert_eq!(table.get("own", "trait").as_deref(), Some("PF2E.TraitOwn"));
}

#[test]
fn blocks_in_a_cycle_of_spreads_are_never_flattened() {
    let ts = r#"
        const a = { ...b, x: "PF2E.TraitX" };
        const b = { ...a, y: "PF2E.TraitY" };
        const c = { z: "PF2E.TraitZ" };
    "#;
    let table = parse_ts_traits(ts);
    assert_eq!(table.get("x", "trait"), None);
    assert_eq!(table.get("y", "trait"), None);
    assert_eq!(table.get("z", "trait").as_deref(), Some("PF2E.TraitZ"));
}
