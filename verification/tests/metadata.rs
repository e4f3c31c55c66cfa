use bybe_db::game_system::{current_game_system, set_game_system, GameSystem, GameSystemSlot};
use bybe_db::schema::bybe_metadata_enum::{RarityEnum, SizeEnum};
use bybe_db::schema::source_schema::price_struct::PriceStruct;
use bybe_db::schema::status::Status;
use bybe_db::json::Json;

fn to_json(v: &serde_json::Value) -> Json {
    match v {
        serde_json::Value::Null => Json::Null,
        serde_json::Value::Bool(b) => Json::Bool(*b),
        serde_json::Value::Number(n) => match n.as_i64() {
            Some(i) => Json::Int(i),
            None => Json::Decimal(n.to_string()),
        },
        serde_json::Value::String(s) => Json::Str(s.clone()),
        serde_json::Value::Array(a) => Json::Array(a.iter().map(to_json).collect()),
        serde_json::Value::Object(o) => Json::Object(o.iter().map(|(k, v)| (k.clone(), to_json(v))).collect()),
    }
}

fn json(text: &str) -> Json {
    to_json(&serde_json::from_str(text).unwrap())
}

#[test]
fn rarity_names_read_in_any_case() {
    assert_eq!(RarityEnum::from_str("common"), Some(RarityEnum::Common));
    assert_eq!(RarityEnum::from_str("UnCommon"), Some(RarityEnum::Uncommon));
    assert_eq!(RarityEnum::from_str("RARE"), Some(RarityEnum::Rare));
    assert_eq!(RarityEnum::from_str("unique"), Some(RarityEnum::Unique));
    assert_eq!(RarityEnum::from_str("legendary"), None);
    assert_eq!(RarityEnum::Uncommon.to_string(), "Uncommon");
    assert_eq!(RarityEnum::default(), RarityEnum::Common);
}

#[test]
fn size_names_and_abbreviations_read() {
    assert_eq!(SizeEnum::from_str("tiny"), Some(SizeEnum::Tiny));
    assert_eq!(SizeEnum::from_str("sm"), Some(SizeEnum::Small));
    assert_eq!(SizeEnum::from_str("med"), Some(SizeEnum::Medium));
    assert_eq!(SizeEnum::from_str("lg"), Some(SizeEnum::Large));
    assert_eq!(SizeEnum::from_str("Huge"), Some(SizeEnum::Huge));
    assert_eq!(SizeEnum::from_str("grg"), Some(SizeEnum::Gargantuan));
    assert_eq!(SizeEnum::from_str("colossal"), None);
    assert_eq!(SizeEnum::Gargantuan.to_string(), "Gargantuan");
    assert_eq!(SizeEnum::default(), SizeEnum::Medium);
}

#[test]
fn status_names() {
    assert_eq!(Status::from_validity(true), Status::Valid);
    assert_eq!(Status::from_validity(false), Status::Deprecated);
    assert_eq!(Status::Archived.to_string(), "archived");
    assert_eq!(Status::default(), Status::Valid);
}

#[test]
fn game_system_in_effect_is_the_last_chosen() {
    let mut slot = GameSystemSlot::new();
    assert_eq!(current_game_system(&slot), GameSystem::Pathfinder);
    set_game_system(&mut slot, GameSystem::Starfinder);
    assert_eq!(current_game_system(&slot), GameSystem::Starfinder);
    set_game_system(&mut slot, GameSystem::Pathfinder);
    assert_eq!(current_game_system(&slot), GameSystem::Pathfinder);
    assert_eq!(GameSystem::Starfinder.to_string(), "sf");
    assert_eq!(GameSystem::default().to_string(), "pf");
}

#[test]
fn price_in_copper_pieces() {
    let price = PriceStruct::init_from_json(&json(r#"{"value": {"pp": 1, "gp": 2, "sp": 3, "cp": 4}}"#));
    assert_eq!(price.to_cp(), 1234);
    let partial = PriceStruct::init_from_json(&json(r#"{"value": {"gp": 5, "sp": "x"}}"#));
    assert_eq!(partial.to_cp(), 500);
}
