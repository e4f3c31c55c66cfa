//! Weapons of creatures in the earlier layout of the source data.
use crate::json::{array_of, bool_of, field, i64_of, str_of, strings_in, strings_of, strings_view, Json, JsonV};
use crate::model::opt_view;
use crate::schema::publication_info::{PublicationInfo, PublicationInfoView};
use crate::text::{parse_i64, spec_parse_i64, split_once, split_once_char};
use vstd::prelude::*;

verus! {

#[derive(Debug)]
pub struct WeaponTraits {
    pub rarity: String,
    pub traits: Vec<String>,
}

pub struct WeaponTraitsView {
    pub rarity: Seq<char>,
    pub traits: Seq<Seq<char>>,
}

impl View for WeaponTraits {
    type V = WeaponTraitsView;

    open spec fn view(&self) -> WeaponTraitsView {
        WeaponTraitsView { rarity: self.rarity@, traits: strings_view(self.traits@) }
    }
}

impl WeaponTraits {
    /// The traits read without panicking: a string `rarity` and an array `value`.
    pub open spec fn reads(j: JsonV) -> bool {
        j.field("rarity"@).as_str() is Some && j.field("value"@).as_array() is Some
    }

    pub open spec fn spec_init(j: JsonV) -> WeaponTraitsView {
        WeaponTraitsView {
            rarity: j.field("rarity"@).as_str().unwrap(),
            traits: strings_of(j.field("value"@).as_array().unwrap()),
        }
    }

    pub fn init_from_json(json: &Json) -> (r: WeaponTraits)
        requires
            Self::reads(json@),
        ensures
            r@ == Self::spec_init(json@),
    {
        let rarity = match str_of(json.get("rarity")) {
            Some(s) => s,
            None => {
                assert(false);
                String::new()
            },
        };
        let traits = match array_of(json.get("value")) {
            Some(items) => strings_in(items),
            None => {
                assert(false);
                Vec::new()
            },
        };
        WeaponTraits { rarity, traits }
    }
}

#[derive(Debug)]
pub struct WeaponDamageData {
    pub dmg_type: String,
    pub n_of_dices: i64,
    pub die_size: String,
    pub bonus_dmg: i64,
}

pub struct WeaponDamageDataView {
    pub dmg_type: Seq<char>,
    pub n_of_dices: i64,
    pub die_size: Seq<char>,
    pub bonus_dmg: i64,
}

impl View for WeaponDamageData {
    type V = WeaponDamageDataView;

    open spec fn view(&self) -> WeaponDamageDataView {
        WeaponDamageDataView {
            dmg_type: self.dmg_type@,
            n_of_dices: self.n_of_dices,
            die_size: self.die_size@,
            bonus_dmg: self.bonus_dmg,
        }
    }
}

/// The value of the first member of an object.
pub open spec fn first_member(j: JsonV) -> Option<JsonV> {
    match j.as_object() {
        Some(ms) => if ms.len() > 0 {
            j.get(ms[0].0)
        } else {
            None
        },
        None => None,
    }
}

/// The damage that a roll `NdS+B` of the first member gives, where every part reads.
pub open spec fn spec_rolled_damage(x: JsonV) -> Option<WeaponDamageDataView> {
    match x.get("damage"@) {
        None => None,
        Some(d) => match d.as_str() {
            None => None,
            Some(dmg) => match split_once(dmg, 'd') {
                None => None,
                Some((n_dices, dmg_data)) => match split_once(dmg_data, '+') {
                    None => None,
                    Some((die, bonus)) => match x.field("damageType"@).as_str() {
                        None => None,
                        Some(dmg_type) => match spec_parse_i64(n_dices) {
                            None => None,
                            Some(n) => match spec_parse_i64(bonus) {
                                None => None,
                                Some(b) => Some(
                                    WeaponDamageDataView { dmg_type, n_of_dices: n, bonus_dmg: b, die_size: seq!['d'] + die },
                                ),
                            },
                        },
                    },
                },
            },
        },
    }
}

impl WeaponDamageData {
    /// The damage reads without panicking: where `damage` is given, its
    /// `damageType` and `die` are strings and its `dice` an integer.
    pub open spec fn reads(j: JsonV) -> bool {
        match j.get("damage"@) {
            Some(x) => x.field("damageType"@).as_str() is Some && x.field("dice"@).as_i64() is Some
                && x.field("die"@).as_str() is Some,
            None => true,
        }
    }

    /// The damage that `damage` gives, else the roll of the first member.
    pub open spec fn spec_init(j: JsonV) -> Option<WeaponDamageDataView> {
        match j.get("damage"@) {
            Some(x) => Some(
                WeaponDamageDataView {
                    dmg_type: x.field("damageType"@).as_str().unwrap(),
                    n_of_dices: x.field("dice"@).as_i64().unwrap(),
                    die_size: x.field("die"@).as_str().unwrap(),
                    bonus_dmg: 0,
                },
            ),
            None => match first_member(j) {
                Some(x) => spec_rolled_damage(x),
                None => None,
            },
        }
    }

    fn rolled(x: &Json) -> (r: Option<WeaponDamageData>)
        ensures
            opt_view(r) == spec_rolled_damage(x@),
    {
        let dmg = match x.get("damage") {
            Some(d) => match d.as_string() {
                Some(s) => s,
                None => return None,
            },
            None => return None,
        };
        let (n_dices, dmg_data) = match split_once_char(dmg.as_str(), 'd') {
            Some(p) => p,
            None => return None,
        };
        let (die, bonus) = match split_once_char(dmg_data.as_str(), '+') {
            Some(p) => p,
            None => return None,
        };
        let dmg_type = match str_of(x.get("damageType")) {
            Some(s) => s,
            None => return None,
        };
        let n = match parse_i64(n_dices.as_str()) {
            Some(v) => v,
            None => return None,
        };
        let b = match parse_i64(bonus.as_str()) {
            Some(v) => v,
            None => return None,
        };
        let die_size = crate::text::concat("d", die.as_str());
        proof {
            reveal_strlit("d");
        }
        assert(die_size@ == seq!['d'] + die@);
        assert(split_once(dmg@, 'd') == Some((n_dices@, dmg_data@)));
        assert(split_once(dmg_data@, '+') == Some((die@, bonus@)));
        Some(WeaponDamageData { dmg_type, n_of_dices: n, bonus_dmg: b, die_size })
    }

    pub fn init_from_json(json: &Json) -> (r: Option<WeaponDamageData>)
        requires
            Self::reads(json@),
        ensures
            opt_view(r) == Self::spec_init(json@),
    {
        match json.get("damage") {
            Some(x) => {
                let dmg_type = match str_of(x.get("damageType")) {
                    Some(s) => s,
                    None => {
                        assert(false);
                        String::new()
                    },
                };
                let n_of_dices = match i64_of(x.get("dice")) {
                    Some(v) => v,
                    None => {
                        assert(false);
                        0
                    },
                };
                let die_size = match str_of(x.get("die")) {
                    Some(s) => s,
                    None => {
                        assert(false);
                        String::new()
                    },
                };
                Some(WeaponDamageData { dmg_type, n_of_dices, die_size, bonus_dmg: 0 })
            },
            None => match json.as_object() {
                Some(ms) => {
                    if ms.len() == 0 {
                        return None;
                    }
                    proof {
                        crate::json::lemma_members_view(ms@);
                    }
                    match json.get(ms[0].0.as_str()) {
                        Some(x) => Self::rolled(x),
                        None => None,
                    }
                },
                None => None,
            },
        }
    }
}

#[derive(Debug)]
pub struct Weapon {
    pub name: String,
    pub base_weapon: String,
    pub to_hit_bonus: i64,
    pub bulk: i64,
    pub category: String,
    pub damage: Option<WeaponDamageData>,
    pub carry_type: Option<String>,
    pub hands_held: Option<i64>,
    pub invested: Option<bool>,
    pub weapon_group: String,
    pub hardness: Option<i64>,
    pub hp_max: Option<i64>,
    pub hp_curr: Option<i64>,
    pub level: Option<i64>,
    pub publication_info: PublicationInfo,
    pub quantity: Option<i64>,
    pub range: Option<String>,
    pub reload: Option<String>,
    pub size: String,
    pub traits: WeaponTraits,
    pub usage: String,
    pub weapon_type: String,
}

pub struct WeaponView {
    pub name: Seq<char>,
    pub base_weapon: Seq<char>,
    pub to_hit_bonus: i64,
    pub bulk: i64,
    pub category: Seq<char>,
    pub damage: Option<WeaponDamageDataView>,
    pub carry_type: Option<Seq<char>>,
    pub hands_held: Option<i64>,
    pub invested: Option<bool>,
    pub weapon_group: Seq<char>,
    pub hardness: Option<i64>,
    pub hp_max: Option<i64>,
    pub hp_curr: Option<i64>,
    pub level: Option<i64>,
    pub publication_info: PublicationInfoView,
    pub quantity: Option<i64>,
    pub range: Option<Seq<char>>,
    pub reload: Option<Seq<char>>,
    pub size: Seq<char>,
    pub traits: WeaponTraitsView,
    pub usage: Seq<char>,
    pub weapon_type: Seq<char>,
}

impl View for Weapon {
    type V = WeaponView;

    open spec fn view(&self) -> WeaponView {
        WeaponView {
            name: self.name@,
            base_weapon: self.base_weapon@,
            to_hit_bonus: self.to_hit_bonus,
            bulk: self.bulk,
            category: self.category@,
            damage: opt_view(self.damage),
            carry_type: opt_view(self.carry_type),
            hands_held: self.hands_held,
            invested: self.invested,
            weapon_group: self.weapon_group@,
            hardness: self.hardness,
            hp_max: self.hp_max,
            hp_curr: self.hp_curr,
            level: self.level,
            publication_info: self.publication_info@,
            quantity: self.quantity,
            range: opt_view(self.range),
            reload: opt_view(self.reload),
            size: self.size@,
            traits: self.traits@,
            usage: self.usage@,
            weapon_type: self.weapon_type@,
        }
    }
}

/// A member that, where present, is a string.
pub open spec fn str_if_present(o: Option<JsonV>) -> bool {
    match o {
        Some(v) => v.as_str() is Some,
        None => true,
    }
}

/// A member that, where present, is an integer.
pub open spec fn i64_if_present(o: Option<JsonV>) -> bool {
    match o {
        Some(v) => v.as_i64() is Some,
        None => true,
    }
}

/// A member that, where present, is a boolean.
pub open spec fn bool_if_present(o: Option<JsonV>) -> bool {
    match o {
        Some(v) => v.as_bool() is Some,
        None => true,
    }
}

pub open spec fn present_str(o: Option<JsonV>) -> Option<Seq<char>> {
    match o {
        Some(v) => v.as_str(),
        None => None,
    }
}

pub open spec fn present_i64(o: Option<JsonV>) -> Option<i64> {
    match o {
        Some(v) => v.as_i64(),
        None => None,
    }
}

pub open spec fn present_bool(o: Option<JsonV>) -> Option<bool> {
    match o {
        Some(v) => v.as_bool(),
        None => None,
    }
}

fn read_present_str(o: Option<&Json>) -> (r: Option<String>)
    requires
        str_if_present(crate::localize::opt_ref_view(o)),
    ensures
        opt_view(r) == present_str(crate::localize::opt_ref_view(o)),
{
    match o {
        Some(v) => match v.as_string() {
            Some(s) => Some(s),
            None => {
                assert(false);
                None
            },
        },
        None => None,
    }
}

fn read_present_i64(o: Option<&Json>) -> (r: Option<i64>)
    requires
        i64_if_present(crate::localize::opt_ref_view(o)),
    ensures
        r == present_i64(crate::localize::opt_ref_view(o)),
{
    match o {
        Some(v) => v.as_i64(),
        None => None,
    }
}

impl Weapon {
    /// The record reads without panicking: the members it takes are present
    /// where it needs them and of the right kind where they are present.
    pub open spec fn reads(j: JsonV) -> bool {
        let system = j.field("system"@);
        let equipped = system.field("equipped"@);
        let hp = system.field("hp"@);
        &&& j.field("name"@).as_str() is Some
        &&& system.field("baseItem"@).as_str() is Some
        &&& system.field("bonus"@).field("value"@).as_i64() is Some
        &&& system.field("simple"@).as_str() is Some
        &&& WeaponDamageData::reads(system)
        &&& str_if_present(equipped.get("carryType"@))
        &&& i64_if_present(equipped.get("handsHeld"@))
        &&& bool_if_present(equipped.get("invested"@))
        &&& system.field("group"@).as_str() is Some
        &&& i64_if_present(system.get("hardness"@))
        &&& i64_if_present(hp.get("max"@))
        &&& i64_if_present(hp.get("value"@))
        &&& i64_if_present(system.field("level"@).get("value"@))
        &&& PublicationInfo::spec_try_from(system.field("publication"@)) is Ok
        &&& i64_if_present(system.get("quantity"@))
        &&& str_if_present(equipped.get("range"@))
        &&& str_if_present(system.field("reload"@).get("value"@))
        &&& system.field("size"@).as_str() is Some
        &&& WeaponTraits::reads(system.field("traits"@))
        &&& system.field("usage"@).field("value"@).as_str() is Some
        &&& j.field("type"@).as_str() is Some
    }

    pub open spec fn spec_init(j: JsonV) -> WeaponView {
        let system = j.field("system"@);
        let equipped = system.field("equipped"@);
        let hp = system.field("hp"@);
        WeaponView {
            name: j.field("name"@).as_str().unwrap(),
            base_weapon: system.field("baseItem"@).as_str().unwrap(),
            to_hit_bonus: system.field("bonus"@).field("value"@).as_i64().unwrap(),
            bulk: match system.field("bulk"@).field("value"@).as_i64() {
                Some(v) => v,
                None => 0,
            },
            category: system.field("simple"@).as_str().unwrap(),
            damage: WeaponDamageData::spec_init(system),
            carry_type: present_str(equipped.get("carryType"@)),
            hands_held: present_i64(equipped.get("handsHeld"@)),
            invested: present_bool(equipped.get("invested"@)),
            weapon_group: system.field("group"@).as_str().unwrap(),
            hardness: present_i64(system.get("hardness"@)),
            hp_max: present_i64(hp.get("max"@)),
            hp_curr: present_i64(hp.get("value"@)),
            level: present_i64(system.field("level"@).get("value"@)),
            publication_info: PublicationInfo::spec_try_from(system.field("publication"@)).unwrap(),
            quantity: present_i64(system.get("quantity"@)),
            range: present_str(equipped.get("range"@)),
            reload: present_str(system.field("reload"@).get("value"@)),
            size: system.field("size"@).as_str().unwrap(),
            traits: WeaponTraits::spec_init(system.field("traits"@)),
            usage: system.field("usage"@).field("value"@).as_str().unwrap(),
            weapon_type: j.field("type"@).as_str().unwrap(),
        }
    }

    pub fn init_from_json(json: &Json) -> (r: Weapon)
        requires
            Self::reads(json@),
        ensures
            r@ == Self::spec_init(json@),
    {
        let system = json.get("system");
        let equipped = field(system, "equipped");
        let hp = field(system, "hp");
        let null = Json::Null;
        let name = str_of(json.get("name")).unwrap();
        let base_weapon = str_of(field(system, "baseItem")).unwrap();
        let to_hit_bonus = i64_of(field(field(system, "bonus"), "value")).unwrap();
        let bulk = match i64_of(field(field(system, "bulk"), "value")) {
            Some(v) => v,
            None => 0,
        };
        let category = str_of(field(system, "simple")).unwrap();
        let damage = WeaponDamageData::init_from_json(crate::model::deref_or(system, &null));
        let carry_type = read_present_str(field(equipped, "carryType"));
        let hands_held = read_present_i64(field(equipped, "handsHeld"));
        let invested = match field(equipped, "invested") {
            Some(v) => v.as_bool(),
            None => None,
        };
        let weapon_group = str_of(field(system, "group")).unwrap();
        let hardness = read_present_i64(field(system, "hardness"));
        let hp_max = read_present_i64(field(hp, "max"));
        let hp_curr = read_present_i64(field(hp, "value"));
        let level = read_present_i64(field(field(system, "level"), "value"));
        let publication_info = match PublicationInfo::try_from(crate::model::deref_or(field(system, "publication"), &null)) {
            Ok(p) => p,
            Err(_) => {
                assert(false);
                PublicationInfo { license: String::new(), remastered: false, source: String::new() }
            },
        };
        let quantity = read_present_i64(field(system, "quantity"));
        let range = read_present_str(field(equipped, "range"));
        let reload = read_present_str(field(field(system, "reload"), "value"));
        let size = str_of(field(system, "size")).unwrap();
        let traits = WeaponTraits::init_from_json(crate::model::deref_or(field(system, "traits"), &null));
        let usage = str_of(field(field(system, "usage"), "value")).unwrap();
        let weapon_type = str_of(json.get("type")).unwrap();
        Weapon {
            name,
            base_weapon,
            to_hit_bonus,
            bulk,
            category,
            damage,
            carry_type,
            hands_held,
            invested,
            weapon_group,
            hardness,
            hp_max,
            hp_curr,
            level,
            publication_info,
            quantity,
            range,
            reload,
            size,
            traits,
            usage,
            weapon_type,
        }
    }
}

} // verus!
