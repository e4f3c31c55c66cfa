//! Spells that creatures cast.
use crate::json::{array_of, bool_of, field, i64_of, items_view, json_view, lemma_items_view, numbered, numbered_values, str_of, strings_in, strings_of, strings_view, Json, JsonV};
use crate::model::{collect_ok, copy_opt_string, copy_strings, lemma_collect_err_prefix, opt_view, views};
use crate::schema::publication_info::{PublicationInfo, PublicationInfoView, PublicationParsingError};
use crate::schema::source_schema::creature::item::saving_throw::{SavingThrow, SavingThrowView};
use crate::schema::source_schema::creature::resistance::ResistanceParserError;
use vstd::prelude::*;

verus! {

#[derive(Debug)]
pub struct Area {
    pub area_type: String,
    pub area_value: i64,
}

pub struct AreaView {
    pub area_type: Seq<char>,
    pub area_value: i64,
}

impl View for Area {
    type V = AreaView;

    open spec fn view(&self) -> AreaView {
        AreaView { area_type: self.area_type@, area_value: self.area_value }
    }
}

#[derive(Debug)]
pub struct RawDamageData {
    pub category: Option<String>,
    pub formula: String,
    pub kinds: Vec<String>,
    pub dmg_type: String,
}

pub struct RawDamageDataView {
    pub category: Option<Seq<char>>,
    pub formula: Seq<char>,
    pub kinds: Seq<Seq<char>>,
    pub dmg_type: Seq<char>,
}

impl View for RawDamageData {
    type V = RawDamageDataView;

    open spec fn view(&self) -> RawDamageDataView {
        RawDamageDataView {
            category: opt_view(self.category),
            formula: self.formula@,
            kinds: strings_view(self.kinds@),
            dmg_type: self.dmg_type@,
        }
    }
}

#[derive(Debug)]
pub struct SpellTraits {
    pub rarity: String,
    pub traditions: Vec<String>,
    pub traits: Vec<String>,
}

pub struct SpellTraitsView {
    pub rarity: Seq<char>,
    pub traditions: Seq<Seq<char>>,
    pub traits: Seq<Seq<char>>,
}

impl View for SpellTraits {
    type V = SpellTraitsView;

    open spec fn view(&self) -> SpellTraitsView {
        SpellTraitsView {
            rarity: self.rarity@,
            traditions: strings_view(self.traditions@),
            traits: strings_view(self.traits@),
        }
    }
}

#[derive(Debug)]
pub struct Spell {
    pub raw_foundry_id: String,
    pub location_id: String,
    pub name: String,
    pub area: Option<Area>,
    pub counteraction: bool,
    pub damage: Vec<RawDamageData>,
    pub saving_throw: Option<SavingThrow>,
    pub sustained: bool,
    pub duration: Option<String>,
    pub level: i64,
    pub heightened_level: Option<i64>,
    pub range: String,
    pub target: String,
    pub actions: String,
    pub publication_info: PublicationInfo,
    pub traits: SpellTraits,
}

pub struct SpellView {
    pub raw_foundry_id: Seq<char>,
    pub location_id: Seq<char>,
    pub name: Seq<char>,
    pub area: Option<AreaView>,
    pub counteraction: bool,
    pub damage: Seq<RawDamageDataView>,
    pub saving_throw: Option<SavingThrowView>,
    pub sustained: bool,
    pub duration: Option<Seq<char>>,
    pub level: i64,
    pub heightened_level: Option<i64>,
    pub range: Seq<char>,
    pub target: Seq<char>,
    pub actions: Seq<char>,
    pub publication_info: PublicationInfoView,
    pub traits: SpellTraitsView,
}

impl View for Spell {
    type V = SpellView;

    open spec fn view(&self) -> SpellView {
        SpellView {
            raw_foundry_id: self.raw_foundry_id@,
            location_id: self.location_id@,
            name: self.name@,
            area: opt_view(self.area),
            counteraction: self.counteraction,
            damage: views(self.damage@),
            saving_throw: opt_view(self.saving_throw),
            sustained: self.sustained,
            duration: opt_view(self.duration),
            level: self.level,
            heightened_level: self.heightened_level,
            range: self.range@,
            target: self.target@,
            actions: self.actions@,
            publication_info: self.publication_info@,
            traits: self.traits@,
        }
    }
}

#[derive(Debug, Clone, Copy, PartialEq, Eq)]
pub enum SpellParsingError {
    FoundryId,
    SlotId,
    Name,
    Sustained,
    Level,
    Range,
    Target,
    Action,
    AreaMissingField,
    AreaType,
    AreaValue,
    Rarity,
    DamageType,
    DamageFormula,
    DamageKind,
    Resistance(ResistanceParserError),
    Publication(PublicationParsingError),
}

impl Area {
    /// An object with a string `type` and an integer `value`.
    pub open spec fn spec_try_from(j: JsonV) -> Result<AreaView, SpellParsingError> {
        if j.as_object() is None {
            Err(SpellParsingError::AreaMissingField)
        } else {
            match j.field("type"@).as_str() {
                None => Err(SpellParsingError::AreaType),
                Some(area_type) => match j.field("value"@).as_i64() {
                    None => Err(SpellParsingError::AreaValue),
                    Some(area_value) => Ok(AreaView { area_type, area_value }),
                },
            }
        }
    }

    pub fn try_from(json: &Json) -> (r: Result<Area, SpellParsingError>)
        ensures
            crate::model::result_view(r) == Self::spec_try_from(json@),
    {
        if json.as_object().is_none() {
            return Err(SpellParsingError::AreaMissingField);
        }
        let area_type = match str_of(json.get("type")) {
            Some(s) => s,
            None => return Err(SpellParsingError::AreaType),
        };
        let area_value = match i64_of(json.get("value")) {
            Some(v) => v,
            None => return Err(SpellParsingError::AreaValue),
        };
        Ok(Area { area_type, area_value })
    }

    pub fn copy(&self) -> (r: Area)
        ensures
            r@ == self@,
    {
        Area { area_type: self.area_type.clone(), area_value: self.area_value }
    }
}

impl RawDamageData {
    /// An optional string `category`, a string `formula`, the strings of the
    /// array `kinds`, and a string `type`, checked in that order.
    pub open spec fn spec_try_from(j: JsonV) -> Result<RawDamageDataView, SpellParsingError> {
        match j.field("formula"@).as_str() {
            None => Err(SpellParsingError::DamageFormula),
            Some(formula) => match j.field("kinds"@).as_array() {
                None => Err(SpellParsingError::DamageKind),
                Some(kinds) => match j.field("type"@).as_str() {
                    None => Err(SpellParsingError::DamageType),
                    Some(dmg_type) => Ok(
                        RawDamageDataView {
                            category: j.field("category"@).as_str(),
                            formula,
                            kinds: strings_of(kinds),
                            dmg_type,
                        },
                    ),
                },
            },
        }
    }

    pub fn try_from(json: &Json) -> (r: Result<RawDamageData, SpellParsingError>)
        ensures
            crate::model::result_view(r) == Self::spec_try_from(json@),
    {
        let category = str_of(json.get("category"));
        let formula = match str_of(json.get("formula")) {
            Some(s) => s,
            None => return Err(SpellParsingError::DamageFormula),
        };
        let kinds = match array_of(json.get("kinds")) {
            Some(items) => strings_in(items),
            None => return Err(SpellParsingError::DamageKind),
        };
        let dmg_type = match str_of(json.get("type")) {
            Some(s) => s,
            None => return Err(SpellParsingError::DamageType),
        };
        assert(opt_view(category) == crate::json::opt_string_view(category));
        Ok(RawDamageData { category, formula, kinds, dmg_type })
    }

    pub fn copy(&self) -> (r: RawDamageData)
        ensures
            r@ == self@,
    {
        let kinds = copy_strings(&self.kinds);
        assert(strings_view(kinds@) =~= views(kinds@));
        assert(strings_view(self.kinds@) =~= views(self.kinds@));
        RawDamageData {
            category: copy_opt_string(&self.category),
            formula: self.formula.clone(),
            kinds,
            dmg_type: self.dmg_type.clone(),
        }
    }
}

/// The strings of an array, or none where the value is not an array.
pub open spec fn strings_or_empty(j: JsonV) -> Seq<Seq<char>> {
    match j.as_array() {
        Some(items) => strings_of(items),
        None => Seq::empty(),
    }
}

fn strings_of_array(j: Option<&Json>) -> (r: Vec<String>)
    ensures
        strings_view(r@) == strings_or_empty(crate::json::or_null(j)),
{
    match array_of(j) {
        Some(items) => strings_in(items),
        None => {
            let v: Vec<String> = Vec::new();
            assert(strings_view(v@) =~= Seq::<Seq<char>>::empty());
            v
        },
    }
}

impl SpellTraits {
    /// A string `rarity`, and the strings of `traditions` and of `value`.
    pub open spec fn spec_try_from(j: JsonV) -> Result<SpellTraitsView, SpellParsingError> {
        match j.field("rarity"@).as_str() {
            None => Err(SpellParsingError::Rarity),
            Some(rarity) => Ok(
                SpellTraitsView {
                    rarity,
                    traditions: strings_or_empty(j.field("traditions"@)),
                    traits: strings_or_empty(j.field("value"@)),
                },
            ),
        }
    }

    pub fn try_from(json: &Json) -> (r: Result<SpellTraits, SpellParsingError>)
        ensures
            crate::model::result_view(r) == Self::spec_try_from(json@),
    {
        let rarity = match str_of(json.get("rarity")) {
            Some(s) => s,
            None => return Err(SpellParsingError::Rarity),
        };
        let traditions = strings_of_array(json.get("traditions"));
        let traits = strings_of_array(json.get("value"));
        Ok(SpellTraits { rarity, traditions, traits })
    }

    pub fn copy(&self) -> (r: SpellTraits)
        ensures
            r@ == self@,
    {
        let traditions = copy_strings(&self.traditions);
        let traits = copy_strings(&self.traits);
        assert(strings_view(traditions@) =~= views(traditions@));
        assert(strings_view(self.traditions@) =~= views(self.traditions@));
        assert(strings_view(traits@) =~= views(traits@));
        assert(strings_view(self.traits@) =~= views(self.traits@));
        SpellTraits { rarity: self.rarity.clone(), traditions, traits }
    }
}

pub open spec fn damage_parser() -> spec_fn(JsonV) -> Result<RawDamageDataView, SpellParsingError> {
    |x: JsonV| RawDamageData::spec_try_from(x)
}

/// The damage entries `"0"`, `"1"`, ... of a spell, or the error of the first
/// that does not parse.
pub open spec fn spec_damage(j: JsonV) -> Result<Seq<RawDamageDataView>, SpellParsingError> {
    collect_ok(numbered(j), damage_parser())
}

fn damage_of(j: Option<&Json>) -> (r: Result<Vec<RawDamageData>, SpellParsingError>)
    ensures
        match r {
            Ok(v) => spec_damage(crate::json::or_null(j)) == Ok::<Seq<RawDamageDataView>, SpellParsingError>(views(v@)),
            Err(e) => spec_damage(crate::json::or_null(j)) == Err::<Seq<RawDamageDataView>, SpellParsingError>(e),
        },
{
    let items = numbered_values(j);
    proof {
        lemma_items_view(items@);
    }
    let ghost iv = items_view(items@);
    let mut out: Vec<RawDamageData> = Vec::new();
    let mut i: usize = 0;
    assert(views(out@) =~= Seq::<RawDamageDataView>::empty());
    assert(iv.subrange(0, 0) =~= Seq::<JsonV>::empty());
    while i < items.len()
        invariant
            i <= items@.len(),
            iv == items_view(items@),
            iv == numbered(crate::json::or_null(j)),
            iv.len() == items@.len(),
            forall|k: int| 0 <= k < items@.len() ==> #[trigger] iv[k] == json_view(items@[k]),
            collect_ok(iv.subrange(0, i as int), damage_parser()) == Ok::<Seq<RawDamageDataView>, SpellParsingError>(views(out@)),
        decreases items@.len() - i,
    {
        let ghost pre = iv.subrange(0, i as int);
        let ghost next = iv.subrange(0, i + 1);
        assert(next.drop_last() =~= pre);
        assert(next.last() == json_view(items@[i as int]));
        match RawDamageData::try_from(&items[i]) {
            Ok(d) => {
                let ghost dv = d@;
                let ghost before = out@;
                out.push(d);
                assert(views(out@) =~= views(before).push(dv));
            },
            Err(e) => {
                proof {
                    assert(damage_parser()(next.last()) == Err::<RawDamageDataView, SpellParsingError>(e));
                    lemma_collect_err_prefix(iv, damage_parser(), i + 1);
                }
                return Err(e);
            },
        }
        i = i + 1;
    }
    assert(iv.subrange(0, iv.len() as int) =~= iv);
    Ok(out)
}

pub open spec fn ok_or_none<T, E>(r: Result<T, E>) -> Option<T> {
    match r {
        Ok(v) => Some(v),
        Err(_) => None,
    }
}

impl Spell {
    pub open spec fn spec_try_from(j: JsonV) -> Result<SpellView, SpellParsingError> {
        let system = j.field("system"@);
        let location = system.field("location"@);
        let duration = system.field("duration"@);
        match spec_damage(system.field("damage"@)) {
            Err(e) => Err(e),
            Ok(damage) => match j.field("_id"@).as_str() {
                None => Err(SpellParsingError::FoundryId),
                Some(raw_foundry_id) => match location.field("value"@).as_str() {
                    None => Err(SpellParsingError::SlotId),
                    Some(location_id) => match j.field("name"@).as_str() {
                        None => Err(SpellParsingError::Name),
                        Some(name) => match duration.field("sustained"@).as_bool() {
                            None => Err(SpellParsingError::Sustained),
                            Some(sustained) => match system.field("level"@).field("value"@).as_i64() {
                                None => Err(SpellParsingError::Level),
                                Some(level) => match PublicationInfo::spec_try_from(system.field("publication"@)) {
                                    Err(e) => Err(SpellParsingError::Publication(e)),
                                    Ok(publication_info) => match system.field("range"@).field("value"@).as_str() {
                                        None => Err(SpellParsingError::Range),
                                        Some(range) => match system.field("target"@).field("value"@).as_str() {
                                            None => Err(SpellParsingError::Target),
                                            Some(target) => match system.field("time"@).field("value"@).as_str() {
                                                None => Err(SpellParsingError::Action),
                                                Some(actions) => match SpellTraits::spec_try_from(system.field("traits"@)) {
                                                    Err(e) => Err(e),
                                                    Ok(traits) => Ok(
                                                        SpellView {
                                                            raw_foundry_id,
                                                            location_id,
                                                            name,
                                                            area: match system.get("area"@) {
                                                                Some(a) => ok_or_none(Area::spec_try_from(a)),
                                                                None => None,
                                                            },
                                                            counteraction: match system.field("counteraction"@).as_bool() {
                                                                Some(b) => b,
                                                                None => false,
                                                            },
                                                            damage,
                                                            saving_throw: ok_or_none(
                                                                SavingThrow::spec_try_from(system.field("defense"@).field("save"@)),
                                                            ),
                                                            sustained,
                                                            duration: duration.field("value"@).as_str(),
                                                            level,
                                                            heightened_level: location.field("heightenedLevel"@).as_i64(),
                                                            range,
                                                            target,
                                                            actions,
                                                            publication_info,
                                                            traits,
                                                        },
                                                    ),
                                                },
                                            },
                                        },
                                    },
                                },
                            },
                        },
                    },
                },
            },
        }
    }

    pub fn try_from(json: &Json) -> (r: Result<Spell, SpellParsingError>)
        ensures
            crate::model::result_view(r) == Self::spec_try_from(json@),
    {
        let system = json.get("system");
        let null = Json::Null;
        let damage = match damage_of(field(system, "damage")) {
            Ok(d) => d,
            Err(e) => return Err(e),
        };
        let location = field(system, "location");
        let duration = field(system, "duration");
        let raw_foundry_id = match str_of(json.get("_id")) {
            Some(s) => s,
            None => return Err(SpellParsingError::FoundryId),
        };
        let location_id = match str_of(field(location, "value")) {
            Some(s) => s,
            None => return Err(SpellParsingError::SlotId),
        };
        let heightened_level = i64_of(field(location, "heightenedLevel"));
        let name = match str_of(json.get("name")) {
            Some(s) => s,
            None => return Err(SpellParsingError::Name),
        };
        let area = match field(system, "area") {
            Some(a) => match Area::try_from(a) {
                Ok(v) => Some(v),
                Err(_) => None,
            },
            None => None,
        };
        let counteraction = match bool_of(field(system, "counteraction")) {
            Some(b) => b,
            None => false,
        };
        let saving_throw = match SavingThrow::try_from(
            crate::model::deref_or(field(field(system, "defense"), "save"), &null),
        ) {
            Ok(s) => Some(s),
            Err(_) => None,
        };
        let sustained = match bool_of(field(duration, "sustained")) {
            Some(b) => b,
            None => return Err(SpellParsingError::Sustained),
        };
        let duration_value = str_of(field(duration, "value"));
        let level = match i64_of(field(field(system, "level"), "value")) {
            Some(v) => v,
            None => return Err(SpellParsingError::Level),
        };
        let publication_info = match PublicationInfo::try_from(
            crate::model::deref_or(field(system, "publication"), &null),
        ) {
            Ok(p) => p,
            Err(e) => return Err(SpellParsingError::Publication(e)),
        };
        let range = match str_of(field(field(system, "range"), "value")) {
            Some(s) => s,
            None => return Err(SpellParsingError::Range),
        };
        let target = match str_of(field(field(system, "target"), "value")) {
            Some(s) => s,
            None => return Err(SpellParsingError::Target),
        };
        let actions = match str_of(field(field(system, "time"), "value")) {
            Some(s) => s,
            None => return Err(SpellParsingError::Action),
        };
        let traits = match SpellTraits::try_from(crate::model::deref_or(field(system, "traits"), &null)) {
            Ok(t) => t,
            Err(e) => return Err(e),
        };
        assert(opt_view(duration_value) == crate::json::opt_string_view(duration_value));
        Ok(
            Spell {
                raw_foundry_id,
                location_id,
                name,
                area,
                counteraction,
                damage,
                saving_throw,
                sustained,
                duration: duration_value,
                level,
                heightened_level,
                range,
                target,
                actions,
                publication_info,
                traits,
            },
        )
    }

    pub fn copy(&self) -> (r: Spell)
        ensures
            r@ == self@,
    {
        let mut damage: Vec<RawDamageData> = Vec::new();
        let mut i: usize = 0;
        while i < self.damage.len()
            invariant
                i <= self.damage@.len(),
                damage@.len() == i,
                forall|k: int| 0 <= k < i ==> #[trigger] damage@[k]@ == self.damage@[k]@,
            decreases self.damage@.len() - i,
        {
            damage.push(self.damage[i].copy());
            i = i + 1;
        }
        assert(views(damage@) =~= views(self.damage@));
        Spell {
            raw_foundry_id: self.raw_foundry_id.clone(),
            location_id: self.location_id.clone(),
            name: self.name.clone(),
            area: match &self.area {
                Some(a) => Some(a.copy()),
                None => None,
            },
            counteraction: self.counteraction,
            damage,
            saving_throw: match &self.saving_throw {
                Some(s) => Some(s.copy()),
                None => None,
            },
            sustained: self.sustained,
            duration: copy_opt_string(&self.duration),
            level: self.level,
            heightened_level: self.heightened_level,
            range: self.range.clone(),
            target: self.target.clone(),
            actions: self.actions.clone(),
            publication_info: self.publication_info.copy(),
            traits: self.traits.copy(),
        }
    }
}

} // verus!
