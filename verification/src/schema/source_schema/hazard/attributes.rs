//! Armour class, hit points, stealth and defences of hazards.
use crate::assoc::{map_of_array, spec_map_of_array, StrIntMap};
use crate::json::{array_of, bool_of, field, i64_of, items_view, json_view, lemma_items_view, str_of, strings_view, sub_strings, spec_sub_strings, Json, JsonV};
use crate::model::{collect_ok, lemma_collect_err_prefix, opt_view, views};
use crate::schema::source_schema::common::description::Description;
use crate::schema::source_schema::common::resistance::{Resistance, ResistanceParserError, ResistanceView};
use crate::schema::source_schema::creature::attributes::items_or_empty;
use crate::schema::source_schema::hp_values::{HpParsingError, RawHpValues};
use vstd::prelude::*;

verus! {

/// The hit points of a hazard, with the text that details them.
#[derive(Debug)]
pub struct HazardHpValues {
    pub hp: i64,
    pub hp_details: Option<String>,
}

pub struct HazardHpValuesView {
    pub hp: i64,
    pub hp_details: Option<Seq<char>>,
}

impl View for HazardHpValues {
    type V = HazardHpValuesView;

    open spec fn view(&self) -> HazardHpValuesView {
        HazardHpValuesView { hp: self.hp, hp_details: opt_view(self.hp_details) }
    }
}

impl HazardHpValues {
    /// The hit points as for creatures, and the string `details`, if any.
    pub open spec fn spec_try_from(j: JsonV) -> Result<HazardHpValuesView, HpParsingError> {
        match RawHpValues::spec_try_from(j) {
            Err(e) => Err(e),
            Ok(hp) => Ok(HazardHpValuesView { hp, hp_details: j.field("details"@).as_str() }),
        }
    }

    pub fn try_from(json: &Json) -> (r: Result<HazardHpValues, HpParsingError>)
        ensures
            crate::model::result_view(r) == Self::spec_try_from(json@),
    {
        match RawHpValues::try_from(json) {
            Err(e) => Err(e),
            Ok(h) => {
                let hp_details = str_of(json.get("details"));
                assert(opt_view(hp_details) == crate::json::opt_string_view(hp_details));
                Ok(HazardHpValues { hp: h.hp, hp_details })
            },
        }
    }
}

#[derive(Debug)]
pub struct RawAttributes {
    pub ac: Option<i64>,
    pub ac_details: Option<String>,
    pub speed: StrIntMap,
    pub immunities: Vec<String>,
    pub resistances: Vec<Resistance>,
    pub weakness: StrIntMap,
    pub stealth: i64,
    pub stealth_detail: Description,
    pub hardness: i64,
    pub has_health: bool,
    pub hp_values: Option<HazardHpValues>,
}

pub struct RawAttributesView {
    pub ac: Option<i64>,
    pub ac_details: Option<Seq<char>>,
    pub speed: Map<Seq<char>, i64>,
    pub immunities: Seq<Seq<char>>,
    pub resistances: Seq<ResistanceView>,
    pub weakness: Map<Seq<char>, i64>,
    pub stealth: i64,
    pub stealth_detail: Seq<char>,
    pub hardness: i64,
    pub has_health: bool,
    pub hp_values: Option<HazardHpValuesView>,
}

impl View for RawAttributes {
    type V = RawAttributesView;

    open spec fn view(&self) -> RawAttributesView {
        RawAttributesView {
            ac: self.ac,
            ac_details: opt_view(self.ac_details),
            speed: self.speed@,
            immunities: strings_view(self.immunities@),
            resistances: views(self.resistances@),
            weakness: self.weakness@,
            stealth: self.stealth,
            stealth_detail: self.stealth_detail@,
            hardness: self.hardness,
            has_health: self.has_health,
            hp_values: opt_view(self.hp_values),
        }
    }
}

#[derive(Debug, Clone, Copy, PartialEq, Eq)]
pub enum AttributeParsingError {
    ResistanceError(ResistanceParserError),
    HpError(HpParsingError),
}

pub open spec fn hazard_resistance_parser() -> spec_fn(JsonV) -> Result<ResistanceView, ResistanceParserError> {
    |x: JsonV| Resistance::spec_try_from(x)
}

/// The speeds of `otherSpeeds`, and `Base` for an integer `value`.
pub open spec fn spec_hazard_speed(speed: JsonV) -> Map<Seq<char>, i64> {
    let others = match spec_map_of_array(speed, "otherSpeeds"@) {
        Some(m) => m,
        None => Map::empty(),
    };
    match speed.field("value"@).as_i64() {
        Some(v) => others.insert("Base"@, v),
        None => others,
    }
}

fn hazard_resistances(j: Option<&Json>) -> (r: Result<Vec<Resistance>, ResistanceParserError>)
    ensures
        match r {
            Ok(v) => collect_ok(items_or_empty(crate::json::or_null(j)), hazard_resistance_parser()) == Ok::<Seq<ResistanceView>, ResistanceParserError>(views(v@)),
            Err(e) => collect_ok(items_or_empty(crate::json::or_null(j)), hazard_resistance_parser()) == Err::<Seq<ResistanceView>, ResistanceParserError>(e),
        },
{
    let mut out: Vec<Resistance> = Vec::new();
    match array_of(j) {
        None => {
            assert(views(out@) =~= Seq::<ResistanceView>::empty());
            Ok(out)
        },
        Some(items) => {
            proof {
                lemma_items_view(items@);
            }
            let ghost iv = items_view(items@);
            let mut i: usize = 0;
            assert(views(out@) =~= Seq::<ResistanceView>::empty());
            assert(iv.subrange(0, 0) =~= Seq::<JsonV>::empty());
            while i < items.len()
                invariant
                    i <= items@.len(),
                    iv == items_view(items@),
                    crate::json::or_null(j).as_array() == Some(iv),
                    iv.len() == items@.len(),
                    forall|k: int| 0 <= k < items@.len() ==> #[trigger] iv[k] == json_view(items@[k]),
                    collect_ok(iv.subrange(0, i as int), hazard_resistance_parser()) == Ok::<Seq<ResistanceView>, ResistanceParserError>(views(out@)),
                decreases items@.len() - i,
            {
                let ghost pre = iv.subrange(0, i as int);
                let ghost next = iv.subrange(0, i + 1);
                assert(next.drop_last() =~= pre);
                assert(next.last() == json_view(items@[i as int]));
                match Resistance::try_from(&items[i]) {
                    Ok(res) => {
                        let ghost rv = res@;
                        let ghost before = out@;
                        out.push(res);
                        assert(views(out@) =~= views(before).push(rv));
                    },
                    Err(e) => {
                        proof {
                            assert(hazard_resistance_parser()(next.last()) == Err::<ResistanceView, ResistanceParserError>(e));
                            lemma_collect_err_prefix(iv, hazard_resistance_parser(), i + 1);
                            assert(items_or_empty(crate::json::or_null(j)) == iv);
                        }
                        return Err(e);
                    },
                }
                i = i + 1;
            }
            assert(iv.subrange(0, iv.len() as int) =~= iv);
            Ok(out)
        },
    }
}

impl RawAttributes {
    /// Reading panics where the resistances parse and `stealth.details` is no string.
    pub open spec fn stops(j: JsonV) -> bool {
        &&& collect_ok(items_or_empty(j.field("resistances"@)), hazard_resistance_parser()) is Ok
        &&& j.field("stealth"@).field("details"@).as_str() is None
    }

    pub open spec fn spec_try_from(j: JsonV) -> Result<RawAttributesView, AttributeParsingError> {
        let ac = j.field("ac"@);
        let hp_values = match HazardHpValues::spec_try_from(j.field("hp"@)) {
            Ok(h) => Some(h),
            Err(_) => None,
        };
        match collect_ok(items_or_empty(j.field("resistances"@)), hazard_resistance_parser()) {
            Err(e) => Err(AttributeParsingError::ResistanceError(e)),
            Ok(resistances) => Ok(
                RawAttributesView {
                    ac: ac.get("value"@).unwrap_or(JsonV::Null).as_i64(),
                    ac_details: ac.field("details"@).as_str(),
                    speed: spec_hazard_speed(j.field("speed"@)),
                    immunities: spec_sub_strings(j, "immunities"@, "type"@),
                    resistances,
                    weakness: match spec_map_of_array(j, "weaknesses"@) {
                        Some(m) => m,
                        None => Map::empty(),
                    },
                    stealth: match j.field("stealth"@).field("value"@).as_i64() {
                        Some(v) => v,
                        None => 0,
                    },
                    stealth_detail: j.field("stealth"@).field("details"@).as_str().unwrap(),
                    hardness: match j.field("hardness"@).as_i64() {
                        Some(v) => v,
                        None => 0,
                    },
                    has_health: match j.field("hasHealth"@).as_bool() {
                        Some(b) => b,
                        None => hp_values is Some && hp_values.unwrap().hp > 0,
                    },
                    hp_values,
                },
            ),
        }
    }

    /// Tells whether reading the attributes in `json` would panic.
    pub fn stops_on(json: &Json) -> (r: bool)
        ensures
            r == Self::stops(json@),
    {
        let resistances_read = hazard_resistances(json.get("resistances")).is_ok();
        resistances_read && str_of(field(json.get("stealth"), "details")).is_none()
    }

    pub fn try_from(json: &Json) -> (r: Result<RawAttributes, AttributeParsingError>)
        requires
            !Self::stops(json@),
        ensures
            match r {
                Ok(a) => a.speed.wf() && a.weakness.wf() && Self::spec_try_from(json@) == Ok::<RawAttributesView, AttributeParsingError>(a@),
                Err(e) => Self::spec_try_from(json@) == Err::<RawAttributesView, AttributeParsingError>(e),
            },
    {
        let ac_json = json.get("ac");
        let null = Json::Null;
        let speed_json = json.get("speed");
        let mut speed = match map_of_array(speed_json, "otherSpeeds") {
            Some(m) => m,
            None => StrIntMap::new(),
        };
        match i64_of(field(speed_json, "value")) {
            Some(v) => {
                speed.insert(crate::json::text("Base"), v);
                proof {
                    reveal_strlit("Base");
                }
            },
            None => {},
        }
        let stealth_json = json.get("stealth");
        let stealth = match i64_of(field(stealth_json, "value")) {
            Some(v) => v,
            None => 0,
        };
        let hp_values = match HazardHpValues::try_from(crate::model::deref_or(json.get("hp"), &null)) {
            Ok(h) => Some(h),
            Err(_) => None,
        };
        let has_health = match bool_of(json.get("hasHealth")) {
            Some(b) => b,
            None => match &hp_values {
                Some(h) => h.hp > 0,
                None => false,
            },
        };
        let ac = i64_of(field(ac_json, "value"));
        let ac_details = str_of(field(ac_json, "details"));
        let immunities = sub_strings(Some(json), "immunities", "type");
        let resistances = match hazard_resistances(json.get("resistances")) {
            Ok(v) => v,
            Err(e) => return Err(AttributeParsingError::ResistanceError(e)),
        };
        let weakness = match map_of_array(Some(json), "weaknesses") {
            Some(m) => m,
            None => StrIntMap::new(),
        };
        let hardness = match i64_of(json.get("hardness")) {
            Some(v) => v,
            None => 0,
        };
        let stealth_detail = match str_of(field(stealth_json, "details")) {
            Some(d) => Description::from_string(d),
            None => {
                assert(false);
                Description::default()
            },
        };
        assert(opt_view(ac_details) == crate::json::opt_string_view(ac_details));
        Ok(
            RawAttributes {
                ac,
                ac_details,
                speed,
                immunities,
                resistances,
                weakness,
                stealth,
                stealth_detail,
                hardness,
                has_health,
                hp_values,
            },
        )
    }
}

} // verus!
