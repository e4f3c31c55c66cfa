//! Armour class, hit points, speeds and defences of creatures.
use crate::assoc::{map_of_array, spec_map_of_array, StrIntMap};
use crate::json::{array_of, field, i64_of, items_view, json_view, lemma_items_view, str_of, strings_view, sub_strings, spec_sub_strings, Json, JsonV};
use crate::model::{collect_ok, lemma_collect_err_prefix, views};
use crate::schema::source_schema::common::resistance::ResistanceView;
use crate::schema::source_schema::creature::resistance::{Resistance, ResistanceParserError};
use crate::schema::source_schema::hp_values::{HpParsingError, RawHpValues};
use vstd::prelude::*;

verus! {

#[derive(Debug)]
pub struct RawAttributes {
    pub ac: i64,
    pub ac_details: String,
    pub hp_values: RawHpValues,
    pub hp_details: String,
    pub speed: StrIntMap,
    pub immunities: Vec<String>,
    pub resistances: Vec<Resistance>,
    pub weakness: StrIntMap,
}

pub struct RawAttributesView {
    pub ac: i64,
    pub ac_details: Seq<char>,
    pub hp: i64,
    pub hp_details: Seq<char>,
    pub speed: Map<Seq<char>, i64>,
    pub immunities: Seq<Seq<char>>,
    pub resistances: Seq<ResistanceView>,
    pub weakness: Map<Seq<char>, i64>,
}

impl View for RawAttributes {
    type V = RawAttributesView;

    open spec fn view(&self) -> RawAttributesView {
        RawAttributesView {
            ac: self.ac,
            ac_details: self.ac_details@,
            hp: self.hp_values@,
            hp_details: self.hp_details@,
            speed: self.speed@,
            immunities: strings_view(self.immunities@),
            resistances: views(self.resistances@),
            weakness: self.weakness@,
        }
    }
}

#[derive(Debug, Clone, Copy, PartialEq, Eq)]
pub enum AttributeParsingError {
    AC,
    HPDetail,
    ACDetail,
    ResistanceError(ResistanceParserError),
    HpError(HpParsingError),
}

/// The resistances that an array lists, or the error of the first that does
/// not parse.
pub open spec fn spec_resistances(items: Seq<JsonV>) -> Result<Seq<ResistanceView>, ResistanceParserError> {
    collect_ok(items, resistance_parser())
}

pub open spec fn resistance_parser() -> spec_fn(JsonV) -> Result<ResistanceView, ResistanceParserError> {
    |x: JsonV| Resistance::spec_try_from(x)
}

/// The array in `j`, or no elements where `j` is not an array.
pub open spec fn items_or_empty(j: JsonV) -> Seq<JsonV> {
    match j.as_array() {
        Some(items) => items,
        None => Seq::empty(),
    }
}

/// The speeds: those of `otherSpeeds`, and `Base` for the `value` (0 where it is
/// not an integer).
pub open spec fn spec_speed(speed: JsonV) -> Map<Seq<char>, i64> {
    let others = match spec_map_of_array(speed, "otherSpeeds"@) {
        Some(m) => m,
        None => Map::empty(),
    };
    others.insert(
        "Base"@,
        match speed.field("value"@).as_i64() {
            Some(v) => v,
            None => 0,
        },
    )
}

/// The weaknesses that `weaknesses` lists, none where it is not an array.
pub open spec fn spec_weakness(j: JsonV) -> Map<Seq<char>, i64> {
    match spec_map_of_array(j, "weaknesses"@) {
        Some(m) => m,
        None => Map::empty(),
    }
}

/// The resistances of an array that may be absent.
fn resistances_of(j: Option<&Json>) -> (r: Result<Vec<Resistance>, ResistanceParserError>)
    ensures
        match r {
            Ok(v) => spec_resistances(items_or_empty(crate::json::or_null(j))) == Ok::<Seq<ResistanceView>, ResistanceParserError>(views(v@)),
            Err(e) => spec_resistances(items_or_empty(crate::json::or_null(j))) == Err::<Seq<ResistanceView>, ResistanceParserError>(e),
        },
{
    let mut out: Vec<Resistance> = Vec::new();
    match array_of(j) {
        None => {
            assert(views(out@) =~= Seq::<ResistanceView>::empty());
            Ok(out)
        },
        Some(items) => {
            proof {
                lemma_items_view(items@);
            }
            let ghost iv = items_view(items@);
            let mut i: usize = 0;
            assert(views(out@) =~= Seq::<ResistanceView>::empty());
            assert(iv.subrange(0, 0) =~= Seq::<JsonV>::empty());
            while i < items.len()
                invariant
                    i <= items@.len(),
                    iv == items_view(items@),
                    crate::json::or_null(j).as_array() == Some(iv),
                    iv.len() == items@.len(),
                    forall|k: int| 0 <= k < items@.len() ==> #[trigger] iv[k] == json_view(items@[k]),
                    spec_resistances(iv.subrange(0, i as int)) == Ok::<Seq<ResistanceView>, ResistanceParserError>(views(out@)),
                decreases items@.len() - i,
            {
                let ghost pre = iv.subrange(0, i as int);
                let ghost next = iv.subrange(0, i + 1);
                assert(next.drop_last() =~= pre);
                assert(next.last() == json_view(items@[i as int]));
                match Resistance::try_from(&items[i]) {
                    Ok(res) => {
                        let ghost rv = res@;
                        let ghost before = out@;
                        out.push(res);
                        assert(views(out@) =~= views(before).push(rv));
                    },
                    Err(e) => {
                        proof {
                            assert(resistance_parser()(next.last()) == Err::<ResistanceView, ResistanceParserError>(e));
                            lemma_collect_err_prefix(iv, resistance_parser(), i + 1);
                            assert(items_or_empty(crate::json::or_null(j)) == iv);
                        }
                        return Err(e);
                    },
                }
                i = i + 1;
            }
            assert(iv.subrange(0, iv.len() as int) =~= iv);
            Ok(out)
        },
    }
}

impl RawAttributes {
    pub open spec fn spec_try_from(j: JsonV) -> Result<RawAttributesView, AttributeParsingError> {
        let ac = j.field("ac"@);
        let hp = j.field("hp"@);
        match ac.field("value"@).as_i64() {
            None => Err(AttributeParsingError::AC),
            Some(ac_value) => match ac.field("details"@).as_str() {
                None => Err(AttributeParsingError::ACDetail),
                Some(ac_details) => match RawHpValues::spec_try_from(hp) {
                    Err(e) => Err(AttributeParsingError::HpError(e)),
                    Ok(hp_value) => match hp.field("details"@).as_str() {
                        None => Err(AttributeParsingError::HPDetail),
                        Some(hp_details) => match spec_resistances(items_or_empty(j.field("resistances"@))) {
                            Err(e) => Err(AttributeParsingError::ResistanceError(e)),
                            Ok(resistances) => Ok(
                                RawAttributesView {
                                    ac: ac_value,
                                    ac_details,
                                    hp: hp_value,
                                    hp_details,
                                    speed: spec_speed(j.field("speed"@)),
                                    immunities: spec_sub_strings(j, "immunities"@, "type"@),
                                    resistances,
                                    weakness: spec_weakness(j),
                                },
                            ),
                        },
                    },
                },
            },
        }
    }

    pub fn try_from(json: &Json) -> (r: Result<RawAttributes, AttributeParsingError>)
        ensures
            match r {
                Ok(a) => a.speed.wf() && a.weakness.wf() && Self::spec_try_from(json@) == Ok::<RawAttributesView, AttributeParsingError>(a@),
                Err(e) => Self::spec_try_from(json@) == Err::<RawAttributesView, AttributeParsingError>(e),
            },
    {
        let ac_json = json.get("ac");
        let hp_json = json.get("hp");
        let speed_json = json.get("speed");
        let mut speed = match map_of_array(speed_json, "otherSpeeds") {
            Some(m) => m,
            None => StrIntMap::new(),
        };
        let base = match i64_of(field(speed_json, "value")) {
            Some(v) => v,
            None => 0,
        };
        speed.insert(crate::json::text("Base"), base);
        let ac = match i64_of(field(ac_json, "value")) {
            Some(v) => v,
            None => return Err(AttributeParsingError::AC),
        };
        let ac_details = match str_of(field(ac_json, "details")) {
            Some(s) => s,
            None => return Err(AttributeParsingError::ACDetail),
        };
        let null = Json::Null;
        let hp_values = match RawHpValues::try_from(crate::model::deref_or(hp_json, &null)) {
            Ok(h) => h,
            Err(e) => return Err(AttributeParsingError::HpError(e)),
        };
        let hp_details = match str_of(field(hp_json, "details")) {
            Some(s) => s,
            None => return Err(AttributeParsingError::HPDetail),
        };
        let immunities = sub_strings(Some(json), "immunities", "type");
        let resistances = match resistances_of(json.get("resistances")) {
            Ok(v) => v,
            Err(e) => return Err(AttributeParsingError::ResistanceError(e)),
        };
        let weakness = match map_of_array(Some(json), "weaknesses") {
            Some(m) => m,
            None => StrIntMap::new(),
        };
        proof {
            reveal_strlit("Base");
        }
        Ok(RawAttributes { ac, ac_details, hp_values, hp_details, speed, immunities, resistances, weakness })
    }
}

} // verus!
