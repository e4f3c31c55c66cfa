//! Perception and senses of creatures.
use crate::json::{array_of, bool_of, i64_of, items_view, json_view, lemma_items_view, str_of, Json, JsonV};
use crate::model::{collect_ok, lemma_collect_err_prefix, views};
use crate::schema::source_schema::creature::sense::{Sense, SenseParsingError, SenseView};
use vstd::prelude::*;

verus! {

#[derive(Debug)]
pub struct RawPerception {
    pub perception_modifier: i64,
    pub perception_details: String,
    pub senses: Vec<Sense>,
    pub vision: bool,
}

pub struct RawPerceptionView {
    pub perception_modifier: i64,
    pub perception_details: Seq<char>,
    pub senses: Seq<SenseView>,
    pub vision: bool,
}

impl View for RawPerception {
    type V = RawPerceptionView;

    open spec fn view(&self) -> RawPerceptionView {
        RawPerceptionView {
            perception_modifier: self.perception_modifier,
            perception_details: self.perception_details@,
            senses: views(self.senses@),
            vision: self.vision,
        }
    }
}

#[derive(Debug, Clone, Copy, PartialEq, Eq)]
pub enum PerceptionParsingError {
    PerceptionModifierNaN,
    PerceptionDetails,
    Senses,
    Vision,
    SenseError(SenseParsingError),
}

pub open spec fn sense_parser() -> spec_fn(JsonV) -> Result<SenseView, SenseParsingError> {
    |x: JsonV| Sense::spec_try_from(x)
}

/// The senses of an array, or the error of the first that does not parse.
pub open spec fn spec_senses(items: Seq<JsonV>) -> Result<Seq<SenseView>, SenseParsingError> {
    collect_ok(items, sense_parser())
}

/// The array of senses holds a sense whose range is a number that is not a
/// 64-bit integer, before any sense that does not parse.
pub open spec fn senses_stop(items: Seq<JsonV>) -> bool {
    exists|k: int|
        0 <= k < items.len() && Sense::stops(#[trigger] items[k]) && spec_senses(items.subrange(0, k)) is Ok
}

fn senses_of(items: &Vec<Json>) -> (r: Result<Vec<Sense>, SenseParsingError>)
    requires
        !senses_stop(items_view(items@)),
    ensures
        match r {
            Ok(v) => spec_senses(items_view(items@)) == Ok::<Seq<SenseView>, SenseParsingError>(views(v@)),
            Err(e) => spec_senses(items_view(items@)) == Err::<Seq<SenseView>, SenseParsingError>(e),
        },
{
    proof {
        lemma_items_view(items@);
    }
    let ghost iv = items_view(items@);
    let mut out: Vec<Sense> = Vec::new();
    let mut i: usize = 0;
    assert(views(out@) =~= Seq::<SenseView>::empty());
    assert(iv.subrange(0, 0) =~= Seq::<JsonV>::empty());
    while i < items.len()
        invariant
            i <= items@.len(),
            iv == items_view(items@),
            iv.len() == items@.len(),
            forall|k: int| 0 <= k < items@.len() ==> #[trigger] iv[k] == json_view(items@[k]),
            !senses_stop(iv),
            spec_senses(iv.subrange(0, i as int)) == Ok::<Seq<SenseView>, SenseParsingError>(views(out@)),
        decreases items@.len() - i,
    {
        let ghost pre = iv.subrange(0, i as int);
        let ghost next = iv.subrange(0, i + 1);
        assert(next.drop_last() =~= pre);
        assert(next.last() == json_view(items@[i as int]));
        assert(!Sense::stops(iv[i as int]));
        match Sense::try_from(&items[i]) {
            Ok(s) => {
                let ghost sv = s@;
                let ghost before = out@;
                out.push(s);
                assert(views(out@) =~= views(before).push(sv));
            },
            Err(e) => {
                proof {
                    assert(sense_parser()(next.last()) == Err::<SenseView, SenseParsingError>(e));
                    lemma_collect_err_prefix(iv, sense_parser(), i + 1);
                }
                return Err(e);
            },
        }
        i = i + 1;
    }
    assert(iv.subrange(0, iv.len() as int) =~= iv);
    Ok(out)
}

fn senses_stop_on(items: &Vec<Json>) -> (r: bool)
    ensures
        r == senses_stop(items_view(items@)),
{
    proof {
        lemma_items_view(items@);
    }
    let ghost iv = items_view(items@);
    let mut out: Vec<Sense> = Vec::new();
    let mut i: usize = 0;
    assert(views(out@) =~= Seq::<SenseView>::empty());
    assert(iv.subrange(0, 0) =~= Seq::<JsonV>::empty());
    while i < items.len()
        invariant
            i <= items@.len(),
            iv == items_view(items@),
            iv.len() == items@.len(),
            forall|k: int| 0 <= k < items@.len() ==> #[trigger] iv[k] == json_view(items@[k]),
            spec_senses(iv.subrange(0, i as int)) == Ok::<Seq<SenseView>, SenseParsingError>(views(out@)),
            forall|k: int| 0 <= k < i ==> !Sense::stops(#[trigger] iv[k]),
        decreases items@.len() - i,
    {
        let ghost pre = iv.subrange(0, i as int);
        let ghost next = iv.subrange(0, i + 1);
        assert(next.drop_last() =~= pre);
        assert(next.last() == json_view(items@[i as int]));
        if Sense::stops_on(&items[i]) {
            assert(Sense::stops(iv[i as int]) && spec_senses(iv.subrange(0, i as int)) is Ok);
            return true;
        }
        match Sense::try_from(&items[i]) {
            Ok(s) => {
                let ghost sv = s@;
                let ghost before = out@;
                out.push(s);
                assert(views(out@) =~= views(before).push(sv));
            },
            Err(e) => {
                proof {
                    assert(sense_parser()(next.last()) == Err::<SenseView, SenseParsingError>(e));
                    assert forall|k: int|
                        0 <= k < iv.len() && Sense::stops(#[trigger] iv[k]) implies !(spec_senses(iv.subrange(0, k)) is Ok) by {
                        if k > i {
                            assert(iv.subrange(0, k).subrange(0, i + 1) =~= next);
                            lemma_collect_err_prefix(iv.subrange(0, k), sense_parser(), i + 1);
                        }
                    }
                }
                return false;
            },
        }
        i = i + 1;
    }
    false
}

impl RawPerception {
    /// Whether reading the perception would panic.
    pub fn stops_on(json: &Json) -> (r: bool)
        ensures
            r == Self::stops(json@),
    {
        if str_of(json.get("details")).is_none() || i64_of(json.get("mod")).is_none() {
            return false;
        }
        match array_of(json.get("senses")) {
            Some(items) => senses_stop_on(items),
            None => false,
        }
    }

    /// The perception is read past its senses only where none of them stops
    /// the reading (see `Sense::stops`).
    pub open spec fn stops(j: JsonV) -> bool {
        &&& j.field("details"@).as_str() is Some
        &&& j.field("mod"@).as_i64() is Some
        &&& match j.field("senses"@).as_array() {
            Some(items) => senses_stop(items),
            None => false,
        }
    }

    /// `details` a string, `mod` an integer, `senses` an array of senses, and
    /// `vision` a boolean where present (true where absent).
    pub open spec fn spec_try_from(j: JsonV) -> Result<RawPerceptionView, PerceptionParsingError> {
        match j.field("details"@).as_str() {
            None => Err(PerceptionParsingError::PerceptionDetails),
            Some(perception_details) => match j.field("mod"@).as_i64() {
                None => Err(PerceptionParsingError::PerceptionModifierNaN),
                Some(perception_modifier) => match j.field("senses"@).as_array() {
                    None => Err(PerceptionParsingError::Senses),
                    Some(items) => match spec_senses(items) {
                        Err(e) => Err(PerceptionParsingError::SenseError(e)),
                        Ok(senses) => match j.get("vision"@) {
                            Some(v) => match v.as_bool() {
                                None => Err(PerceptionParsingError::Vision),
                                Some(vision) => Ok(
                                    RawPerceptionView { perception_modifier, perception_details, senses, vision },
                                ),
                            },
                            None => Ok(
                                RawPerceptionView {
                                    perception_modifier,
                                    perception_details,
                                    senses,
                                    vision: true,
                                },
                            ),
                        },
                    },
                },
            },
        }
    }

    pub fn try_from(json: &Json) -> (r: Result<RawPerception, PerceptionParsingError>)
        requires
            !Self::stops(json@),
        ensures
            crate::model::result_view(r) == Self::spec_try_from(json@),
    {
        let perception_details = match str_of(json.get("details")) {
            Some(s) => s,
            None => return Err(PerceptionParsingError::PerceptionDetails),
        };
        let perception_modifier = match i64_of(json.get("mod")) {
            Some(v) => v,
            None => return Err(PerceptionParsingError::PerceptionModifierNaN),
        };
        let senses = match array_of(json.get("senses")) {
            None => return Err(PerceptionParsingError::Senses),
            Some(items) => match senses_of(items) {
                Ok(v) => v,
                Err(e) => return Err(PerceptionParsingError::SenseError(e)),
            },
        };
        let vision = match json.get("vision") {
            Some(v) => match v.as_bool() {
                Some(b) => b,
                None => return Err(PerceptionParsingError::Vision),
            },
            None => true,
        };
        Ok(RawPerception { perception_modifier, perception_details, senses, vision })
    }
}

} // verus!
