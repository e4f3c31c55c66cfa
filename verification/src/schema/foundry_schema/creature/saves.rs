//! Saving throws of creatures in the earlier layout of the source data.
use crate::json::{field, i64_of, str_of, Json, JsonV};
use vstd::prelude::*;

verus! {

#[derive(Debug)]
pub struct RawSaves {
    pub fortitude: i64,
    pub fortitude_detail: String,
    pub reflex: i64,
    pub reflex_detail: String,
    pub will: i64,
    pub will_detail: String,
}

pub struct RawSavesView {
    pub fortitude: i64,
    pub fortitude_detail: Seq<char>,
    pub reflex: i64,
    pub reflex_detail: Seq<char>,
    pub will: i64,
    pub will_detail: Seq<char>,
}

impl View for RawSaves {
    type V = RawSavesView;

    open spec fn view(&self) -> RawSavesView {
        RawSavesView {
            fortitude: self.fortitude,
            fortitude_detail: self.fortitude_detail@,
            reflex: self.reflex,
            reflex_detail: self.reflex_detail@,
            will: self.will,
            will_detail: self.will_detail@,
        }
    }
}

/// A save reads: an integer `value` and a string `saveDetail`.
pub open spec fn save_reads(j: JsonV) -> bool {
    j.field("value"@).as_i64() is Some && j.field("saveDetail"@).as_str() is Some
}

impl RawSaves {
    /// The three saves read without panicking.
    pub open spec fn reads(j: JsonV) -> bool {
        save_reads(j.field("fortitude"@)) && save_reads(j.field("reflex"@)) && save_reads(j.field("will"@))
    }

    pub open spec fn spec_init(j: JsonV) -> RawSavesView {
        RawSavesView {
            fortitude: j.field("fortitude"@).field("value"@).as_i64().unwrap(),
            fortitude_detail: j.field("fortitude"@).field("saveDetail"@).as_str().unwrap(),
            reflex: j.field("reflex"@).field("value"@).as_i64().unwrap(),
            reflex_detail: j.field("reflex"@).field("saveDetail"@).as_str().unwrap(),
            will: j.field("will"@).field("value"@).as_i64().unwrap(),
            will_detail: j.field("will"@).field("saveDetail"@).as_str().unwrap(),
        }
    }

    pub fn init_from_json(json: &Json) -> (r: RawSaves)
        requires
            Self::reads(json@),
        ensures
            r@ == Self::spec_init(json@),
    {
        let f = json.get("fortitude");
        let r = json.get("reflex");
        let w = json.get("will");
        RawSaves {
            fortitude: i64_of(field(f, "value")).unwrap(),
            fortitude_detail: str_of(field(f, "saveDetail")).unwrap(),
            reflex: i64_of(field(r, "value")).unwrap(),
            reflex_detail: str_of(field(r, "saveDetail")).unwrap(),
            will: i64_of(field(w, "value")).unwrap(),
            will_detail: str_of(field(w, "saveDetail")).unwrap(),
        }
    }
}

} // verus!
