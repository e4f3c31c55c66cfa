//! Resources of creatures.
use crate::json::{field, i64_of, Json, JsonV};
use vstd::prelude::*;

verus! {

#[derive(Debug)]
pub struct RawResource {
    pub n_of_focus_points: i64,
}

impl RawResource {
    /// The number of focus points: `focus.max`, 0 where it is not an integer.
    pub open spec fn spec_focus_points(j: JsonV) -> i64 {
        match j.field("focus"@).field("max"@).as_i64() {
            Some(v) => v,
            None => 0,
        }
    }

    pub fn init_from_json(json: &Json) -> (r: RawResource)
        ensures
            r.n_of_focus_points == Self::spec_focus_points(json@),
    {
        RawResource {
            n_of_focus_points: match i64_of(field(json.get("focus"), "max")) {
                Some(v) => v,
                None => 0,
            },
        }
    }
}

} // verus!
