//! Prices in platinum, gold, silver and copper pieces.
use crate::json::{field, i64_of, Json, JsonV};
use vstd::prelude::*;

verus! {

#[derive(Debug)]
pub struct PriceStruct {
    pub pp: i64,
    pub gp: i64,
    pub sp: i64,
    pub cp: i64,
}

/// A coin count read from `value.<coin>`, 0 where it is not an integer.
pub open spec fn coin(j: JsonV, c: Seq<char>) -> i64 {
    match j.field("value"@).field(c).as_i64() {
        Some(v) => v,
        None => 0,
    }
}

impl View for PriceStruct {
    type V = (i64, i64, i64, i64);

    /// The coins: platinum, gold, silver, copper.
    open spec fn view(&self) -> (i64, i64, i64, i64) {
        (self.pp, self.gp, self.sp, self.cp)
    }
}

/// The price that `value` gives.
pub open spec fn spec_price(j: JsonV) -> (i64, i64, i64, i64) {
    (coin(j, "pp"@), coin(j, "gp"@), coin(j, "sp"@), coin(j, "cp"@))
}

impl PriceStruct {
    pub fn init_from_json(json: &Json) -> (r: PriceStruct)
        ensures
            r.pp == coin(json@, "pp"@),
            r.gp == coin(json@, "gp"@),
            r.sp == coin(json@, "sp"@),
            r.cp == coin(json@, "cp"@),
            r@ == spec_price(json@),
    {
        let prices = json.get("value");
        PriceStruct {
            pp: match i64_of(field(prices, "pp")) {
                Some(v) => v,
                None => 0,
            },
            gp: match i64_of(field(prices, "gp")) {
                Some(v) => v,
                None => 0,
            },
            sp: match i64_of(field(prices, "sp")) {
                Some(v) => v,
                None => 0,
            },
            cp: match i64_of(field(prices, "cp")) {
                Some(v) => v,
                None => 0,
            },
        }
    }

    /// Every step of `pp * 1000 + gp * 100 + sp * 10 + cp` fits an `i64`.
    pub open spec fn fits(&self) -> bool {
        &&& i64::MIN <= self.pp * 1000 <= i64::MAX
        &&& i64::MIN <= self.gp * 100 <= i64::MAX
        &&& i64::MIN <= self.sp * 10 <= i64::MAX
        &&& i64::MIN <= self.pp * 1000 + self.gp * 100 <= i64::MAX
        &&& i64::MIN <= self.pp * 1000 + self.gp * 100 + self.sp * 10 <= i64::MAX
        &&& i64::MIN <= self.pp * 1000 + self.gp * 100 + self.sp * 10 + self.cp <= i64::MAX
    }

    /// The value of the price in copper pieces.
    pub open spec fn spec_to_cp(&self) -> int {
        self.pp * 1000 + self.gp * 100 + self.sp * 10 + self.cp
    }

    pub fn to_cp(&self) -> (r: i64)
        requires
            self.fits(),
        ensures
            r == self.spec_to_cp(),
    {
        self.pp * 1000 + self.gp * 100 + self.sp * 10 + self.cp
    }
}

} // verus!
