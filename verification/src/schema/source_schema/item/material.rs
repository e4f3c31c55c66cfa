//! Materials of items.
use crate::json::{str_of, Json, JsonV, opt_string_view};
use crate::model::opt_view;
use vstd::prelude::*;

verus! {

#[derive(Debug)]
pub struct RawMaterial {
    pub grade: Option<String>,
    pub m_type: Option<String>,
}

pub struct RawMaterialView {
    pub grade: Option<Seq<char>>,
    pub m_type: Option<Seq<char>>,
}

impl View for RawMaterial {
    type V = RawMaterialView;

    open spec fn view(&self) -> RawMaterialView {
        RawMaterialView { grade: opt_view(self.grade), m_type: opt_view(self.m_type) }
    }
}

impl RawMaterial {
    pub open spec fn spec_from(j: JsonV) -> RawMaterialView {
        RawMaterialView { grade: j.field("grade"@).as_str(), m_type: j.field("type"@).as_str() }
    }

    pub fn from(json: &Json) -> (r: RawMaterial)
        ensures
            r@ == Self::spec_from(json@),
    {
        let grade = str_of(json.get("grade"));
        let m_type = str_of(json.get("type"));
        assert(opt_view(grade) == opt_string_view(grade));
        assert(opt_view(m_type) == opt_string_view(m_type));
        RawMaterial { grade, m_type }
    }
}

} // verus!
