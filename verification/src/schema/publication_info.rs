//! Where a record was published.
use crate::json::{field, str_of, bool_of, Json, JsonV};
use crate::model::result_view;
use vstd::prelude::*;

verus! {

#[derive(Debug)]
pub struct PublicationInfo {
    pub license: String,
    pub remastered: bool,
    pub source: String,
}

pub struct PublicationInfoView {
    pub license: Seq<char>,
    pub remastered: bool,
    pub source: Seq<char>,
}

impl View for PublicationInfo {
    type V = PublicationInfoView;

    open spec fn view(&self) -> PublicationInfoView {
        PublicationInfoView { license: self.license@, remastered: self.remastered, source: self.source@ }
    }
}

#[derive(Debug, Clone, Copy, PartialEq, Eq)]
pub enum PublicationParsingError {
    Source,
    Remastered,
    License,
}

impl PublicationInfo {
    /// The publication read from `license`, `remaster` and `title`, checked in
    /// that order.
    pub open spec fn spec_try_from(j: JsonV) -> Result<PublicationInfoView, PublicationParsingError> {
        match j.field("license"@).as_str() {
            None => Err(PublicationParsingError::License),
            Some(license) => match j.field("remaster"@).as_bool() {
                None => Err(PublicationParsingError::Remastered),
                Some(remastered) => match j.field("title"@).as_str() {
                    None => Err(PublicationParsingError::Source),
                    Some(source) => Ok(PublicationInfoView { license, remastered, source }),
                },
            },
        }
    }

    pub fn try_from(json: &Json) -> (r: Result<PublicationInfo, PublicationParsingError>)
        ensures
            result_view(r) == Self::spec_try_from(json@),
    {
        let license = match str_of(field(Some(json), "license")) {
            Some(s) => s,
            None => return Err(PublicationParsingError::License),
        };
        let remastered = match bool_of(field(Some(json), "remaster")) {
            Some(b) => b,
            None => return Err(PublicationParsingError::Remastered),
        };
        let source = match str_of(field(Some(json), "title")) {
            Some(s) => s,
            None => return Err(PublicationParsingError::Source),
        };
        Ok(PublicationInfo { license, remastered, source })
    }

    pub fn copy(&self) -> (r: PublicationInfo)
        ensures
            r@ == self@,
    {
        PublicationInfo {
            license: self.license.clone(),
            remastered: self.remastered,
            source: self.source.clone(),
        }
    }
}

} // verus!
