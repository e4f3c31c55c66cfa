//! Level, languages and publication of creatures.
use crate::json::{array_of, field, i64_of, str_of, strings_in, strings_of, strings_view, Json, JsonV};
use crate::schema::publication_info::{PublicationInfo, PublicationInfoView, PublicationParsingError};
use vstd::prelude::*;

verus! {

#[derive(Debug)]
pub struct RawDetails {
    pub languages_details: String,
    pub languages: Vec<String>,
    pub level: i64,
    pub publication_info: PublicationInfo,
}

pub struct RawDetailsView {
    pub languages_details: Seq<char>,
    pub languages: Seq<Seq<char>>,
    pub level: i64,
    pub publication_info: PublicationInfoView,
}

impl View for RawDetails {
    type V = RawDetailsView;

    open spec fn view(&self) -> RawDetailsView {
        RawDetailsView {
            languages_details: self.languages_details@,
            languages: strings_view(self.languages@),
            level: self.level,
            publication_info: self.publication_info@,
        }
    }
}

#[derive(Debug, Clone, Copy, PartialEq, Eq)]
pub enum DetailsParsingError {
    LevelMissing,
    LevelNaN,
    LanguageDetailsFieldMissing,
    LanguageFieldMissing,
    PublicationError(PublicationParsingError),
}

impl RawDetails {
    /// `level.value` must be present and an integer; `languages.details` a
    /// string; `languages.value` an array, of which the strings are kept.
    pub open spec fn spec_try_from(j: JsonV) -> Result<RawDetailsView, DetailsParsingError> {
        let languages = j.field("languages"@);
        match j.field("level"@).get("value"@) {
            None => Err(DetailsParsingError::LevelMissing),
            Some(lv) => match lv.as_i64() {
                None => Err(DetailsParsingError::LevelNaN),
                Some(level) => match languages.field("details"@).as_str() {
                    None => Err(DetailsParsingError::LanguageDetailsFieldMissing),
                    Some(languages_details) => match languages.field("value"@).as_array() {
                        None => Err(DetailsParsingError::LanguageFieldMissing),
                        Some(items) => match PublicationInfo::spec_try_from(j.field("publication"@)) {
                            Err(e) => Err(DetailsParsingError::PublicationError(e)),
                            Ok(publication_info) => Ok(
                                RawDetailsView {
                                    languages_details,
                                    languages: strings_of(items),
                                    level,
                                    publication_info,
                                },
                            ),
                        },
                    },
                },
            },
        }
    }

    pub fn try_from(json: &Json) -> (r: Result<RawDetails, DetailsParsingError>)
        ensures
            crate::model::result_view(r) == Self::spec_try_from(json@),
    {
        let languages_json = json.get("languages");
        let level = match field(json.get("level"), "value") {
            None => return Err(DetailsParsingError::LevelMissing),
            Some(lv) => match lv.as_i64() {
                None => return Err(DetailsParsingError::LevelNaN),
                Some(v) => v,
            },
        };
        let languages_details = match str_of(field(languages_json, "details")) {
            Some(s) => s,
            None => return Err(DetailsParsingError::LanguageDetailsFieldMissing),
        };
        let languages = match array_of(field(languages_json, "value")) {
            Some(items) => strings_in(items),
            None => return Err(DetailsParsingError::LanguageFieldMissing),
        };
        let null = Json::Null;
        let publication_info = match PublicationInfo::try_from(
            crate::model::deref_or(json.get("publication"), &null),
        ) {
            Ok(p) => p,
            Err(e) => return Err(DetailsParsingError::PublicationError(e)),
        };
        Ok(RawDetails { languages_details, languages, level, publication_info })
    }
}

} // verus!
