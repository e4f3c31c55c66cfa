//! Traits with their display names and descriptions.
use crate::game_system::GameSystem;
use crate::json::{opt_string_view, Json, JsonV};
use crate::localize::trait_table::{spec_trait_path, TraitTable};
use crate::localize::{lookup_path, spec_lookup_path};
use vstd::prelude::*;

verus! {

#[derive(Debug)]
pub struct Trait {
    pub name: String,
    pub display_name: Option<String>,
    pub description: Option<String>,
}

#[derive(Debug, Clone, Copy, PartialEq, Eq)]
pub enum TraitLookupError {
    /// The table has no path for the trait and kind.
    NoTrait,
    /// Neither language file has a text at the trait's path.
    NoData,
}

/// The text of a trait of the given kind: its path from the table, then the
/// Starfinder text at that path where Starfinder is in effect and has one, else
/// the Pathfinder text.
pub open spec fn spec_fetch_trait(
    name: Seq<char>,
    kind: Seq<char>,
    gs: GameSystem,
    table: Seq<(Seq<char>, (Option<Seq<char>>, Option<Seq<char>>))>,
    lang: JsonV,
    sf2e: JsonV,
) -> Result<Seq<char>, TraitLookupError> {
    match spec_trait_path(table, name, kind) {
        None => Err(TraitLookupError::NoTrait),
        Some(path) => {
            let sf = if gs == GameSystem::Starfinder {
                spec_lookup_path(sf2e, path)
            } else {
                None
            };
            match sf {
                Some(v) => Ok(v),
                None => match spec_lookup_path(lang, path) {
                    Some(v) => Ok(v),
                    None => Err(TraitLookupError::NoData),
                },
            }
        },
    }
}

pub fn fetch_clean_trait_string(
    name: &str,
    kind: &str,
    gs: GameSystem,
    traits: &TraitTable,
    lang: &Json,
    sf2e: &Json,
) -> (r: Result<String, TraitLookupError>)
    ensures
        crate::model::result_view(r) == spec_fetch_trait(name@, kind@, gs, traits@, lang@, sf2e@),
{
    let dot_path = match traits.get(name, kind) {
        Some(p) => p,
        None => return Err(TraitLookupError::NoTrait),
    };
    if gs == GameSystem::Starfinder {
        match lookup_path(sf2e, dot_path.as_str()) {
            Some(v) => return Ok(v),
            None => {},
        }
    }
    match lookup_path(lang, dot_path.as_str()) {
        Some(v) => Ok(v),
        None => Err(TraitLookupError::NoData),
    }
}

pub open spec fn ok_text(r: Result<Seq<char>, TraitLookupError>) -> Option<Seq<char>> {
    match r {
        Ok(v) => Some(v),
        Err(_) => None,
    }
}

impl Trait {
    /// A trait with the texts of its name and description, where they are found.
    pub fn new(name: &str, game_system: GameSystem, traits: &TraitTable, lang: &Json, sf2e: &Json) -> (r: Trait)
        ensures
            r.name@ == name@,
            opt_string_view(r.display_name) == ok_text(spec_fetch_trait(name@, "trait"@, game_system, traits@, lang@, sf2e@)),
            opt_string_view(r.description) == ok_text(spec_fetch_trait(name@, "description"@, game_system, traits@, lang@, sf2e@)),
    {
        let display_name = match fetch_clean_trait_string(name, "trait", game_system, traits, lang, sf2e) {
            Ok(v) => Some(v),
            Err(_) => None,
        };
        let description = match fetch_clean_trait_string(name, "description", game_system, traits, lang, sf2e) {
            Ok(v) => Some(v),
            Err(_) => None,
        };
        Trait { display_name, description, name: crate::json::text(name) }
    }
}

} // verus!
