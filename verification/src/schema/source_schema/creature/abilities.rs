//! Ability modifiers of creatures.
use crate::json::{Json, JsonV};
use vstd::prelude::*;

verus! {

#[derive(Debug)]
pub struct RawAbilities {
    pub charisma: i64,
    pub constitution: i64,
    pub dexterity: i64,
    pub intelligence: i64,
    pub strength: i64,
    pub wisdom: i64,
}

#[derive(Debug, Clone, Copy, PartialEq, Eq)]
pub enum AbilityParsingError {
    Charisma,
    Constitution,
    Dexterity,
    Intelligence,
    Strength,
    Wisdom,
}

/// The modifier of one ability: its `mod` member, where `null` stands for 0.
pub open spec fn spec_ability_modifier(j: JsonV) -> Option<i64> {
    match j.get("mod"@) {
        None => None,
        Some(v) => if v is Null {
            Some(0)
        } else {
            v.as_i64()
        },
    }
}

fn get_ability_modifier(modifier: Option<&Json>) -> (r: Option<i64>)
    ensures
        r == spec_ability_modifier(crate::json::or_null(modifier)),
{
    match modifier {
        None => None,
        Some(m) => match m.get("mod") {
            None => None,
            Some(v) => if v.is_null() {
                Some(0)
            } else {
                v.as_i64()
            },
        },
    }
}

impl RawAbilities {
    pub open spec fn spec_try_from(j: JsonV) -> Result<RawAbilities, AbilityParsingError> {
        match spec_ability_modifier(j.field("cha"@)) {
            None => Err(AbilityParsingError::Charisma),
            Some(charisma) => match spec_ability_modifier(j.field("con"@)) {
                None => Err(AbilityParsingError::Constitution),
                Some(constitution) => match spec_ability_modifier(j.field("dex"@)) {
                    None => Err(AbilityParsingError::Dexterity),
                    Some(dexterity) => match spec_ability_modifier(j.field("int"@)) {
                        None => Err(AbilityParsingError::Intelligence),
                        Some(intelligence) => match spec_ability_modifier(j.field("str"@)) {
                            None => Err(AbilityParsingError::Strength),
                            Some(strength) => match spec_ability_modifier(j.field("wis"@)) {
                                None => Err(AbilityParsingError::Wisdom),
                                Some(wisdom) => Ok(
                                    RawAbilities {
                                        charisma,
                                        constitution,
                                        dexterity,
                                        intelligence,
                                        strength,
                                        wisdom,
                                    },
                                ),
                            },
                        },
                    },
                },
            },
        }
    }

    pub fn try_from(json: &Json) -> (r: Result<RawAbilities, AbilityParsingError>)
        ensures
            r == Self::spec_try_from(json@),
    {
        let charisma = match get_ability_modifier(json.get("cha")) {
            Some(v) => v,
            None => return Err(AbilityParsingError::Charisma),
        };
        let constitution = match get_ability_modifier(json.get("con")) {
            Some(v) => v,
            None => return Err(AbilityParsingError::Constitution),
        };
        let dexterity = match get_ability_modifier(json.get("dex")) {
            Some(v) => v,
            None => return Err(AbilityParsingError::Dexterity),
        };
        let intelligence = match get_ability_modifier(json.get("int")) {
            Some(v) => v,
            None => return Err(AbilityParsingError::Intelligence),
        };
        let strength = match get_ability_modifier(json.get("str")) {
            Some(v) => v,
            None => return Err(AbilityParsingError::Strength),
        };
        let wisdom = match get_ability_modifier(json.get("wis")) {
            Some(v) => v,
            None => return Err(AbilityParsingError::Wisdom),
        };
        Ok(RawAbilities { charisma, constitution, dexterity, intelligence, strength, wisdom })
    }
}

} // verus!
