//! Rarity and size of creatures, items and hazards.
use crate::text::{str_eq, to_uppercase, unicode_uppercase};
use vstd::prelude::*;

verus! {

#[derive(Debug, Clone, Copy, PartialEq, Eq, Structural)]
pub enum RarityEnum {
    Common,
    Uncommon,
    Rare,
    Unique,
}

/// The rarity that an upper-case name stands for.
pub open spec fn spec_rarity_of_upper(s: Seq<char>) -> Option<RarityEnum> {
    if s == "COMMON"@ {
        Some(RarityEnum::Common)
    } else if s == "UNCOMMON"@ {
        Some(RarityEnum::Uncommon)
    } else if s == "RARE"@ {
        Some(RarityEnum::Rare)
    } else if s == "UNIQUE"@ {
        Some(RarityEnum::Unique)
    } else {
        None
    }
}

impl RarityEnum {
    /// Common is the rarity of anything that names none.
    pub fn default() -> (r: RarityEnum)
        ensures
            r == RarityEnum::Common,
    {
        RarityEnum::Common
    }

    /// The rarity that an upper-case name stands for, if any.
    pub fn from_upper(s: &str) -> (r: Option<RarityEnum>)
        ensures
            r == spec_rarity_of_upper(s@),
    {
        if str_eq(s, "COMMON") {
            Some(RarityEnum::Common)
        } else if str_eq(s, "UNCOMMON") {
            Some(RarityEnum::Uncommon)
        } else if str_eq(s, "RARE") {
            Some(RarityEnum::Rare)
        } else if str_eq(s, "UNIQUE") {
            Some(RarityEnum::Unique)
        } else {
            None
        }
    }

    /// The rarity that a name stands for, whatever its case.
    pub fn from_str(s: &str) -> (r: Option<RarityEnum>)
        ensures
            r == spec_rarity_of_upper(unicode_uppercase(s@)),
    {
        let upper = to_uppercase(s);
        Self::from_upper(upper.as_str())
    }

    /// The name of the rarity.
    pub fn to_string(&self) -> (r: String)
        ensures
            r@ == (match self {
                RarityEnum::Common => "Common"@,
                RarityEnum::Uncommon => "Uncommon"@,
                RarityEnum::Rare => "Rare"@,
                RarityEnum::Unique => "Unique"@,
            }),
    {
        match self {
            RarityEnum::Common => "Common".to_owned(),
            RarityEnum::Uncommon => "Uncommon".to_owned(),
            RarityEnum::Rare => "Rare".to_owned(),
            RarityEnum::Unique => "Unique".to_owned(),
        }
    }
}

#[derive(Debug, Clone, Copy, PartialEq, Eq, Structural)]
pub enum SizeEnum {
    Tiny,
    Small,
    Medium,
    Large,
    Huge,
    Gargantuan,
}

/// The size that an upper-case name or abbreviation stands for.
pub open spec fn spec_size_of_upper(s: Seq<char>) -> Option<SizeEnum> {
    if s == "TINY"@ {
        Some(SizeEnum::Tiny)
    } else if s == "SMALL"@ || s == "SM"@ {
        Some(SizeEnum::Small)
    } else if s == "MEDIUM"@ || s == "MED"@ {
        Some(SizeEnum::Medium)
    } else if s == "LARGE"@ || s == "LG"@ {
        Some(SizeEnum::Large)
    } else if s == "HUGE"@ {
        Some(SizeEnum::Huge)
    } else if s == "GARGANTUAN"@ || s == "GRG"@ {
        Some(SizeEnum::Gargantuan)
    } else {
        None
    }
}

impl SizeEnum {
    /// Medium is the size of anything that names none.
    pub fn default() -> (r: SizeEnum)
        ensures
            r == SizeEnum::Medium,
    {
        SizeEnum::Medium
    }

    /// The size that an upper-case name or abbreviation stands for, if any.
    pub fn from_upper(s: &str) -> (r: Option<SizeEnum>)
        ensures
            r == spec_size_of_upper(s@),
    {
        if str_eq(s, "TINY") {
            Some(SizeEnum::Tiny)
        } else if str_eq(s, "SMALL") || str_eq(s, "SM") {
            Some(SizeEnum::Small)
        } else if str_eq(s, "MEDIUM") || str_eq(s, "MED") {
            Some(SizeEnum::Medium)
        } else if str_eq(s, "LARGE") || str_eq(s, "LG") {
            Some(SizeEnum::Large)
        } else if str_eq(s, "HUGE") {
            Some(SizeEnum::Huge)
        } else if str_eq(s, "GARGANTUAN") || str_eq(s, "GRG") {
            Some(SizeEnum::Gargantuan)
        } else {
            None
        }
    }

    /// The size that a name stands for, whatever its case.
    pub fn from_str(s: &str) -> (r: Option<SizeEnum>)
        ensures
            r == spec_size_of_upper(unicode_uppercase(s@)),
    {
        let upper = to_uppercase(s);
        Self::from_upper(upper.as_str())
    }

    /// The name of the size.
    pub fn to_string(&self) -> (r: String)
        ensures
            r@ == (match self {
                SizeEnum::Tiny => "Tiny"@,
                SizeEnum::Small => "Small"@,
                SizeEnum::Medium => "Medium"@,
                SizeEnum::Large => "Large"@,
                SizeEnum::Huge => "Huge"@,
                SizeEnum::Gargantuan => "Gargantuan"@,
            }),
    {
        match self {
            SizeEnum::Tiny => "Tiny".to_owned(),
            SizeEnum::Small => "Small".to_owned(),
            SizeEnum::Medium => "Medium".to_owned(),
            SizeEnum::Large => "Large".to_owned(),
            SizeEnum::Huge => "Huge".to_owned(),
            SizeEnum::Gargantuan => "Gargantuan".to_owned(),
        }
    }
}

} // verus!
