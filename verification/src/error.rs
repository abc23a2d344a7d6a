//! Why a page cannot be generated.

use vstd::prelude::*;
use vstd::string::*;
use crate::text::{decimal, i64_to_decimal};

verus! {

/// A resource lacks what a page needs. `id` is the Pokémon's id.
#[derive(Debug)]
pub enum GenError {
    /// No English name for the index card.
    MissingName { id: i64 },
    /// No official artwork.
    MissingSprite { id: i64 },
    /// One of the English, French, Japanese or romanized Japanese names is
    /// missing.
    MissingNames { id: i64 },
    /// A resource of the given kind ("genus", "ability", ...) has no English
    /// translation.
    MissingTranslation { kind: String, id: i64 },
    /// The growth rate has no row for level 100.
    MissingExperience { id: i64 },
}

/// The text of an error.
pub open spec fn error_message(e: GenError) -> Seq<char> {
    match e {
        GenError::MissingName { id } => "No name for "@ + decimal(id as int),
        GenError::MissingSprite { id } => "No sprite for "@ + decimal(id as int),
        GenError::MissingNames { id } => "Missing some names for "@ + decimal(id as int),
        GenError::MissingTranslation { kind, id } =>
            "Can't find trad for "@ + kind@ + " for "@ + decimal(id as int),
        GenError::MissingExperience { id } => "No experience at lvl 100 for "@ + decimal(
            id as int,
        ),
    }
}

impl GenError {
    /// The message that reports this error.
    pub fn message(&self) -> (m: String)
        ensures
            m@ == error_message(*self),
    {
        match self {
            GenError::MissingName { id } => {
                let mut m = String::from_str("No name for ");
                m.append(i64_to_decimal(*id).as_str());
                m
            },
            GenError::MissingSprite { id } => {
                let mut m = String::from_str("No sprite for ");
                m.append(i64_to_decimal(*id).as_str());
                m
            },
            GenError::MissingNames { id } => {
                let mut m = String::from_str("Missing some names for ");
                m.append(i64_to_decimal(*id).as_str());
                m
            },
            GenError::MissingTranslation { kind, id } => {
                let mut m = String::from_str("Can't find trad for ");
                m.append(kind.as_str());
                m.append(" for ");
                m.append(i64_to_decimal(*id).as_str());
                m
            },
            GenError::MissingExperience { id } => {
                let mut m = String::from_str("No experience at lvl 100 for ");
                m.append(i64_to_decimal(*id).as_str());
                m
            },
        }
    }
}

} // verus!
