//! The values of PokéAPI resources that the page logic reads, held as plain
//! strings and integers.

use vstd::prelude::*;

verus! {

/// A name of a resource in one language: the language's code (`"en"`,
/// `"fr"`, ...) and the localized text.
#[derive(Debug)]
pub struct Name {
    pub language: String,
    pub name: String,
}

/// The genus of a species in one language ("Seed Pokémon").
#[derive(Debug)]
pub struct Genus {
    pub language: String,
    pub genus: String,
}

/// One base stat of a Pokémon: the stat's resource name and the effort
/// points that defeating the Pokémon yields in it.
#[derive(Debug)]
pub struct StatEntry {
    pub stat: String,
    pub effort: i64,
}

/// One row of a growth rate: the experience needed to reach `level`.
#[derive(Debug)]
pub struct GrowthLevel {
    pub level: i64,
    pub experience: i64,
}

/// Links to the cries of a Pokémon.
#[derive(Debug)]
pub struct Cries {
    pub legacy: Option<String>,
    pub latest: Option<String>,
}

/// A Pokémon (one form of a species) as the PokéAPI describes it.
#[derive(Debug)]
pub struct PokemonRecord {
    pub id: i64,
    /// Sort order of the Pokémon in the national listing.
    pub order: i64,
    /// Whether this is the default form of its species.
    pub is_default: bool,
    pub base_experience: Option<i64>,
    /// Height in decimetres.
    pub height: i64,
    /// Weight in hectograms.
    pub weight: i64,
    /// Link to the official artwork, front view.
    pub official_artwork: Option<String>,
    /// Names of the Pokémon's types, in slot order.
    pub types: Vec<String>,
    /// Resource names of the Pokémon's abilities, in slot order.
    pub abilities: Vec<String>,
    pub stats: Vec<StatEntry>,
    pub cries: Cries,
}

/// A Pokémon species as the PokéAPI describes it.
#[derive(Debug)]
pub struct SpeciesRecord {
    pub id: i64,
    pub order: i64,
    pub names: Vec<Name>,
    pub genera: Vec<Genus>,
    /// Resource names of the species' egg groups.
    pub egg_groups: Vec<String>,
    /// Resource name of the species' growth rate.
    pub growth_rate: String,
    /// Resource name of the species' color.
    pub color: String,
    /// Egg cycles minus one, when known.
    pub hatch_counter: Option<i64>,
    pub capture_rate: i64,
    /// Chance of being female in eighths, or `-1` for genderless species.
    pub gender_rate: i64,
}

/// The default form of a species together with its species record: one entry
/// of the Pokédex.
#[derive(Debug)]
pub struct PokemonSpecie {
    pub p: PokemonRecord,
    pub s: SpeciesRecord,
}

/// A view of an optional string.
pub open spec fn opt_view(o: Option<String>) -> Option<Seq<char>> {
    match o {
        Some(s) => Some(s@),
        None => None,
    }
}

} // verus!
