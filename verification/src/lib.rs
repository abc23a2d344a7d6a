//! Page-generation logic of a static Pokédex site: choosing which Pokémon
//! are listed and in which order, picking their translated names, building the
//! index cards and the detail pages, and planning the export directory.
//!
//! Fetching from the PokéAPI, rendering templates and writing files happen in
//! the program around this library; it hands plain values in and takes plain
//! values back.

pub mod args;
pub mod error;
pub mod export;
pub mod index;
pub mod model;
pub mod pokemon;
pub mod species;
pub mod text;
pub mod translation;
