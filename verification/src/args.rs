//! The program's settings.

use vstd::prelude::*;
use std::path::PathBuf;

verus! {

/// A file-system path, carried through unchanged.
#[verifier::external_type_specification]
#[verifier::external_body]
pub struct ExPathBuf(PathBuf);

/// Settings of a run.
#[derive(Debug)]
pub struct Args {
    /// Directory the site is written to.
    pub export_path: PathBuf,
    /// Glob of the page templates.
    pub templates_glob: String,
    /// Directory holding the style sheet and the font.
    pub static_path: PathBuf,
    /// Development mode: fewer Pokémon, and a local web server afterwards.
    pub dev: bool,
}

} // verus!
