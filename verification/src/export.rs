//! Preparing the export directory.

use vstd::prelude::*;
use vstd::string::*;

verus! {

/// What to do first, given what stands at the export path.
#[derive(Clone, Copy, Debug, PartialEq, Eq)]
pub enum ExportStart {
    /// Nothing there: create the site.
    Create,
    /// A directory: ask whether to delete it before creating the site.
    AskToDelete,
    /// Something other than a directory: refuse to export there.
    Refuse,
}

/// How the export starts: create when nothing is at the export path, refuse
/// when something other than a directory is, ask otherwise.
pub open spec fn spec_export_start(exists: bool, is_dir: bool) -> ExportStart {
    if !exists {
        ExportStart::Create
    } else if !is_dir {
        ExportStart::Refuse
    } else {
        ExportStart::AskToDelete
    }
}

/// Decides how to start the export from whether the export path exists and
/// whether it is a directory.
pub fn export_start(exists: bool, is_dir: bool) -> (r: ExportStart)
    ensures
        r == spec_export_start(exists, is_dir),
{
    if exists {
        if !is_dir {
            ExportStart::Refuse
        } else {
            ExportStart::AskToDelete
        }
    } else {
        ExportStart::Create
    }
}

/// One file-system operation of the export. Paths are lists of components
/// joined one after the other onto the export directory (`to`, `CreateDir`)
/// or onto the static directory (`from`).
#[derive(Debug)]
pub enum ExportOp {
    /// Delete the export directory and everything in it.
    RemoveExportDir,
    /// Create a directory.
    CreateDir(Vec<String>),
    /// Copy a file of the static directory into the export directory.
    Copy { from: Vec<String>, to: Vec<String> },
}

/// An export operation with its paths as character sequences.
pub enum ExportStep {
    RemoveExportDir,
    CreateDir(Seq<Seq<char>>),
    Copy(Seq<Seq<char>>, Seq<Seq<char>>),
}

/// The views of a list of path components.
pub open spec fn components_view(v: Seq<String>) -> Seq<Seq<char>> {
    v.map_values(|s: String| s@)
}

impl View for ExportOp {
    type V = ExportStep;

    open spec fn view(&self) -> ExportStep {
        match self {
            ExportOp::RemoveExportDir => ExportStep::RemoveExportDir,
            ExportOp::CreateDir(p) => ExportStep::CreateDir(components_view(p@)),
            ExportOp::Copy { from, to } => ExportStep::Copy(
                components_view(from@),
                components_view(to@),
            ),
        }
    }
}

/// The operations that write the site's skeleton: optionally delete the old
/// export directory, create the export directory, its `static` and
/// `static/fonts` subdirectories, then copy the style sheet and the font.
pub open spec fn export_plan(remove_first: bool) -> Seq<ExportStep> {
    (if remove_first {
        seq![ExportStep::RemoveExportDir]
    } else {
        Seq::empty()
    }) + seq![
        ExportStep::CreateDir(seq![]),
        ExportStep::CreateDir(seq!["static"@]),
        ExportStep::CreateDir(seq!["static"@, "fonts"@]),
        ExportStep::Copy(seq!["pokedex.css"@], seq!["static"@, "pokedex.css"@]),
        ExportStep::Copy(
            seq!["fonts/pokemonsolid.ttf"@],
            seq!["static"@, "fonts/pokemonsolid.ttf"@],
        ),
    ]
}

/// A path of one component.
fn path1(a: &str) -> (r: Vec<String>)
    ensures
        components_view(r@) == seq![a@],
{
    let mut r: Vec<String> = Vec::new();
    r.push(String::from_str(a));
    assert(components_view(r@) =~= seq![a@]);
    r
}

/// A path of two components.
fn path2(a: &str, b: &str) -> (r: Vec<String>)
    ensures
        components_view(r@) == seq![a@, b@],
{
    let mut r: Vec<String> = Vec::new();
    r.push(String::from_str(a));
    r.push(String::from_str(b));
    assert(components_view(r@) =~= seq![a@, b@]);
    r
}

/// The operations of the export (see `export_plan`); `remove_first` when the
/// user agreed to delete the existing export directory.
pub fn export_ops(remove_first: bool) -> (r: Vec<ExportOp>)
    ensures
        r@.map_values(|op: ExportOp| op@) == export_plan(remove_first),
{
    let mut r: Vec<ExportOp> = Vec::new();
    if remove_first {
        r.push(ExportOp::RemoveExportDir);
    }
    let ghost head = r@.map_values(|op: ExportOp| op@);
    assert(head =~= if remove_first {
        seq![ExportStep::RemoveExportDir]
    } else {
        Seq::<ExportStep>::empty()
    });
    let root: Vec<String> = Vec::new();
    assert(components_view(root@) =~= Seq::<Seq<char>>::empty());
    r.push(ExportOp::CreateDir(root));
    r.push(ExportOp::CreateDir(path1("static")));
    r.push(ExportOp::CreateDir(path2("static", "fonts")));
    r.push(ExportOp::Copy { from: path1("pokedex.css"), to: path2("static", "pokedex.css") });
    r.push(
        ExportOp::Copy {
            from: path1("fonts/pokemonsolid.ttf"),
            to: path2("static", "fonts/pokemonsolid.ttf"),
        },
    );
    assert(r@.map_values(|op: ExportOp| op@) =~= export_plan(remove_first));
    r
}

/// Export refuses exactly a path that exists and is not a directory, asks
/// exactly about an existing directory, and creates right away exactly when
/// nothing exists.
pub proof fn lemma_export_start_cases(exists: bool, is_dir: bool)
    ensures
        (spec_export_start(exists, is_dir) == ExportStart::Refuse) <==> (exists && !is_dir),
        (spec_export_start(exists, is_dir) == ExportStart::AskToDelete) <==> (exists && is_dir),
        (spec_export_start(exists, is_dir) == ExportStart::Create) <==> !exists,
{
}

/// The export deletes the old directory only when asked to, and then first;
/// it creates the export directory before anything else is written, creates
/// `static` and `static/fonts`, and copies each static file under `static`
/// keeping its path: the style sheet and the font.
pub proof fn lemma_export_plan_shape(remove_first: bool)
    ensures
        ({
            let p = export_plan(remove_first);
            let o: int = if remove_first { 1 } else { 0 };
            &&& p.len() == 5 + o
            &&& remove_first ==> p[0] == ExportStep::RemoveExportDir
            &&& forall|i: int| o <= i < p.len() ==> !(#[trigger] p[i] is RemoveExportDir)
            &&& p[o] == ExportStep::CreateDir(Seq::empty())
            &&& p[o + 1] == ExportStep::CreateDir(seq!["static"@])
            &&& p[o + 2] == ExportStep::CreateDir(seq!["static"@, "fonts"@])
            &&& forall|i: int| o + 3 <= i < p.len() ==> (#[trigger] p[i] matches ExportStep::Copy(from, to)
                && from.len() == 1 && to == seq!["static"@, from[0]])
            &&& p[o + 3] matches ExportStep::Copy(from, _) && from == seq!["pokedex.css"@]
            &&& p[o + 4] matches ExportStep::Copy(from, _) && from == seq!["fonts/pokemonsolid.ttf"@]
        }),
{
    let p = export_plan(remove_first);
    let o: int = if remove_first { 1 } else { 0 };
    assert forall|i: int| o + 3 <= i < p.len() implies (#[trigger] p[i] matches ExportStep::Copy(from, to)
        && from.len() == 1 && to == seq!["static"@, from[0]]) by {
        if i == o + 3 {
            assert(p[i] == ExportStep::Copy(seq!["pokedex.css"@], seq!["static"@, "pokedex.css"@]));
        } else {
            assert(p[i] == ExportStep::Copy(
                seq!["fonts/pokemonsolid.ttf"@],
                seq!["static"@, "fonts/pokemonsolid.ttf"@],
            ));
        }
    }
}

} // verus!
