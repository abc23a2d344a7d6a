use rustedex_gen::export::{export_ops, export_start, ExportOp, ExportStart};

fn parts(v: &[String]) -> Vec<&str> {
    v.iter().map(|s| s.as_str()).collect()
}

#[test]
fn export_start_decisions() {
    assert_eq!(export_start(false, false), ExportStart::Create);
    assert_eq!(export_start(true, false), ExportStart::Refuse);
    assert_eq!(export_start(true, true), ExportStart::AskToDelete);
}

#[test]
fn export_ops_without_removal() {
    let ops = export_ops(false);
    assert_eq!(ops.len(), 5);
    match &ops[0] {
        ExportOp::CreateDir(p) => assert!(p.is_empty()),
        other => panic!("unexpected {:?}", other),
    }
    match &ops[1] {
        ExportOp::CreateDir(p) => assert_eq!(parts(p), vec!["static"]),
        other => panic!("unexpected {:?}", other),
    }
    match &ops[2] {
        ExportOp::CreateDir(p) => assert_eq!(parts(p), vec!["static", "fonts"]),
        other => panic!("unexpected {:?}", other),
    }
    match &ops[3] {
        ExportOp::Copy { from, to } => {
            assert_eq!(parts(from), vec!["pokedex.css"]);
            assert_eq!(parts(to), vec!["static", "pokedex.css"]);
        },
        other => panic!("unexpected {:?}", other),
    }
    match &ops[4] {
        ExportOp::Copy { from, to } => {
            assert_eq!(parts(from), vec!["fonts/pokemonsolid.ttf"]);
            assert_eq!(parts(to), vec!["static", "fonts/pokemonsolid.ttf"]);
        },
        other => panic!("unexpected {:?}", other),
    }
}

#[test]
fn export_ops_with_removal_delete_first() {
    let ops = export_ops(true);
    assert_eq!(ops.len(), 6);
    assert!(matches!(ops[0], ExportOp::RemoveExportDir));
    assert!(matches!(&ops[1], ExportOp::CreateDir(p) if p.is_empty()));
}
