//! Reference validation: completeness of the report and the suggestion
//! preference between the two mappings.

use snakedown::index::Index;
use snakedown::pymodel::{PyFunctionDef, PyParsedModule, PyStatement};

fn doc(text: &str) -> PyStatement {
    PyStatement::StringLiteral(text.to_string())
}

fn func(name: &str, body: Vec<PyStatement>) -> PyStatement {
    PyStatement::FunctionDef(PyFunctionDef {
        name: name.to_string(),
        params: vec![],
        return_type: None,
        body,
    })
}

#[test]
fn validation_passes_when_all_references_resolve() {
    let mut idx = Index::new("pkg".to_string(), false, false).unwrap();
    let tree = PyParsedModule::Module(vec![
        doc("see [[pkg.mod.helper]]\nand [[numpy.fft]]"),
        func("helper", vec![doc("docs")]),
    ]);
    idx.index_file("mod.py", &tree).unwrap();
    idx.insert_external(
        "numpy.fft".to_string(),
        "https://numpy.org/doc/stable/reference/routines.fft.html".to_string(),
    );
    assert!(idx.validate_references().is_ok());
}

#[test]
fn validation_reports_every_unresolved_reference() {
    let mut idx = Index::new("pkg".to_string(), false, false).unwrap();
    let tree = PyParsedModule::Module(vec![
        doc("see [[broken.one]]\nand [[broken.two]]"),
        func("helper", vec![doc("also [[broken.three]]")]),
    ]);
    idx.index_file("mod.py", &tree).unwrap();
    let errs = idx.validate_references().unwrap_err();
    assert_eq!(errs.len(), 3);
    assert_eq!(errs[0].object_key, "pkg.mod".to_string());
    assert_eq!(errs[0].target, "broken.one".to_string());
    assert_eq!(errs[1].object_key, "pkg.mod".to_string());
    assert_eq!(errs[1].target, "broken.two".to_string());
    assert_eq!(errs[2].object_key, "pkg.mod.helper".to_string());
    assert_eq!(errs[2].target, "broken.three".to_string());
}

#[test]
fn validation_suggests_near_misses() {
    let mut idx = Index::new("pkg".to_string(), false, false).unwrap();
    let tree = PyParsedModule::Module(vec![doc("see [[nimpy.fft]]"), func("helper", vec![doc("d")])]);
    idx.index_file("mod.py", &tree).unwrap();
    idx.insert_external("numpy.fft".to_string(), "https://numpy.org/".to_string());
    let errs = idx.validate_references().unwrap_err();
    assert_eq!(errs.len(), 1);
    assert_eq!(
        errs[0].suggestion,
        Some(("numpy.fft".to_string(), 1))
    );
}

#[test]
fn validation_prefers_internal_on_tie() {
    let mut idx = Index::new("pkg".to_string(), false, false).unwrap();
    // "pkg.modx" is one edit from the internal key "pkg.mod", and the
    // external key "pkg.mody" is also one edit away: the internal
    // candidate wins the tie.
    let tree = PyParsedModule::Module(vec![doc("see [[pkg.modx]]")]);
    idx.index_file("mod.py", &tree).unwrap();
    idx.insert_external("pkg.mody".to_string(), "https://x/".to_string());
    let errs = idx.validate_references().unwrap_err();
    assert_eq!(errs.len(), 1);
    assert_eq!(errs[0].suggestion, Some(("pkg.mod".to_string(), 1)));
}

#[test]
fn validation_lets_strictly_closer_external_win() {
    let mut idx = Index::new("pkg".to_string(), false, false).unwrap();
    // The internal key "pkg.mod" is two edits from "pkg.myd"; the external
    // key "pkg.myda" is one edit away and strictly beats it.
    let tree = PyParsedModule::Module(vec![doc("see [[pkg.myda]]")]);
    idx.index_file("mod.py", &tree).unwrap();
    idx.insert_external("pkg.mydas".to_string(), "https://x/".to_string());
    let errs = idx.validate_references().unwrap_err();
    assert_eq!(errs.len(), 1);
    assert_eq!(errs[0].suggestion, Some(("pkg.mydas".to_string(), 1)));
}
