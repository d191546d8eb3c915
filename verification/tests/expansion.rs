//! Reference expansion: marker replacement, external resolution, and
//! idempotence on already-expanded text.

use snakedown::index::Index;
use snakedown::object::ObjectDocumentation;
use snakedown::pymodel::{PyParsedModule, PyStatement};
use snakedown::render::MdRenderer;

fn doc(text: &str) -> PyStatement {
    PyStatement::StringLiteral(text.to_string())
}

fn module_docstring(idx: &Index, key: &str) -> String {
    for (k, obj) in idx.internal_object_store.iter() {
        if k == key {
            match obj {
                ObjectDocumentation::Module(m) => return m.docstring.clone().unwrap(),
                _ => panic!("not a module"),
            }
        }
    }
    panic!("key not found");
}

#[test]
fn expansion_rewrites_markers() {
    let mut idx = Index::new("pkg".to_string(), false, false).unwrap();
    let tree = PyParsedModule::Module(vec![doc("see [[numpy.fft|the fft docs]] here")]);
    idx.index_file("mod.py", &tree).unwrap();
    idx.insert_external(
        "numpy.fft".to_string(),
        "https://numpy.org/doc/fft.html".to_string(),
    );
    idx.pre_process(&MdRenderer::new(), "api").unwrap();
    assert_eq!(
        module_docstring(&idx, "pkg.mod"),
        "see [the fft docs](https://numpy.org/doc/fft.html) here".to_string()
    );
}

#[test]
fn expansion_falls_back_to_internal_link() {
    let mut idx = Index::new("pkg".to_string(), false, false).unwrap();
    let tree = PyParsedModule::Module(vec![doc("see [[pkg.other]]")]);
    idx.index_file("mod.py", &tree).unwrap();
    idx.pre_process(&MdRenderer::new(), "api").unwrap();
    assert_eq!(
        module_docstring(&idx, "pkg.mod"),
        "see [pkg.other](pkg.other.md)".to_string()
    );
}

#[test]
fn expansion_replaces_each_occurrence() {
    let mut idx = Index::new("pkg".to_string(), false, false).unwrap();
    let tree = PyParsedModule::Module(vec![doc("[[a.b]]\nand [[a.b]]")]);
    idx.index_file("mod.py", &tree).unwrap();
    idx.pre_process(&MdRenderer::new(), "api").unwrap();
    assert_eq!(
        module_docstring(&idx, "pkg.mod"),
        "[a.b](a.b.md)\nand [a.b](a.b.md)".to_string()
    );
}

#[test]
fn expansion_is_idempotent_on_expanded_text() {
    let mut idx = Index::new("pkg".to_string(), false, false).unwrap();
    let tree = PyParsedModule::Module(vec![doc("see [[numpy.fft]]\nand [[pkg.x|here]]")]);
    idx.index_file("mod.py", &tree).unwrap();
    idx.insert_external(
        "numpy.fft".to_string(),
        "https://numpy.org/doc/fft.html".to_string(),
    );
    idx.pre_process(&MdRenderer::new(), "api").unwrap();
    let once = module_docstring(&idx, "pkg.mod");
    idx.pre_process(&MdRenderer::new(), "api").unwrap();
    let twice = module_docstring(&idx, "pkg.mod");
    assert_eq!(once, twice);
}

#[test]
fn expansion_leaves_markerless_text_alone() {
    let mut idx = Index::new("pkg".to_string(), false, false).unwrap();
    let tree = PyParsedModule::Module(vec![doc("plain text, no markers")]);
    idx.index_file("mod.py", &tree).unwrap();
    idx.pre_process(&MdRenderer::new(), "api").unwrap();
    assert_eq!(
        module_docstring(&idx, "pkg.mod"),
        "plain text, no markers".to_string()
    );
}
