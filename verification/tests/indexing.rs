//! The symbol index: import path derivation, population from a file's
//! declaration tree, duplicate rejection and scope-filter transitivity.

use snakedown::index::{
    derive_import_path, get_from_import_path, Index, IndexError,
};
use snakedown::pymodel::{PyClassDef, PyFunctionDef, PyParsedModule, PyStatement};

fn doc(text: &str) -> PyStatement {
    PyStatement::StringLiteral(text.to_string())
}

fn func(name: &str, body: Vec<PyStatement>) -> PyStatement {
    PyStatement::FunctionDef(PyFunctionDef {
        name: name.to_string(),
        params: vec![],
        return_type: None,
        body,
    })
}

fn class(name: &str, body: Vec<PyStatement>) -> PyStatement {
    PyStatement::ClassDef(PyClassDef {
        name: name.to_string(),
        body,
    })
}

#[test]
fn derive_import_path_init_is_stripped() {
    assert_eq!(
        derive_import_path("pkg", "a/b/__init__"),
        "pkg.a.b".to_string()
    );
}

#[test]
fn derive_import_path_plain_module() {
    assert_eq!(derive_import_path("pkg", "a/b/c"), "pkg.a.b.c".to_string());
}

#[test]
fn derive_import_path_strips_extension() {
    assert_eq!(
        derive_import_path("pkg", "sub/mod.py"),
        "pkg.sub.mod".to_string()
    );
    assert_eq!(
        derive_import_path("pkg", "sub/__init__.py"),
        "pkg.sub".to_string()
    );
}

#[test]
fn get_from_import_path_joins_segments() {
    assert_eq!(
        get_from_import_path("pkg".to_string(), "a/b.py").unwrap(),
        "pkg.a.b".to_string()
    );
}

#[test]
fn index_new_derives_package_name() {
    let idx = Index::new("tests/test_pkg".to_string(), false, false).unwrap();
    assert_eq!(idx.pkg_name, "test_pkg".to_string());
    assert_eq!(idx.internal_object_store.len(), 0);
}

#[test]
fn index_new_rejects_empty_root() {
    assert!(matches!(
        Index::new("".to_string(), false, false),
        Err(IndexError::PackageRootName)
    ));
}

#[test]
fn indexing_adds_one_entry_per_qualifying_symbol() {
    let mut idx = Index::new("pkg".to_string(), false, false).unwrap();
    let tree = PyParsedModule::Module(vec![
        doc("module docs"),
        class(
            "Greeter",
            vec![doc("class docs"), func("greet", vec![doc("method docs")])],
        ),
        func("helper", vec![doc("function docs")]),
    ]);
    idx.index_file("mod.py", &tree).unwrap();
    // module, class, method, free function: four symbols, four entries.
    assert_eq!(idx.internal_object_store.len(), 4);
    assert!(idx.contains_internal("pkg.mod"));
    assert!(idx.contains_internal("pkg.mod.Greeter"));
    assert!(idx.contains_internal("pkg.mod.Greeter.greet"));
    assert!(idx.contains_internal("pkg.mod.helper"));
}

#[test]
fn duplicate_symbol_is_rejected_not_overwritten() {
    let mut idx = Index::new("pkg".to_string(), false, false).unwrap();
    let tree = PyParsedModule::Module(vec![
        doc("module docs"),
        class("Greeter", vec![doc("first")]),
        class("Greeter", vec![doc("second")]),
    ]);
    let r = idx.index_file("mod.py", &tree);
    match r {
        Err(IndexError::DuplicateSymbol { key }) => {
            assert_eq!(key, "pkg.mod.Greeter".to_string());
        }
        _ => panic!("expected a duplicate-symbol error"),
    }
    // the first binding is still there, untouched
    assert!(idx.contains_internal("pkg.mod.Greeter"));
}

#[test]
fn excluding_undocumented_module_excludes_all_nested_symbols() {
    let mut idx = Index::new("pkg".to_string(), true, false).unwrap();
    // The module has no docstring; its class and function are documented
    // and public, yet nothing at all may be indexed.
    let tree = PyParsedModule::Module(vec![
        class("Documented", vec![doc("class docs")]),
        func("documented", vec![doc("fn docs")]),
    ]);
    idx.index_file("mod.py", &tree).unwrap();
    assert_eq!(idx.internal_object_store.len(), 0);
}

#[test]
fn skip_private_filters_methods_too() {
    let mut idx = Index::new("pkg".to_string(), false, true).unwrap();
    let tree = PyParsedModule::Module(vec![
        doc("module docs"),
        class(
            "C",
            vec![
                doc("class docs"),
                func("_private", vec![doc("docs")]),
                func("public", vec![doc("docs")]),
            ],
        ),
    ]);
    idx.index_file("mod.py", &tree).unwrap();
    assert!(idx.contains_internal("pkg.mod.C.public"));
    assert!(!idx.contains_internal("pkg.mod.C._private"));
}

#[test]
fn external_insert_overwrites() {
    let mut idx = Index::new("pkg".to_string(), false, false).unwrap();
    idx.insert_external("numpy.fft".to_string(), "https://one/".to_string());
    idx.insert_external("numpy.fft".to_string(), "https://two/".to_string());
    assert_eq!(idx.external_object_store.len(), 1);
    assert_eq!(
        idx.lookup_external("numpy.fft"),
        Some(&"https://two/".to_string())
    );
}

#[test]
fn index_file_separate_modules_may_reuse_names() {
    let mut idx = Index::new("pkg".to_string(), false, false).unwrap();
    let tree_a = PyParsedModule::Module(vec![doc("a"), class("Greeter", vec![doc("d")])]);
    let tree_b = PyParsedModule::Module(vec![doc("b"), class("Greeter", vec![doc("d")])]);
    idx.index_file("a.py", &tree_a).unwrap();
    idx.index_file("b.py", &tree_b).unwrap();
    assert!(idx.contains_internal("pkg.a.Greeter"));
    assert!(idx.contains_internal("pkg.b.Greeter"));
}
