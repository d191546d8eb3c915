//! Documentation extraction from declaration trees: docstring dedenting,
//! method collection, scope filtering and export lists.

use snakedown::class::ClassDocumentation;
use snakedown::function::FunctionDocumentation;
use snakedown::module::extract_module_documentation;
use snakedown::pymodel::{
    PyAssign, PyAssignValue, PyClassDef, PyFunctionDef, PyListItem, PyParsedModule, PyStatement,
};

fn func(name: &str, body: Vec<PyStatement>) -> PyStatement {
    PyStatement::FunctionDef(PyFunctionDef {
        name: name.to_string(),
        params: vec!["i".to_string()],
        return_type: None,
        body,
    })
}

fn async_func(name: &str, body: Vec<PyStatement>) -> PyStatement {
    PyStatement::AsyncFunctionDef(PyFunctionDef {
        name: name.to_string(),
        params: vec!["i".to_string()],
        return_type: None,
        body,
    })
}

fn class(name: &str, body: Vec<PyStatement>) -> PyStatement {
    PyStatement::ClassDef(PyClassDef {
        name: name.to_string(),
        body,
    })
}

fn doc(text: &str) -> PyStatement {
    PyStatement::StringLiteral(text.to_string())
}

fn name_assign(target: &str) -> PyStatement {
    PyStatement::Assign(PyAssign {
        target_names: vec![Some(target.to_string())],
        value: PyAssignValue::Other,
    })
}

/// The tree that parsing a class with a docstring, a class variable and
/// one method (holding a closure) produces.
fn greeter_module() -> PyParsedModule {
    PyParsedModule::Module(vec![class(
        "Greeter",
        vec![
            doc("\n    this is a class docstring.\n\n        this line has exactly one indent!\n\n\n\n    "),
            name_assign("class_var"),
            PyStatement::FunctionDef(PyFunctionDef {
                name: "greet".to_string(),
                params: vec!["self".to_string()],
                return_type: None,
                body: vec![
                    PyStatement::Other,
                    func("inner", vec![PyStatement::Other]),
                    PyStatement::Other,
                ],
            }),
        ],
    )])
}

#[test]
fn parse_test_python_class() {
    let documentation = extract_module_documentation(&greeter_module(), false, false);
    assert_eq!(documentation.functions.len(), 0);
    assert_eq!(documentation.classes.len(), 1);
    let class_doc: &ClassDocumentation = documentation.classes.first().unwrap();
    assert_eq!(class_doc.methods.len(), 1);
}

#[test]
fn parse_test_python_class_docstring() {
    let documentation = extract_module_documentation(&greeter_module(), false, false);
    let docstring = documentation.classes.first().unwrap().docstring.clone();
    assert_eq!(
        docstring,
        Some(String::from(
            "this is a class docstring.\n\n    this line has exactly one indent!"
        ))
    );
}

#[test]
fn test_doc_extraction_interactive_module() {
    let docs = extract_module_documentation(&PyParsedModule::Other, false, false);
    assert_eq!(docs.docstring, None);
    assert_eq!(docs.functions.len(), 0);
    assert_eq!(docs.classes.len(), 0);
}

#[test]
fn test_doc_extraction_skip_undoc_and_private_module() {
    let tree = PyParsedModule::Module(vec![
        func("foo", vec![doc("asdf"), PyStatement::Other]),
        func("_bar", vec![doc("asdf"), PyStatement::Other]),
        func("baz", vec![PyStatement::Other]),
        class("Cls", vec![doc("normal class")]),
        class("_Cls", vec![doc("normal class")]),
        class("UndocClass", vec![PyStatement::Other]),
    ]);
    let docs = extract_module_documentation(&tree, true, true);
    assert_eq!(docs.docstring, None);
    assert_eq!(docs.functions.len(), 1);
    assert_eq!(docs.classes.len(), 1);
}

fn export_list(items: Vec<PyListItem>) -> PyStatement {
    PyStatement::Assign(PyAssign {
        target_names: vec![Some("__all__".to_string())],
        value: PyAssignValue::List(items),
    })
}

fn s(text: &str) -> PyListItem {
    PyListItem::StrConst(text.to_string())
}

#[test]
fn test_doc_extraction_exports() {
    let tree = PyParsedModule::Module(vec![
        export_list(vec![
            s("a"),
            s("b"),
            s("c"),
            s("d"),
            s("foo"),
            PyListItem::Other,
            PyListItem::Other,
        ]),
        name_assign("a"),
        name_assign("b"),
        PyStatement::Assign(PyAssign {
            target_names: vec![
                Some("c".to_string()),
                Some("d".to_string()),
                Some("foo".to_string()),
            ],
            value: PyAssignValue::Other,
        }),
    ]);
    let docs = extract_module_documentation(&tree, true, true);
    assert_eq!(docs.exports.map(|e| e.len()), Some(5));
}

#[test]
fn test_doc_extraction_multiple_exports() {
    let tree = PyParsedModule::Module(vec![
        export_list(vec![s("a")]),
        export_list(vec![s("b")]),
        name_assign("a"),
        name_assign("b"),
    ]);
    let docs = extract_module_documentation(&tree, true, true);
    assert_eq!(docs.exports, Some(vec![String::from("b")]));
}

#[test]
fn test_doc_extraction_export_non_list() {
    let tree = PyParsedModule::Module(vec![
        PyStatement::Assign(PyAssign {
            target_names: vec![Some("__all__".to_string())],
            value: PyAssignValue::Other,
        }),
        name_assign("a"),
        name_assign("b"),
    ]);
    let docs = extract_module_documentation(&tree, true, true);
    assert_eq!(docs.exports, None);
}

#[test]
fn parse_empty_string() {
    let tree = PyParsedModule::Module(vec![]);
    let documentation = extract_module_documentation(&tree, false, false);
    assert_eq!(documentation.docstring, None);
    assert_eq!(documentation.functions.len(), 0);
    assert_eq!(documentation.classes.len(), 0);
}

#[test]
fn parse_doesnt_extract_lambda() {
    let tree = PyParsedModule::Module(vec![func(
        "is_odd",
        vec![name_assign("inner"), PyStatement::Other],
    )]);
    let documentation = extract_module_documentation(&tree, false, false);
    assert_eq!(documentation.functions.len(), 1);
    assert_eq!(documentation.classes.len(), 0);
}

#[test]
fn parse_test_python_async_func() {
    let tree = PyParsedModule::Module(vec![async_func("is_odd", vec![PyStatement::Other])]);
    let documentation = extract_module_documentation(&tree, false, false);
    assert_eq!(documentation.functions.len(), 1);
    assert_eq!(documentation.classes.len(), 0);
}

#[test]
fn parse_doesnt_extract_closure() {
    let tree = PyParsedModule::Module(vec![func(
        "is_odd",
        vec![
            func("inner_func", vec![PyStatement::Other]),
            PyStatement::Other,
        ],
    )]);
    let documentation = extract_module_documentation(&tree, false, false);
    assert_eq!(documentation.functions.len(), 1);
    assert_eq!(documentation.classes.len(), 0);
}

#[test]
fn parse_test_python_func_no_types() {
    let tree = PyParsedModule::Module(vec![func("is_odd", vec![PyStatement::Other])]);
    let documentation = extract_module_documentation(&tree, false, false);
    assert_eq!(documentation.functions.len(), 1);
    assert_eq!(documentation.classes.len(), 0);
}

#[test]
fn parse_test_python_no_func() {
    let tree = PyParsedModule::Module(vec![
        PyStatement::Other,
        name_assign("a"),
        name_assign("b"),
        PyStatement::Other,
        name_assign("f"),
    ]);
    let documentation = extract_module_documentation(&tree, false, false);
    assert_eq!(documentation.functions.len(), 0);
    assert_eq!(documentation.classes.len(), 0);
}

#[test]
fn parse_test_python_func_dict_type() {
    let tree = PyParsedModule::Module(vec![PyStatement::FunctionDef(PyFunctionDef {
        name: "return_none".to_string(),
        params: vec![
            "foo: str".to_string(),
            "bar".to_string(),
            "*args".to_string(),
            "unused: Dict[Any, str] = None".to_string(),
        ],
        return_type: Some("4 + 9".to_string()),
        body: vec![PyStatement::Other],
    })]);
    let documentation = extract_module_documentation(&tree, false, false);
    assert_eq!(documentation.functions.len(), 1);
    assert_eq!(documentation.classes.len(), 0);
}

#[test]
fn parse_test_python_func_with_types() {
    let tree = PyParsedModule::Module(vec![PyStatement::FunctionDef(PyFunctionDef {
        name: "is_even".to_string(),
        params: vec!["i: int".to_string()],
        return_type: Some("bool".to_string()),
        body: vec![PyStatement::Other],
    })]);
    let documentation = extract_module_documentation(&tree, false, false);
    assert_eq!(documentation.functions.len(), 1);
    assert_eq!(documentation.classes.len(), 0);
}

fn odd_docstring_body() -> Vec<PyStatement> {
    vec![
        doc("\n    Determine whether a number is odd.\n\n    Returns\n    -------\n        bool: True iff input number is odd\n    "),
        PyStatement::Other,
    ]
}

#[test]
fn parse_test_python_func_docstring() {
    let tree = PyParsedModule::Module(vec![func("is_odd", odd_docstring_body())]);
    let documentation = extract_module_documentation(&tree, false, false);
    assert_eq!(documentation.functions.len(), 1);
    assert_eq!(documentation.classes.len(), 0);
}

#[test]
fn parse_test_python_function_docstring() {
    let tree = PyParsedModule::Module(vec![func("is_odd", odd_docstring_body())]);
    let documentation = extract_module_documentation(&tree, false, false);
    let function: &FunctionDocumentation = documentation.functions.first().unwrap();
    let docstring = function.docstring.clone();
    assert_eq!(
        docstring,
        Some(String::from(
            "Determine whether a number is odd.\n\nReturns\n-------\n    bool: True iff input number is odd"
        ))
    );
}

#[test]
fn parse_test_python_async_function_docstring() {
    let tree = PyParsedModule::Module(vec![async_func("is_odd", odd_docstring_body())]);
    let documentation = extract_module_documentation(&tree, false, false);
    let function = documentation.functions.first().unwrap();
    let docstring = function.docstring.clone();
    assert_eq!(
        docstring,
        Some(String::from(
            "Determine whether a number is odd.\n\nReturns\n-------\n    bool: True iff input number is odd"
        ))
    );
}

#[test]
fn method_docstrings_dedent_two_levels() {
    let tree = PyParsedModule::Module(vec![class(
        "C",
        vec![PyStatement::FunctionDef(PyFunctionDef {
            name: "m".to_string(),
            params: vec!["self".to_string()],
            return_type: None,
            body: vec![doc("\n        Greet.\n\n        More.\n        "), PyStatement::Other],
        })],
    )]);
    let documentation = extract_module_documentation(&tree, false, false);
    let method = &documentation.classes[0].methods[0];
    assert_eq!(method.docstring, Some(String::from("Greet.\n\nMore.")));
}
