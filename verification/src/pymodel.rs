//! The declaration tree handed over by the syntax-tree walker, reduced to
//! the shapes the documentation extractor reads: function, class and
//! assignment statements, string-literal expression statements, and a catch
//! all for everything else.

use vstd::prelude::*;

verus! {

/// A function or method declaration: its name, its parameter list and
/// return-type expression rendered as text, and its body statements (read
/// only for the leading docstring).
pub struct PyFunctionDef {
    pub name: String,
    pub params: Vec<String>,
    pub return_type: Option<String>,
    pub body: Vec<PyStatement>,
}

/// A class declaration: its name and its body statements.
pub struct PyClassDef {
    pub name: String,
    pub body: Vec<PyStatement>,
}

/// One element of a list literal on the right-hand side of an assignment.
pub enum PyListItem {
    StrConst(String),
    Other,
}

/// The right-hand side of an assignment.
pub enum PyAssignValue {
    List(Vec<PyListItem>),
    Other,
}

/// An assignment statement: the name of each `Name`-shaped target (`None`
/// stands for a target of another shape) and the assigned value.
pub struct PyAssign {
    pub target_names: Vec<Option<String>>,
    pub value: PyAssignValue,
}

/// A statement of a parsed source file.
pub enum PyStatement {
    /// An expression statement that is a string literal: a docstring where
    /// it leads a body.
    StringLiteral(String),
    Assign(PyAssign),
    FunctionDef(PyFunctionDef),
    AsyncFunctionDef(PyFunctionDef),
    ClassDef(PyClassDef),
    Other,
}

/// A parsed source file: a module body, or a tree of another kind (an
/// interactive or expression parse), which carries no module documentation.
pub enum PyParsedModule {
    Module(Vec<PyStatement>),
    Other,
}

} // verus!
