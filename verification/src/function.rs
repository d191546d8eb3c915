//! Documentation of function and method declarations.

use vstd::prelude::*;
use vstd::string::*;
use crate::docstring::{docstring_of_body, extract_docstring_from_body};
use crate::object_ref::{extract_object_refs, spec_refs_of, ObjectRef, SpecRef};
use crate::pymodel::{PyFunctionDef, PyStatement};
use crate::text::{clone_opt_string, clone_string_vec, opt_str_view};

verus! {

/// The mathematical value of a function's documentation.
pub ghost struct FunctionDocView {
    pub name: Seq<char>,
    pub docstring: Option<Seq<char>>,
    pub params: Seq<Seq<char>>,
    pub return_type: Option<Seq<char>>,
}

/// Documentation of one function or method: its name, its docstring, its
/// parameter list rendered as text and its rendered return type, if any.
pub struct FunctionDocumentation {
    pub name: String,
    pub docstring: Option<String>,
    pub params: Vec<String>,
    pub return_type: Option<String>,
}

impl View for FunctionDocumentation {
    type V = FunctionDocView;

    open spec fn view(&self) -> FunctionDocView {
        FunctionDocView {
            name: self.name@,
            docstring: opt_str_view(self.docstring),
            params: self.params.deep_view(),
            return_type: opt_str_view(self.return_type),
        }
    }
}

/// The documentation extracted from a function declaration whose body is
/// nested `indent` levels deep.
pub open spec fn spec_function_doc(f: PyFunctionDef, indent: nat) -> FunctionDocView {
    FunctionDocView {
        name: f.name@,
        docstring: docstring_of_body(f.body@, indent),
        params: f.params.deep_view(),
        return_type: opt_str_view(f.return_type),
    }
}

/// The documentation a statement contributes when methods are gathered from
/// a class body at nesting level `indent`: function and `async` function
/// declarations count, everything else does not.
pub open spec fn spec_statement_function_doc(st: PyStatement, indent: nat) -> Option<
    FunctionDocView,
> {
    match st {
        PyStatement::FunctionDef(f) => Some(spec_function_doc(f, indent + 1)),
        PyStatement::AsyncFunctionDef(f) => Some(spec_function_doc(f, indent + 1)),
        _ => None,
    }
}

/// The references used by a docstring, if there is one.
pub open spec fn spec_used_refs(docstring: Option<Seq<char>>) -> Seq<SpecRef> {
    match docstring {
        Some(s) => spec_refs_of(s),
        None => Seq::empty(),
    }
}

/// The name starts with the private-name marker `_`.
pub open spec fn starts_with_underscore(s: Seq<char>) -> bool {
    s.len() > 0 && s[0] == '_'
}

impl FunctionDocumentation {
    /// The references used in this function's docstring, in order.
    pub fn extract_used_references(&self) -> (r: Vec<ObjectRef>)
        ensures
            r@.map_values(|o: ObjectRef| o@) == spec_used_refs(self@.docstring),
    {
        match &self.docstring {
            Some(s) => extract_object_refs(s.as_str()),
            None => Vec::new(),
        }
    }

    /// Documentation of a statement, where it declares a function or an
    /// `async` function whose body is one level deeper than `body_indent_level`.
    pub fn from_statements(value: &PyStatement, body_indent_level: usize) -> (r: Option<Self>)
        requires
            body_indent_level < usize::MAX,
        ensures
            match r {
                Some(d) => spec_statement_function_doc(*value, body_indent_level as nat) == Some(
                    d@,
                ),
                None => spec_statement_function_doc(*value, body_indent_level as nat) is None,
            },
    {
        match value {
            PyStatement::FunctionDef(f) => Some(
                FunctionDocumentation::from_function_statements(f, body_indent_level + 1),
            ),
            PyStatement::AsyncFunctionDef(f) => Some(
                FunctionDocumentation::from_async_function_statements(f, body_indent_level + 1),
            ),
            _ => None,
        }
    }

    /// Documentation of an `async` function declaration.
    pub fn from_async_function_statements(value: &PyFunctionDef, body_indent_level: usize) -> (r:
        Self)
        ensures
            r@ == spec_function_doc(*value, body_indent_level as nat),
    {
        FunctionDocumentation::from_function_statements(value, body_indent_level)
    }

    /// Documentation of a function declaration.
    pub fn from_function_statements(value: &PyFunctionDef, body_indent_level: usize) -> (r: Self)
        ensures
            r@ == spec_function_doc(*value, body_indent_level as nat),
    {
        FunctionDocumentation {
            name: value.name.clone(),
            docstring: extract_docstring_from_body(&value.body, body_indent_level),
            params: clone_string_vec(&value.params),
            return_type: clone_opt_string(&value.return_type),
        }
    }

    /// A copy with the same value.
    pub fn duplicate(&self) -> (r: Self)
        ensures
            r@ == self@,
    {
        FunctionDocumentation {
            name: self.name.clone(),
            docstring: clone_opt_string(&self.docstring),
            params: clone_string_vec(&self.params),
            return_type: clone_opt_string(&self.return_type),
        }
    }
}

/// The function's name starts with the private-name marker.
pub fn is_private_function(fn_doc: &FunctionDocumentation) -> (r: bool)
    ensures
        r == starts_with_underscore(fn_doc@.name),
{
    fn_doc.name.unicode_len() > 0 && fn_doc.name.as_str().get_char(0) == '_'
}

} // verus!
