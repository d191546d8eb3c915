//! Documentation of whole modules: the module docstring, the qualifying
//! free functions and classes in declaration order, and the declared export
//! list, if any.

use vstd::prelude::*;
use crate::class::{
    is_private_class, spec_class_doc, ClassDocView, ClassDocumentation,
};
use crate::docstring::{docstring_of_body, extract_docstring_from_body};
use crate::function::{
    is_private_function, spec_function_doc, spec_used_refs, starts_with_underscore,
    FunctionDocView, FunctionDocumentation,
};
use crate::class::function_doc_views;
use crate::object_ref::{extract_object_refs, ObjectRef};
use crate::pymodel::{PyAssign, PyAssignValue, PyListItem, PyParsedModule, PyStatement};
use crate::text::{opt_str_view, str_eq};

verus! {

/// The mathematical value of a module's documentation.
pub ghost struct ModuleDocView {
    pub docstring: Option<Seq<char>>,
    pub functions: Seq<FunctionDocView>,
    pub classes: Seq<ClassDocView>,
    pub sub_modules: Option<Seq<Seq<char>>>,
    pub exports: Option<Seq<Seq<char>>>,
}

/// Documentation of one module.
pub struct ModuleDocumentation {
    pub docstring: Option<String>,
    pub functions: Vec<FunctionDocumentation>,
    pub classes: Vec<ClassDocumentation>,
    pub sub_modules: Option<Vec<String>>,
    pub exports: Option<Vec<String>>,
}

/// A discovered sub-module: its name and the path of its source file.
pub struct ModuleReference {
    pub name: String,
    pub path: String,
}

/// The views of a sequence of class documentations.
pub open spec fn class_doc_views(cs: Seq<ClassDocumentation>) -> Seq<ClassDocView> {
    cs.map_values(|c: ClassDocumentation| c@)
}

impl View for ModuleDocumentation {
    type V = ModuleDocView;

    open spec fn view(&self) -> ModuleDocView {
        ModuleDocView {
            docstring: opt_str_view(self.docstring),
            functions: function_doc_views(self.functions@),
            classes: class_doc_views(self.classes@),
            sub_modules: self.sub_modules.deep_view(),
            exports: self.exports.deep_view(),
        }
    }
}

/// A function qualifies for the index under the given scope flags: it is
/// skipped only if undocumented while undocumented symbols are skipped, or
/// private while private symbols are skipped.
pub open spec fn function_included(f: FunctionDocView, skip_private: bool, skip_undoc: bool) -> bool {
    !(skip_undoc && f.docstring is None) && !(skip_private && starts_with_underscore(f.name))
}

/// A class qualifies for the index under the given scope flags.
pub open spec fn class_included(c: ClassDocView, skip_private: bool, skip_undoc: bool) -> bool {
    !(skip_undoc && c.docstring is None) && !(skip_private && starts_with_underscore(c.name))
}

/// A module qualifies for the index: only the undocumented rule applies,
/// module privacy is not meaningful.
pub open spec fn module_included(m: ModuleDocView, skip_undoc: bool) -> bool {
    !skip_undoc || m.docstring is Some
}

/// The qualifying free functions declared by the statements, in order.
pub open spec fn spec_module_functions(
    stmts: Seq<PyStatement>,
    skip_private: bool,
    skip_undoc: bool,
) -> Seq<FunctionDocView>
    decreases stmts.len(),
{
    if stmts.len() == 0 {
        Seq::empty()
    } else {
        let rest = spec_module_functions(stmts.drop_last(), skip_private, skip_undoc);
        match stmts.last() {
            PyStatement::FunctionDef(f) => {
                let d = spec_function_doc(f, 1);
                if function_included(d, skip_private, skip_undoc) {
                    rest.push(d)
                } else {
                    rest
                }
            },
            PyStatement::AsyncFunctionDef(f) => {
                let d = spec_function_doc(f, 1);
                if function_included(d, skip_private, skip_undoc) {
                    rest.push(d)
                } else {
                    rest
                }
            },
            _ => rest,
        }
    }
}

/// The qualifying classes declared by the statements, in order.
pub open spec fn spec_module_classes(
    stmts: Seq<PyStatement>,
    skip_private: bool,
    skip_undoc: bool,
) -> Seq<ClassDocView>
    decreases stmts.len(),
{
    if stmts.len() == 0 {
        Seq::empty()
    } else {
        let rest = spec_module_classes(stmts.drop_last(), skip_private, skip_undoc);
        match stmts.last() {
            PyStatement::ClassDef(c) => {
                let d = spec_class_doc(c, 1);
                if class_included(d, skip_private, skip_undoc) {
                    rest.push(d)
                } else {
                    rest
                }
            },
            _ => rest,
        }
    }
}

/// The assignment declares the export list: one of its `Name` targets is
/// `__all__` and its value is a list literal.
pub open spec fn is_all_target(t: Option<String>) -> bool {
    match t {
        Some(n) => n@ == "__all__"@,
        None => false,
    }
}

pub open spec fn is_export_assign(a: PyAssign) -> bool {
    (exists|i: int| 0 <= i < a.target_names@.len() && #[trigger] is_all_target(a.target_names@[i]))
        && (a.value is List)
}

/// The string constants of a list literal, in order; elements of other
/// shapes are dropped.
pub open spec fn spec_export_strings(items: Seq<PyListItem>) -> Seq<Seq<char>>
    decreases items.len(),
{
    if items.len() == 0 {
        Seq::empty()
    } else {
        let rest = spec_export_strings(items.drop_last());
        match items.last() {
            PyListItem::StrConst(s) => rest.push(s@),
            PyListItem::Other => rest,
        }
    }
}

/// The export list declared by the statements: the string constants of the
/// last `__all__` list assignment, or nothing.
pub open spec fn spec_module_exports(stmts: Seq<PyStatement>) -> Option<Seq<Seq<char>>>
    decreases stmts.len(),
{
    if stmts.len() == 0 {
        None
    } else {
        match stmts.last() {
            PyStatement::Assign(a) => if is_export_assign(a) {
                match a.value {
                    PyAssignValue::List(items) => Some(spec_export_strings(items@)),
                    PyAssignValue::Other => None,
                }
            } else {
                spec_module_exports(stmts.drop_last())
            },
            _ => spec_module_exports(stmts.drop_last()),
        }
    }
}

/// The documentation extracted from a module body.
pub open spec fn spec_module_doc(
    stmts: Seq<PyStatement>,
    skip_private: bool,
    skip_undoc: bool,
) -> ModuleDocView {
    ModuleDocView {
        docstring: docstring_of_body(stmts, 0),
        functions: spec_module_functions(stmts, skip_private, skip_undoc),
        classes: spec_module_classes(stmts, skip_private, skip_undoc),
        sub_modules: None,
        exports: spec_module_exports(stmts),
    }
}

/// The documentation of a module body that holds nothing.
pub open spec fn empty_module_view() -> ModuleDocView {
    ModuleDocView {
        docstring: None,
        functions: Seq::empty(),
        classes: Seq::empty(),
        sub_modules: None,
        exports: None,
    }
}

/// The documentation extracted from a parsed source file: a module body is
/// extracted, any other parse yields empty documentation.
pub open spec fn spec_extract_module(
    m: PyParsedModule,
    skip_private: bool,
    skip_undoc: bool,
) -> ModuleDocView {
    match m {
        PyParsedModule::Module(body) => spec_module_doc(body@, skip_private, skip_undoc),
        PyParsedModule::Other => empty_module_view(),
    }
}

/// One of the assignment targets is the name `__all__`.
fn targets_contain_all(ts: &Vec<Option<String>>) -> (r: bool)
    ensures
        r == exists|i: int| 0 <= i < ts@.len() && #[trigger] is_all_target(ts@[i]),
{
    let mut i: usize = 0;
    while i < ts.len()
        invariant
            i <= ts@.len(),
            forall|k: int| 0 <= k < i ==> !#[trigger] is_all_target(ts@[k]),
        decreases ts@.len() - i,
    {
        match &ts[i] {
            Some(n) => {
                if str_eq(n.as_str(), "__all__") {
                    assert(is_all_target(ts@[i as int]));
                    return true;
                }
            },
            None => (),
        }
        i = i + 1;
    }
    false
}

/// The string constants of a list literal, cloned in order.
fn collect_export_strings(items: &Vec<PyListItem>) -> (r: Vec<String>)
    ensures
        r.deep_view() == spec_export_strings(items@),
{
    let mut r: Vec<String> = Vec::new();
    let mut i: usize = 0;
    while i < items.len()
        invariant
            i <= items@.len(),
            r.deep_view() == spec_export_strings(items@.take(i as int)),
        decreases items@.len() - i,
    {
        match &items[i] {
            PyListItem::StrConst(s) => {
                let ghost old_dv = r.deep_view();
                r.push(s.clone());
                proof {
                    assert(r.deep_view() =~= old_dv.push(s@));
                }
            },
            PyListItem::Other => (),
        }
        i = i + 1;
        proof {
            assert(items@.take(i as int).drop_last() =~= items@.take(i as int - 1));
            assert(items@.take(i as int).last() == items@[i as int - 1]);
            assert(r.deep_view() =~= spec_export_strings(items@.take(i as int)));
        }
    }
    proof {
        assert(items@.take(items@.len() as int) =~= items@);
    }
    r
}

/// Extracts a module's documentation from a parsed source file, honoring
/// the scope flags: free functions and classes that do not qualify are
/// never collected, and the last `__all__` list assignment gives the export
/// list.
pub fn extract_module_documentation(
    input_module: &PyParsedModule,
    skip_private: bool,
    skip_undoc: bool,
) -> (r: ModuleDocumentation)
    ensures
        r@ == spec_extract_module(*input_module, skip_private, skip_undoc),
{
    match input_module {
        PyParsedModule::Module(body) => {
            extract_documentation_from_statements(body, skip_private, skip_undoc)
        },
        PyParsedModule::Other => {
            let r = ModuleDocumentation {
                docstring: None,
                functions: Vec::new(),
                classes: Vec::new(),
                sub_modules: None,
                exports: None,
            };
            proof {
                assert(function_doc_views(Seq::<FunctionDocumentation>::empty())
                    =~= Seq::<FunctionDocView>::empty());
                assert(class_doc_views(Seq::<ClassDocumentation>::empty())
                    =~= Seq::<ClassDocView>::empty());
            }
            r
        },
    }
}

/// Extracts a module's documentation from its body statements.
pub fn extract_documentation_from_statements(
    statements: &Vec<PyStatement>,
    skip_private: bool,
    skip_undoc: bool,
) -> (r: ModuleDocumentation)
    ensures
        r@ == spec_module_doc(statements@, skip_private, skip_undoc),
{
    let mut free_functions: Vec<FunctionDocumentation> = Vec::new();
    let mut class_definitions: Vec<ClassDocumentation> = Vec::new();
    let mut exports: Option<Vec<String>> = None;
    let docstring = extract_docstring_from_body(statements, 0);
    let mut i: usize = 0;
    while i < statements.len()
        invariant
            i <= statements@.len(),
            function_doc_views(free_functions@) == spec_module_functions(
                statements@.take(i as int),
                skip_private,
                skip_undoc,
            ),
            class_doc_views(class_definitions@) == spec_module_classes(
                statements@.take(i as int),
                skip_private,
                skip_undoc,
            ),
            exports.deep_view() == spec_module_exports(statements@.take(i as int)),
        decreases statements@.len() - i,
    {
        let ghost old_funcs = free_functions@;
        let ghost old_classes = class_definitions@;
        match &statements[i] {
            PyStatement::Assign(a) => {
                if targets_contain_all(&a.target_names) {
                    match &a.value {
                        PyAssignValue::List(items) => {
                            exports = Some(collect_export_strings(items));
                        },
                        PyAssignValue::Other => (),
                    }
                }
            },
            PyStatement::FunctionDef(f) => {
                let function_doc = FunctionDocumentation::from_function_statements(f, 1);
                let undocumented = match &function_doc.docstring {
                    Some(_) => false,
                    None => true,
                };
                if !(undocumented && skip_undoc) && !(is_private_function(&function_doc)
                    && skip_private) {
                    free_functions.push(function_doc);
                    proof {
                        assert(function_doc_views(free_functions@) =~= function_doc_views(
                            old_funcs,
                        ).push(free_functions@.last()@));
                    }
                }
            },
            PyStatement::AsyncFunctionDef(f) => {
                let function_doc = FunctionDocumentation::from_async_function_statements(f, 1);
                let undocumented = match &function_doc.docstring {
                    Some(_) => false,
                    None => true,
                };
                if !(undocumented && skip_undoc) && !(is_private_function(&function_doc)
                    && skip_private) {
                    free_functions.push(function_doc);
                    proof {
                        assert(function_doc_views(free_functions@) =~= function_doc_views(
                            old_funcs,
                        ).push(free_functions@.last()@));
                    }
                }
            },
            PyStatement::ClassDef(c) => {
                let class_doc = ClassDocumentation::from_class_statements(c, 1);
                let undocumented = match &class_doc.docstring {
                    Some(_) => false,
                    None => true,
                };
                if !(is_private_class(&class_doc) && skip_private) && !(undocumented
                    && skip_undoc) {
                    class_definitions.push(class_doc);
                    proof {
                        assert(class_doc_views(class_definitions@) =~= class_doc_views(
                            old_classes,
                        ).push(class_definitions@.last()@));
                    }
                }
            },
            _ => (),
        }
        i = i + 1;
        proof {
            assert(statements@.take(i as int).drop_last() =~= statements@.take(i as int - 1));
            assert(statements@.take(i as int).last() == statements@[i as int - 1]);
        }
    }
    proof {
        assert(statements@.take(statements@.len() as int) =~= statements@);
    }
    ModuleDocumentation {
        docstring,
        functions: free_functions,
        classes: class_definitions,
        sub_modules: None,
        exports,
    }
}

impl ModuleDocumentation {
    /// A copy with the same value.
    pub fn duplicate(&self) -> (r: Self)
        ensures
            r@ == self@,
    {
        let mut functions: Vec<FunctionDocumentation> = Vec::new();
        let mut i: usize = 0;
        while i < self.functions.len()
            invariant
                i <= self.functions@.len(),
                functions@.len() == i,
                forall|k: int| 0 <= k < i ==> (#[trigger] functions@[k])@ == self.functions@[k]@,
            decreases self.functions@.len() - i,
        {
            functions.push(self.functions[i].duplicate());
            i = i + 1;
        }
        let mut classes: Vec<ClassDocumentation> = Vec::new();
        let mut j: usize = 0;
        while j < self.classes.len()
            invariant
                j <= self.classes@.len(),
                classes@.len() == j,
                forall|k: int| 0 <= k < j ==> (#[trigger] classes@[k])@ == self.classes@[k]@,
            decreases self.classes@.len() - j,
        {
            classes.push(self.classes[j].duplicate());
            j = j + 1;
        }
        let sub_modules = match &self.sub_modules {
            Some(v) => Some(crate::text::clone_string_vec(v)),
            None => None,
        };
        let exports = match &self.exports {
            Some(v) => Some(crate::text::clone_string_vec(v)),
            None => None,
        };
        proof {
            assert forall|k: int|
                0 <= k < self.functions@.len() implies function_doc_views(functions@)[k]
                == function_doc_views(self.functions@)[k] by {
                assert(functions@[k]@ == self.functions@[k]@);
            }
            assert(function_doc_views(functions@) =~= function_doc_views(self.functions@));
            assert forall|k: int|
                0 <= k < self.classes@.len() implies class_doc_views(classes@)[k]
                == class_doc_views(self.classes@)[k] by {
                assert(classes@[k]@ == self.classes@[k]@);
            }
            assert(class_doc_views(classes@) =~= class_doc_views(self.classes@));
        }
        ModuleDocumentation {
            docstring: crate::text::clone_opt_string(&self.docstring),
            functions,
            classes,
            sub_modules,
            exports,
        }
    }

    /// The references used in this module's docstring, in order.
    pub fn extract_used_references(&self) -> (r: Vec<ObjectRef>)
        ensures
            r@.map_values(|o: ObjectRef| o@) == spec_used_refs(self@.docstring),
    {
        match &self.docstring {
            Some(s) => extract_object_refs(s.as_str()),
            None => Vec::new(),
        }
    }
}

} // verus!
