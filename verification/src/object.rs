//! The documentation object: a closed sum over module, class and function
//! documentation, with a shared surface for reading the docstring and the
//! references it uses.

use vstd::prelude::*;
use crate::class::{ClassDocView, ClassDocumentation};
use crate::function::{spec_used_refs, FunctionDocView, FunctionDocumentation};
use crate::module::{ModuleDocView, ModuleDocumentation};
use crate::object_ref::ObjectRef;
use crate::text::opt_str_view;

verus! {

/// The mathematical value of a documentation object.
pub ghost enum ObjectDocView {
    Module(ModuleDocView),
    Class(ClassDocView),
    Function(FunctionDocView),
}

impl ObjectDocView {
    /// The docstring of the object, whatever its variant.
    pub open spec fn docstring(self) -> Option<Seq<char>> {
        match self {
            ObjectDocView::Module(m) => m.docstring,
            ObjectDocView::Class(c) => c.docstring,
            ObjectDocView::Function(f) => f.docstring,
        }
    }

    /// The same object with its docstring replaced.
    pub open spec fn with_docstring(self, d: Option<Seq<char>>) -> ObjectDocView {
        match self {
            ObjectDocView::Module(m) => ObjectDocView::Module(
                ModuleDocView { docstring: d, ..m },
            ),
            ObjectDocView::Class(c) => ObjectDocView::Class(ClassDocView { docstring: d, ..c }),
            ObjectDocView::Function(f) => ObjectDocView::Function(
                FunctionDocView { docstring: d, ..f },
            ),
        }
    }
}

/// One documented symbol: a module, a class or a function.
pub enum ObjectDocumentation {
    Module(ModuleDocumentation),
    Class(ClassDocumentation),
    Function(FunctionDocumentation),
}

impl View for ObjectDocumentation {
    type V = ObjectDocView;

    open spec fn view(&self) -> ObjectDocView {
        match self {
            ObjectDocumentation::Module(m) => ObjectDocView::Module(m@),
            ObjectDocumentation::Class(c) => ObjectDocView::Class(c@),
            ObjectDocumentation::Function(f) => ObjectDocView::Function(f@),
        }
    }
}

impl ObjectDocumentation {
    /// The references used in this object's docstring, in order.
    pub fn extract_used_references(&self) -> (r: Vec<ObjectRef>)
        ensures
            r@.map_values(|o: ObjectRef| o@) == spec_used_refs(self@.docstring()),
    {
        match self {
            ObjectDocumentation::Module(module_documentation) => {
                module_documentation.extract_used_references()
            },
            ObjectDocumentation::Class(class_documentation) => {
                class_documentation.extract_used_references()
            },
            ObjectDocumentation::Function(function_documentation) => {
                function_documentation.extract_used_references()
            },
        }
    }

    /// The raw docstring of this object, whatever its variant.
    pub fn docstring(&self) -> (r: &Option<String>)
        ensures
            opt_str_view(*r) == self@.docstring(),
    {
        match self {
            ObjectDocumentation::Module(m) => &m.docstring,
            ObjectDocumentation::Class(c) => &c.docstring,
            ObjectDocumentation::Function(f) => &f.docstring,
        }
    }

    /// Replaces this object's docstring, leaving everything else unchanged.
    pub fn replace_docstring(&mut self, d: String)
        ensures
            final(self)@ == old(self)@.with_docstring(Some(d@)),
    {
        match self {
            ObjectDocumentation::Module(m) => {
                m.docstring = Some(d);
            },
            ObjectDocumentation::Class(c) => {
                c.docstring = Some(d);
            },
            ObjectDocumentation::Function(f) => {
                f.docstring = Some(d);
            },
        }
    }

    /// A copy with the same value.
    pub fn duplicate(&self) -> (r: Self)
        ensures
            r@ == self@,
    {
        match self {
            ObjectDocumentation::Module(m) => ObjectDocumentation::Module(m.duplicate()),
            ObjectDocumentation::Class(c) => ObjectDocumentation::Class(c.duplicate()),
            ObjectDocumentation::Function(f) => ObjectDocumentation::Function(f.duplicate()),
        }
    }
}

} // verus!
