//! Documentation of class declarations.

use vstd::prelude::*;
use vstd::string::*;
use crate::docstring::{docstring_of_body, extract_docstring_from_body};
use crate::function::{
    spec_statement_function_doc, spec_used_refs, starts_with_underscore, FunctionDocView,
    FunctionDocumentation,
};
use crate::object_ref::{extract_object_refs, ObjectRef};
use crate::pymodel::{PyClassDef, PyStatement};
use crate::text::{clone_opt_string, opt_str_view};

verus! {

/// The mathematical value of a class's documentation.
pub ghost struct ClassDocView {
    pub name: Seq<char>,
    pub docstring: Option<Seq<char>>,
    pub methods: Seq<FunctionDocView>,
}

/// Documentation of one class: its name, its docstring and its methods in
/// declaration order.
pub struct ClassDocumentation {
    pub name: String,
    pub docstring: Option<String>,
    pub methods: Vec<FunctionDocumentation>,
}

/// The views of a sequence of function documentations.
pub open spec fn function_doc_views(ms: Seq<FunctionDocumentation>) -> Seq<FunctionDocView> {
    ms.map_values(|m: FunctionDocumentation| m@)
}

impl View for ClassDocumentation {
    type V = ClassDocView;

    open spec fn view(&self) -> ClassDocView {
        ClassDocView {
            name: self.name@,
            docstring: opt_str_view(self.docstring),
            methods: function_doc_views(self.methods@),
        }
    }
}

/// The methods gathered from a class body at nesting level `indent`: every
/// function or `async` function declaration, in order.
pub open spec fn spec_class_methods(body: Seq<PyStatement>, indent: nat) -> Seq<FunctionDocView>
    decreases body.len(),
{
    if body.len() == 0 {
        Seq::empty()
    } else {
        let rest = spec_class_methods(body.drop_last(), indent);
        match spec_statement_function_doc(body.last(), indent) {
            Some(d) => rest.push(d),
            None => rest,
        }
    }
}

/// The documentation extracted from a class declaration whose body is
/// nested `indent` levels deep.
pub open spec fn spec_class_doc(c: PyClassDef, indent: nat) -> ClassDocView {
    ClassDocView {
        name: c.name@,
        docstring: docstring_of_body(c.body@, indent),
        methods: spec_class_methods(c.body@, indent),
    }
}

impl ClassDocumentation {
    /// Documentation of a class declaration.
    pub fn from_class_statements(value: &PyClassDef, body_indent_level: usize) -> (r: Self)
        requires
            body_indent_level < usize::MAX,
        ensures
            r@ == spec_class_doc(*value, body_indent_level as nat),
    {
        let mut methods: Vec<FunctionDocumentation> = Vec::new();
        let mut i: usize = 0;
        while i < value.body.len()
            invariant
                i <= value.body@.len(),
                body_indent_level < usize::MAX,
                function_doc_views(methods@) == spec_class_methods(
                    value.body@.take(i as int),
                    body_indent_level as nat,
                ),
            decreases value.body@.len() - i,
        {
            let ghost old_methods = methods@;
            match FunctionDocumentation::from_statements(&value.body[i], body_indent_level) {
                Some(d) => {
                    methods.push(d);
                    proof {
                        assert(function_doc_views(methods@) =~= function_doc_views(old_methods)
                            .push(methods@.last()@));
                    }
                },
                None => (),
            }
            i = i + 1;
            proof {
                assert(value.body@.take(i as int).drop_last() =~= value.body@.take(i as int - 1));
                assert(value.body@.take(i as int).last() == value.body@[i as int - 1]);
            }
        }
        proof {
            assert(value.body@.take(value.body@.len() as int) =~= value.body@);
        }
        ClassDocumentation {
            name: value.name.clone(),
            docstring: extract_docstring_from_body(&value.body, body_indent_level),
            methods,
        }
    }

    /// The references used in this class's docstring, in order.
    pub fn extract_used_references(&self) -> (r: Vec<ObjectRef>)
        ensures
            r@.map_values(|o: ObjectRef| o@) == spec_used_refs(self@.docstring),
    {
        match &self.docstring {
            Some(s) => extract_object_refs(s.as_str()),
            None => Vec::new(),
        }
    }

    /// A copy with the same value.
    pub fn duplicate(&self) -> (r: Self)
        ensures
            r@ == self@,
    {
        let mut methods: Vec<FunctionDocumentation> = Vec::new();
        let mut i: usize = 0;
        while i < self.methods.len()
            invariant
                i <= self.methods@.len(),
                methods@.len() == i,
                forall|k: int| 0 <= k < i ==> (#[trigger] methods@[k])@ == self.methods@[k]@,
            decreases self.methods@.len() - i,
        {
            methods.push(self.methods[i].duplicate());
            i = i + 1;
        }
        proof {
            assert forall|k: int|
                0 <= k < self.methods@.len() implies function_doc_views(methods@)[k]
                == function_doc_views(self.methods@)[k] by {
                assert(methods@[k]@ == self.methods@[k]@);
            }
            assert(function_doc_views(methods@) =~= function_doc_views(self.methods@));
        }
        ClassDocumentation {
            name: self.name.clone(),
            docstring: clone_opt_string(&self.docstring),
            methods,
        }
    }
}

/// The class's name starts with the private-name marker.
pub fn is_private_class(class_doc: &ClassDocumentation) -> (r: bool)
    ensures
        r == starts_with_underscore(class_doc@.name),
{
    class_doc.name.unicode_len() > 0 && class_doc.name.as_str().get_char(0) == '_'
}

} // verus!
