//! Rendering of documentation objects to markup text: the renderer
//! capability interface, its markdown implementation, and the object
//! templates that combine front matter, signature and docstring.

use vstd::prelude::*;
use vstd::string::*;
use crate::class::ClassDocumentation;
use crate::function::FunctionDocumentation;
use crate::module::ModuleDocumentation;
use crate::object::{ObjectDocView, ObjectDocumentation};
use crate::paths::{last_index_of, stem_of};
use crate::text::{opt_str_view, str_to_chars, trim_range, trimmed};

verus! {

/// The supported static site generator flavors.
#[derive(Clone, Copy, Debug, PartialEq, Eq)]
pub enum SSG {
    Markdown,
    Zola,
}

/// An error of the rendering phase.
#[derive(Debug)]
pub enum RenderError {
    /// The renderer could not produce link text for a reference.
    UnrenderableReference,
}

/// The view of an optional borrowed string.
pub open spec fn opt_ref_str_view(o: Option<&str>) -> Option<Seq<char>> {
    match o {
        Some(s) => Some(s@),
        None => None,
    }
}

/// `n` copies of the character `c`.
pub open spec fn repeat_char(c: char, n: nat) -> Seq<char> {
    Seq::new(n, |i: int| c)
}

/// The capability interface every output format implements: header text,
/// front-matter text, link text for a reference, and the format's content
/// directory. The mathematical members pin down what each rendering
/// function returns.
pub trait Renderer: Sized {
    /// The header text of `content` at `level`, as mathematics.
    spec fn spec_header(&self, content: Seq<char>, level: nat) -> Seq<char>;

    /// The front-matter text for a title, as mathematics.
    spec fn spec_front_matter(&self, title: Option<Seq<char>>) -> Seq<char>;

    /// The link text for a reference, or nothing where the renderer cannot
    /// produce one.
    spec fn spec_reference(
        &self,
        display: Option<Seq<char>>,
        target_prefix: Seq<char>,
        target: Seq<char>,
    ) -> Option<Seq<char>>;

    /// The content directory of the format, as mathematics.
    spec fn spec_content_path(&self) -> Option<Seq<char>>;

    fn render_header(&self, content: &str, level: usize) -> (r: String)
        ensures
            r@ == self.spec_header(content@, level as nat),
    ;

    fn render_front_matter(&self, title: Option<&str>) -> (r: String)
        ensures
            r@ == self.spec_front_matter(opt_ref_str_view(title)),
    ;

    fn render_reference(&self, display_text: Option<String>, target_prefix: &str, target: String) -> (r:
        Result<String, RenderError>)
        ensures
            match r {
                Ok(s) => self.spec_reference(opt_str_view(display_text), target_prefix@, target@)
                    == Some(s@),
                Err(_) => self.spec_reference(
                    opt_str_view(display_text),
                    target_prefix@,
                    target@,
                ) is None,
            },
    ;

    fn content_path(&self) -> (r: Option<String>)
        ensures
            opt_str_view(r) == self.spec_content_path(),
    ;
}

/// Relies on `url::Url::parse`: whether a string parses as an absolute URL
/// is a function of its characters alone.
#[verifier::external_body]
fn is_absolute_url(s: &str) -> (r: bool)
    ensures
        r == url_parse_ok(s@),
{
    url::Url::parse(s).is_ok()
}

pub uninterp spec fn url_parse_ok(s: Seq<char>) -> bool;

/// The markdown link target for a reference target: an absolute URL stands
/// as it is, anything else is an internal page and gains the `.md`
/// extension.
pub open spec fn md_link_target(target: Seq<char>) -> Seq<char> {
    if url_parse_ok(target) {
        target
    } else {
        target + seq!['.', 'm', 'd']
    }
}

/// A markdown link `[text](target)`.
pub open spec fn md_link(text: Seq<char>, target: Seq<char>) -> Seq<char> {
    seq!['['] + text + seq![']', '('] + target + seq![')']
}

/// The plain markdown renderer: `#` headers, the title as front matter,
/// and `[text](target)` links; it writes wherever it is pointed, so it has
/// no content directory.
#[derive(Default)]
pub struct MdRenderer {}

impl MdRenderer {
    pub fn new() -> (r: Self)
        ensures
            r == (MdRenderer {  }),
    {
        Self {  }
    }
}

/// Appends the trimmed characters of `s` to `out`.
fn append_trimmed(out: &mut String, s: &str)
    ensures
        final(out)@ == old(out)@ + trimmed(s@),
{
    let v = str_to_chars(s);
    proof {
        assert(v@.subrange(0, v@.len() as int) =~= v@);
    }
    let (a, b) = trim_range(&v, 0, v.len());
    let t = crate::object_ref::chars_range_to_string(&v, a, b);
    out.append(t.as_str());
}

impl Renderer for MdRenderer {
    open spec fn spec_header(&self, content: Seq<char>, level: nat) -> Seq<char> {
        repeat_char('#', level) + seq![' '] + trimmed(content)
    }

    open spec fn spec_front_matter(&self, title: Option<Seq<char>>) -> Seq<char> {
        match title {
            Some(t) => self.spec_header(t, 1),
            None => Seq::empty(),
        }
    }

    open spec fn spec_reference(
        &self,
        display: Option<Seq<char>>,
        target_prefix: Seq<char>,
        target: Seq<char>,
    ) -> Option<Seq<char>> {
        let t = md_link_target(target);
        match display {
            Some(text) => Some(md_link(text, t)),
            None => Some(md_link(t, t)),
        }
    }

    open spec fn spec_content_path(&self) -> Option<Seq<char>> {
        None
    }

    fn render_header(&self, content: &str, level: usize) -> (r: String)
        ensures
            r@ == self.spec_header(content@, level as nat),
    {
        let mut out = String::new();
        let mut i: usize = 0;
        while i < level
            invariant
                i <= level,
                out@ == repeat_char('#', i as nat),
            decreases level - i,
        {
            out.push('#');
            i = i + 1;
            assert(out@ =~= repeat_char('#', i as nat));
        }
        out.push(' ');
        append_trimmed(&mut out, content);
        proof {
            assert(out@ =~= self.spec_header(content@, level as nat));
        }
        out
    }

    fn render_front_matter(&self, title: Option<&str>) -> (r: String)
        ensures
            r@ == self.spec_front_matter(opt_ref_str_view(title)),
    {
        match title {
            Some(t) => self.render_header(t, 1),
            None => {
                let r = String::new();
                r
            },
        }
    }

    fn render_reference(&self, display_text: Option<String>, target_prefix: &str, target: String) -> (r:
        Result<String, RenderError>)
        ensures
            match r {
                Ok(s) => self.spec_reference(opt_str_view(display_text), target_prefix@, target@)
                    == Some(s@),
                Err(_) => self.spec_reference(
                    opt_str_view(display_text),
                    target_prefix@,
                    target@,
                ) is None,
            },
    {
        let ghost target_view = target@;
        let t: String = if is_absolute_url(target.as_str()) {
            target
        } else {
            let mut t2 = target;
            t2.append(".md");
            proof {
                reveal_strlit(".md");
                assert(t2@ =~= target_view + seq!['.', 'm', 'd']);
            }
            t2
        };
        let mut out = String::new();
        out.push('[');
        match &display_text {
            Some(text) => {
                out.append(text.as_str());
            },
            None => {
                out.append(t.as_str());
            },
        }
        out.push(']');
        out.push('(');
        out.append(t.as_str());
        out.push(')');
        proof {
            match opt_str_view(display_text) {
                Some(tx) => {
                    assert(out@ =~= md_link(tx, md_link_target(target_view)));
                },
                None => {
                    assert(out@ =~= md_link(
                        md_link_target(target_view),
                        md_link_target(target_view),
                    ));
                },
            }
        }
        Ok(out)
    }

    fn content_path(&self) -> (r: Option<String>)
        ensures
            opt_str_view(r) == self.spec_content_path(),
    {
        None
    }
}

/// The name of a file that stands for its package.
pub open spec fn init_name() -> Seq<char> {
    seq!['_', '_', 'i', 'n', 'i', 't', '_', '_']
}

/// The section-index file name that replaces it.
pub open spec fn index_file_name() -> Seq<char> {
    seq!['_', 'i', 'n', 'd', 'e', 'x', '.', 'm', 'd']
}

/// The output file for a source file: the final component's extension
/// becomes `.md`, and a file that stands for its package becomes the
/// section index `_index.md`; a path without a final name is unchanged.
pub open spec fn spec_translate_filename(p: Seq<char>) -> Seq<char> {
    let sl = last_index_of(p, '/', 0, p.len() as int);
    let name = p.subrange(sl + 1, p.len() as int);
    if name.len() == 0 {
        p
    } else {
        let st = stem_of(name);
        let new_name = if st == init_name() {
            index_file_name()
        } else {
            st + seq!['.', 'm', 'd']
        };
        p.subrange(0, sl + 1) + new_name
    }
}

/// Translates a source file path to its output file path.
pub fn translate_filename(path: &str) -> (r: String)
    ensures
        r@ == spec_translate_filename(path@),
{
    let v = str_to_chars(path);
    let n = v.len();
    let name_start = match crate::paths::find_last_char(&v, '/', 0, n) {
        Some(sl) => sl + 1,
        None => 0,
    };
    if name_start == n {
        proof {
            assert(path@.subrange(name_start as int, n as int).len() == 0);
        }
        return String::from_str(path);
    }
    let stem_end = match crate::paths::find_last_char(&v, '.', name_start + 1, n) {
        Some(d) => d,
        None => n,
    };
    proof {
        crate::paths::lemma_last_index_of_subrange(v@, '.', name_start as int, n as int, n as int);
        assert(v@.subrange(name_start as int, stem_end as int) =~= stem_of(
            path@.subrange(name_start as int, n as int),
        ));
    }
    let is_init = crate::text::range_eq_str(&v, name_start, stem_end, "__init__");
    proof {
        reveal_strlit("__init__");
        assert("__init__"@ =~= init_name());
    }
    let mut out = crate::object_ref::chars_range_to_string(&v, 0, name_start);
    if is_init {
        out.push('_');
        out.push('i');
        out.push('n');
        out.push('d');
        out.push('e');
        out.push('x');
        out.push('.');
        out.push('m');
        out.push('d');
        proof {
            assert(out@ =~= spec_translate_filename(path@));
        }
    } else {
        let st = crate::object_ref::chars_range_to_string(&v, name_start, stem_end);
        out.append(st.as_str());
        out.push('.');
        out.push('m');
        out.push('d');
        proof {
            assert(out@ =~= spec_translate_filename(path@));
        }
    }
    out
}

/// The fully-qualified display name of an object under an optional prefix:
/// a module is its prefix alone; a class or function appends its trimmed
/// name.
pub open spec fn spec_fq_object_name(o: ObjectDocView, prefix: Option<Seq<char>>) -> Seq<char> {
    let name = match o {
        ObjectDocView::Module(_) => Seq::<char>::empty(),
        ObjectDocView::Class(c) => trimmed(c.name),
        ObjectDocView::Function(f) => trimmed(f.name),
    };
    match o {
        ObjectDocView::Module(_) => match prefix {
            None => Seq::<char>::empty(),
            Some(p) => p,
        },
        _ => match prefix {
            None => name,
            Some(p) => p + seq!['.'] + name,
        },
    }
}

/// The fully-qualified display name of an object under an optional prefix.
pub fn fully_qualified_object_name(object: &ObjectDocumentation, prefix: Option<String>) -> (r:
    String)
    ensures
        r@ == spec_fq_object_name(object@, opt_str_view(prefix)),
{
    match object {
        ObjectDocumentation::Module(_) => match prefix {
            None => String::new(),
            Some(p) => p,
        },
        ObjectDocumentation::Class(class_documentation) => {
            let mut out = match prefix {
                None => String::new(),
                Some(p) => {
                    let mut o = p;
                    o.push('.');
                    o
                },
            };
            append_trimmed(&mut out, class_documentation.name.as_str());
            proof {
                assert(out@ =~= spec_fq_object_name(object@, opt_str_view(prefix)));
            }
            out
        },
        ObjectDocumentation::Function(function_documentation) => {
            let mut out = match prefix {
                None => String::new(),
                Some(p) => {
                    let mut o = p;
                    o.push('.');
                    o
                },
            };
            append_trimmed(&mut out, function_documentation.name.as_str());
            proof {
                assert(out@ =~= spec_fq_object_name(object@, opt_str_view(prefix)));
            }
            out
        },
    }
}

/// A docstring block: a blank line, the trimmed docstring and a line
/// break; or nothing where there is no docstring.
pub open spec fn doc_block(doc: Option<Seq<char>>) -> Seq<char> {
    match doc {
        Some(d) => seq!['\n'] + trimmed(d) + seq!['\n'],
        None => Seq::empty(),
    }
}

/// The rendered page of a module: its front matter, then its docstring
/// block.
pub open spec fn spec_module_render(fm: Seq<char>, doc: Option<Seq<char>>) -> Seq<char> {
    fm + seq!['\n'] + doc_block(doc)
}

/// The rendered page of a class: an indented front-matter line, then the
/// docstring block.
pub open spec fn spec_class_render(fm: Seq<char>, doc: Option<Seq<char>>) -> Seq<char> {
    seq!['\n'] + repeat_char(' ', 8) + fm + seq!['\n'] + doc_block(doc)
}

/// Parameters joined with `, `.
pub open spec fn join_params(ps: Seq<Seq<char>>) -> Seq<char>
    decreases ps.len(),
{
    if ps.len() == 0 {
        Seq::empty()
    } else if ps.len() == 1 {
        ps[0]
    } else {
        join_params(ps.drop_last()) + seq![',', ' '] + ps.last()
    }
}

/// The rendered page of a function: an indented front-matter line, a blank
/// line, the signature `name(params) -> ret`, then the docstring block.
pub open spec fn spec_function_render(
    fm: Seq<char>,
    name: Seq<char>,
    params: Seq<Seq<char>>,
    ret: Option<Seq<char>>,
    doc: Option<Seq<char>>,
) -> Seq<char> {
    seq!['\n'] + repeat_char(' ', 8) + fm + seq!['\n', '\n'] + name + seq!['('] + join_params(
        params,
    ) + seq![')'] + (match ret {
        Some(rt) => seq![' ', '-', '>', ' '] + rt,
        None => Seq::<char>::empty(),
    }) + seq!['\n'] + doc_block(doc)
}

/// Appends the docstring block to `out`.
fn append_doc_block(out: &mut String, doc: &Option<String>)
    ensures
        final(out)@ == old(out)@ + doc_block(opt_str_view(*doc)),
{
    match doc {
        Some(d) => {
            out.push('\n');
            append_trimmed(out, d.as_str());
            out.push('\n');
        },
        None => (),
    }
}

/// Renders a module's page: front matter for its fully-qualified name,
/// then its docstring.
pub fn render_module<R: Renderer>(
    mod_doc: &ModuleDocumentation,
    fully_qualified_name: String,
    renderer: &R,
) -> (r: Result<String, RenderError>)
    ensures
        r matches Ok(s) && s@ == spec_module_render(
            renderer.spec_front_matter(Some(fully_qualified_name@)),
            mod_doc@.docstring,
        ),
{
    let mut out = renderer.render_front_matter(Some(fully_qualified_name.as_str()));
    out.push('\n');
    append_doc_block(&mut out, &mod_doc.docstring);
    Ok(out)
}

/// Renders a class's page.
fn render_class_docs<R: Renderer>(
    class_docs: &ClassDocumentation,
    fully_qualified_name: &str,
    renderer: &R,
) -> (r: Result<String, RenderError>)
    ensures
        r matches Ok(s) && s@ == spec_class_render(
            renderer.spec_front_matter(Some(fully_qualified_name@)),
            class_docs@.docstring,
        ),
{
    let fm = renderer.render_front_matter(Some(fully_qualified_name));
    let mut out = String::new();
    out.push('\n');
    let mut i: usize = 0;
    while i < 8
        invariant
            i <= 8,
            out@ == seq!['\n'] + repeat_char(' ', i as nat),
        decreases 8 - i,
    {
        out.push(' ');
        i = i + 1;
        assert(out@ =~= seq!['\n'] + repeat_char(' ', i as nat));
    }
    out.append(fm.as_str());
    out.push('\n');
    append_doc_block(&mut out, &class_docs.docstring);
    proof {
        assert(out@ =~= spec_class_render(
            renderer.spec_front_matter(Some(fully_qualified_name@)),
            class_docs@.docstring,
        ));
    }
    Ok(out)
}

/// Renders a function's page.
fn render_function_docs<R: Renderer>(
    fn_docs: &FunctionDocumentation,
    fully_qualified_name: &str,
    renderer: &R,
) -> (r: Result<String, RenderError>)
    ensures
        r matches Ok(s) && s@ == spec_function_render(
            renderer.spec_front_matter(Some(fully_qualified_name@)),
            fn_docs@.name,
            fn_docs@.params,
            fn_docs@.return_type,
            fn_docs@.docstring,
        ),
{
    let fm = renderer.render_front_matter(Some(fully_qualified_name));
    let mut out = String::new();
    out.push('\n');
    let mut i: usize = 0;
    while i < 8
        invariant
            i <= 8,
            out@ == seq!['\n'] + repeat_char(' ', i as nat),
        decreases 8 - i,
    {
        out.push(' ');
        i = i + 1;
        assert(out@ =~= seq!['\n'] + repeat_char(' ', i as nat));
    }
    out.append(fm.as_str());
    out.push('\n');
    out.push('\n');
    out.append(fn_docs.name.as_str());
    out.push('(');
    let ghost before_params = out@;
    let mut j: usize = 0;
    while j < fn_docs.params.len()
        invariant
            j <= fn_docs.params@.len(),
            fn_docs@.params == fn_docs.params.deep_view(),
            out@ == before_params + join_params(fn_docs@.params.take(j as int)),
        decreases fn_docs.params@.len() - j,
    {
        if j > 0 {
            out.push(',');
            out.push(' ');
        }
        out.append(fn_docs.params[j].as_str());
        j = j + 1;
        proof {
            assert(fn_docs@.params.take(j as int).drop_last() =~= fn_docs@.params.take(
                j as int - 1,
            ));
            assert(fn_docs@.params.take(j as int).last() == fn_docs@.params[j as int - 1]);
            assert(fn_docs@.params[j as int - 1] == fn_docs.params@[j as int - 1]@);
            assert(out@ =~= before_params + join_params(fn_docs@.params.take(j as int)));
        }
    }
    proof {
        assert(fn_docs@.params.take(fn_docs@.params.len() as int) =~= fn_docs@.params);
    }
    out.push(')');
    match &fn_docs.return_type {
        Some(rt) => {
            out.push(' ');
            out.push('-');
            out.push('>');
            out.push(' ');
            out.append(rt.as_str());
        },
        None => (),
    }
    out.push('\n');
    append_doc_block(&mut out, &fn_docs.docstring);
    proof {
        assert(out@ =~= spec_function_render(
            renderer.spec_front_matter(Some(fully_qualified_name@)),
            fn_docs@.name,
            fn_docs@.params,
            fn_docs@.return_type,
            fn_docs@.docstring,
        ));
    }
    Ok(out)
}

/// The rendered page of any documentation object.
pub open spec fn spec_object_render<R: Renderer>(
    renderer: R,
    o: ObjectDocView,
    fq: Seq<char>,
) -> Seq<char> {
    let fm = renderer.spec_front_matter(Some(fq));
    match o {
        ObjectDocView::Module(m) => spec_module_render(fm, m.docstring),
        ObjectDocView::Class(c) => spec_class_render(fm, c.docstring),
        ObjectDocView::Function(f) => spec_function_render(
            fm,
            f.name,
            f.params,
            f.return_type,
            f.docstring,
        ),
    }
}

/// Renders any documentation object under its fully-qualified name.
pub fn render_object<R: Renderer>(
    object: &ObjectDocumentation,
    fully_qualified_name: String,
    renderer: &R,
) -> (r: Result<String, RenderError>)
    ensures
        r matches Ok(s) && s@ == spec_object_render(*renderer, object@, fully_qualified_name@),
{
    match object {
        ObjectDocumentation::Class(class_documentation) => render_class_docs(
            class_documentation,
            fully_qualified_name.as_str(),
            renderer,
        ),
        ObjectDocumentation::Module(module_documentation) => render_module(
            module_documentation,
            fully_qualified_name,
            renderer,
        ),
        ObjectDocumentation::Function(function_documentation) => render_function_docs(
            function_documentation,
            fully_qualified_name.as_str(),
            renderer,
        ),
    }
}

} // verus!
