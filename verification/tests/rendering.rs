//! The markdown renderer and the object page templates.

use snakedown::module::extract_module_documentation;
use snakedown::pymodel::{PyParsedModule, PyStatement};
use snakedown::render::{
    fully_qualified_object_name, render_module, translate_filename, MdRenderer, Renderer,
};
use snakedown::object::ObjectDocumentation;
use snakedown::function::FunctionDocumentation;

#[test]
fn test_render_md_header() {
    let text = String::from("foo");
    let out = MdRenderer::new().render_header(&text, 1);
    assert_eq!(out, String::from("# foo"));
}

#[test]
fn test_render_external_ref() {
    let text = String::from("foo");
    let url = String::from("https://example.com/docs/foo/bar/baz.html#Bullshit");
    let out = MdRenderer::new()
        .render_reference(Some(text), "", url)
        .unwrap();
    assert_eq!(
        out,
        String::from("[foo](https://example.com/docs/foo/bar/baz.html#Bullshit)")
    );
}

#[test]
fn test_render_internal_ref() {
    let text = String::from("foo");
    let rel_path = String::from("foo/bar/index");
    let out = MdRenderer::new()
        .render_reference(Some(text), "", rel_path)
        .unwrap();
    assert_eq!(out, String::from("[foo](foo/bar/index.md)"));
}

#[test]
fn render_module_documentation() {
    let tree = PyParsedModule::Module(vec![PyStatement::StringLiteral(
        "This is a module that is used to test snakedown.".to_string(),
    )]);
    let mod_documentation = extract_module_documentation(&tree, false, false);
    let rendered = render_module(
        &mod_documentation,
        String::from("snakedown.testing.test_module"),
        &MdRenderer::new(),
    )
    .unwrap();
    assert_eq!(
        rendered,
        String::from(
            "# snakedown.testing.test_module\n\nThis is a module that is used to test snakedown.\n"
        )
    );
}

#[test]
fn test_translate_filename_init() {
    assert_eq!(
        translate_filename("foo/bar/__init__.py"),
        "foo/bar/_index.md".to_string()
    );
}

#[test]
fn test_translate_filename_module() {
    assert_eq!(
        translate_filename("foo/bar/baz.py"),
        "foo/bar/baz.md".to_string()
    );
}

#[test]
fn fully_qualified_name_appends_trimmed_names() {
    let f = ObjectDocumentation::Function(FunctionDocumentation {
        name: " greet ".to_string(),
        docstring: None,
        params: vec![],
        return_type: None,
    });
    assert_eq!(
        fully_qualified_object_name(&f, Some("pkg.mod".to_string())),
        "pkg.mod.greet".to_string()
    );
    assert_eq!(fully_qualified_object_name(&f, None), "greet".to_string());
}

#[test]
fn render_front_matter_without_title_is_empty() {
    assert_eq!(MdRenderer::new().render_front_matter(None), String::new());
}

#[test]
fn render_reference_without_display_uses_target() {
    let out = MdRenderer::new()
        .render_reference(None, "", "pkg.mod".to_string())
        .unwrap();
    assert_eq!(out, String::from("[pkg.mod.md](pkg.mod.md)"));
}
