//! Marker extraction behavior, including the verbatim corpus of mixed
//! well-formed and accidental marker syntax.

use snakedown::object_ref::{extract_object_refs, ObjectRef};

#[test]
fn regex_test_captures() {
    let test_text = r#"
    mod {test}
    [[]]
[[greeter]]
[[foo.bar]]
[[_foo.bar]]
[[_foo]]
[[_]]
[[asdf.asdf.asdf|display text]]
[[       foo.bar     ]]
[[      asdf.asdf.asdf       |     |||display text|||      ]]
idx[[foo == bar] = baz]
asdlkfj;alskdj;alsdkj
askdfjoiw3fmxj,cavuiw43i
        "#;

    let expected_refs = vec![
        ("greeter", None),
        ("foo.bar", None),
        ("_foo.bar", None),
        ("_foo", None),
        ("_", None),
        ("asdf.asdf.asdf", Some("display text".to_string())),
        ("foo.bar", None),
        ("asdf.asdf.asdf", Some("|||display text|||".to_string())),
    ]
    .into_iter()
    .map(|tup| ObjectRef::new(tup.0.to_owned(), tup.1))
    .collect::<Vec<ObjectRef>>();

    let found_refs = extract_object_refs(test_text);

    assert_eq!(expected_refs, found_refs);
}

#[test]
fn marker_simple_target() {
    let refs = extract_object_refs("[[foo.bar]]");
    assert_eq!(refs.len(), 1);
    assert_eq!(refs[0].fully_qualified_name, "foo.bar".to_string());
    assert_eq!(refs[0].display_text, None);
}

#[test]
fn marker_with_display() {
    let refs = extract_object_refs("[[foo|Display]]");
    assert_eq!(refs.len(), 1);
    assert_eq!(refs[0].fully_qualified_name, "foo".to_string());
    assert_eq!(refs[0].display_text, Some("Display".to_string()));
}

#[test]
fn marker_empty_target_dropped() {
    assert_eq!(extract_object_refs("[[]]").len(), 0);
    assert_eq!(extract_object_refs("[[   ]]").len(), 0);
}

#[test]
fn markers_in_document_order() {
    let refs = extract_object_refs("see [[b.first]]\nthen [[a.second]]\nand [[c.third]]");
    let names: Vec<String> = refs.into_iter().map(|r| r.fully_qualified_name).collect();
    assert_eq!(
        names,
        vec![
            "b.first".to_string(),
            "a.second".to_string(),
            "c.third".to_string()
        ]
    );
}

#[test]
fn marker_does_not_span_lines() {
    assert_eq!(extract_object_refs("[[foo\nbar]]").len(), 0);
}

#[test]
fn same_line_markers_merge_greedily() {
    // The match is maximal within a line: a second marker on the same
    // line is swallowed by the first.
    let refs = extract_object_refs("[[a]] and [[b]]");
    assert_eq!(refs.len(), 1);
    assert_eq!(refs[0].fully_qualified_name, "a]] and [[b".to_string());
}

#[test]
fn object_ref_new_keeps_fields() {
    let r = ObjectRef::new("pkg.mod".to_string(), Some("text".to_string()));
    assert_eq!(r.fully_qualified_name, "pkg.mod".to_string());
    assert_eq!(r.display_text, Some("text".to_string()));
}
