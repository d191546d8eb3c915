//! Notebook rendering: media ranking, rich-output reduction and the
//! rendered text layout.

use snakedown::notebook::{
    rank_media_types, render_jupyter_display_data, render_notebook, CellOutput, DecodedOutput,
    MediaEntry, MediaKind, NotebookCell,
};
use snakedown::render::MdRenderer;

fn media(kind: MediaKind, payload: &str) -> MediaEntry {
    MediaEntry {
        kind,
        payload: payload.to_string(),
    }
}

#[test]
fn media_ranking_prefers_richer_flavors() {
    assert_eq!(rank_media_types(&MediaKind::Svg), 10);
    assert_eq!(rank_media_types(&MediaKind::Png), 9);
    assert_eq!(rank_media_types(&MediaKind::Plain), 1);
    assert_eq!(rank_media_types(&MediaKind::Other), 0);
}

#[test]
fn display_data_picks_richest() {
    let data = vec![
        media(MediaKind::Plain, "plain text"),
        media(MediaKind::Html, "<b>rich</b>"),
    ];
    match render_jupyter_display_data(3, &data).unwrap() {
        Some(DecodedOutput::Text(t)) => assert_eq!(t, "<b>rich</b>".to_string()),
        _ => panic!("expected inline text"),
    }
}

#[test]
fn display_data_decodes_png() {
    // "abc" in standard base64
    let data = vec![media(MediaKind::Png, "YWJj")];
    match render_jupyter_display_data(7, &data).unwrap() {
        Some(DecodedOutput::Image(img)) => {
            assert_eq!(img.name, "7.png".to_string());
            assert_eq!(img.data, b"abc".to_vec());
        }
        _ => panic!("expected an image"),
    }
}

#[test]
fn display_data_bad_base64_is_an_error() {
    let data = vec![media(MediaKind::Png, "!!! not base64 !!!")];
    assert!(render_jupyter_display_data(0, &data).is_err());
}

#[test]
fn display_data_empty_is_nothing() {
    assert_eq!(
        render_jupyter_display_data(0, &vec![]).unwrap().is_none(),
        true
    );
}

#[test]
fn notebook_rendering_layout() {
    let cells = vec![
        NotebookCell::Markdown("# Intro".to_string()),
        NotebookCell::Code {
            source: "print(1)".to_string(),
            outputs: vec![CellOutput::Stream("1".to_string())],
        },
        NotebookCell::Raw("raw stuff".to_string()),
    ];
    let rendered = render_notebook(Some("nb"), &cells, &MdRenderer::new()).unwrap();
    assert_eq!(
        rendered.text,
        "# nb\n\n# Intro\n\n```python\nprint(1)\n```\n\n```\n1\n```\n\n```\nraw stuff\n```"
            .to_string()
    );
    assert_eq!(rendered.images.len(), 0);
}

#[test]
fn notebook_collects_images() {
    let cells = vec![NotebookCell::Code {
        source: "plot()".to_string(),
        outputs: vec![CellOutput::ExecuteResult(vec![media(
            MediaKind::Png,
            "YWJj",
        )])],
    }];
    let rendered = render_notebook(None, &cells, &MdRenderer::new()).unwrap();
    assert_eq!(rendered.images.len(), 1);
    assert_eq!(rendered.images[0].name, "0.png".to_string());
    assert!(rendered.text.contains("![image](0.png)"));
}
