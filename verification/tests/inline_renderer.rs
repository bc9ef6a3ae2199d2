use rune_editor::editor_state::CursorPosition;
use rune_editor::inline_renderer::{InlineRenderer, MarkdownInlineRenderer, RenderedElement};
use rune_editor::syntax_parser::{PositionRange, SyntaxElement, SyntaxElementType};
use rune_editor::text::html_escape;

#[test]
fn test_render_header() {
    let renderer = MarkdownInlineRenderer::new();
    let element = SyntaxElement::new(
        SyntaxElementType::Header { level: 1 },
        PositionRange::new(0, 10),
        "# Header".to_string(),
        "Header".to_string(),
    );

    let rendered = renderer.render_element(&element);
    assert!(rendered.html.contains("<h1>Header</h1>"));
    assert!(rendered.css_classes.contains(&"md-header".to_string()));
    assert!(rendered.css_classes.contains(&"md-header-1".to_string()));
}

#[test]
fn test_render_bold() {
    let renderer = MarkdownInlineRenderer::new();
    let element = SyntaxElement::new(
        SyntaxElementType::Bold,
        PositionRange::new(0, 8),
        "**bold**".to_string(),
        "bold".to_string(),
    );

    let rendered = renderer.render_element(&element);
    assert!(rendered.html.contains("<strong>bold</strong>"));
    assert!(rendered.css_classes.contains(&"md-bold".to_string()));
}

#[test]
fn test_render_italic() {
    let renderer = MarkdownInlineRenderer::new();
    let element = SyntaxElement::new(
        SyntaxElementType::Italic,
        PositionRange::new(0, 8),
        "*italic*".to_string(),
        "italic".to_string(),
    );

    let rendered = renderer.render_element(&element);
    assert!(rendered.html.contains("<em>italic</em>"));
    assert!(rendered.css_classes.contains(&"md-italic".to_string()));
}

#[test]
fn test_render_inline_code() {
    let renderer = MarkdownInlineRenderer::new();
    let element = SyntaxElement::new(
        SyntaxElementType::InlineCode,
        PositionRange::new(0, 6),
        "`code`".to_string(),
        "code".to_string(),
    );

    let rendered = renderer.render_element(&element);
    assert!(rendered.html.contains("<code>code</code>"));
    assert!(rendered.css_classes.contains(&"md-code".to_string()));
    assert!(rendered.css_classes.contains(&"md-inline-code".to_string()));
}

#[test]
fn test_render_link() {
    let renderer = MarkdownInlineRenderer::new();
    let element = SyntaxElement::new(
        SyntaxElementType::Link {
            url: "https://example.com".to_string(),
            title: None,
        },
        PositionRange::new(0, 25),
        "[link](https://example.com)".to_string(),
        "link".to_string(),
    );

    let rendered = renderer.render_element(&element);
    assert!(rendered.html.contains("<a href=\"https://example.com\">link</a>"));
    assert!(rendered.css_classes.contains(&"md-link".to_string()));
}

#[test]
fn test_cursor_awareness() {
    let renderer = MarkdownInlineRenderer::new();
    let element = SyntaxElement::new(
        SyntaxElementType::Bold,
        PositionRange::new(5, 13),
        "**bold**".to_string(),
        "bold".to_string(),
    );

    let cursor_inside = CursorPosition::new(0, 7, 7);
    let cursor_outside = CursorPosition::new(0, 2, 2);

    assert!(renderer.is_cursor_in_element(&element, &cursor_inside));
    assert!(!renderer.is_cursor_in_element(&element, &cursor_outside));
}

#[test]
fn test_editing_mode() {
    let renderer = MarkdownInlineRenderer::new();
    let element = SyntaxElement::new(
        SyntaxElementType::Bold,
        PositionRange::new(0, 8),
        "**bold**".to_string(),
        "bold".to_string(),
    );

    let cursor_position = CursorPosition::new(0, 4, 4);
    let rendered_elements = renderer.render_elements_with_cursor(&[element], &cursor_position);

    assert_eq!(rendered_elements.len(), 1);
    assert!(rendered_elements[0].is_editing);
    assert!(rendered_elements[0].css_classes.contains(&"editing".to_string()));
    assert!(rendered_elements[0].css_classes.contains(&"cursor-active".to_string()));
}

#[test]
fn inline_renderer_test_html_escape() {
    assert_eq!(html_escape("&<>\"'"), "&amp;&lt;&gt;&quot;&#x27;");
}

#[test]
fn test_extract_raw_content() {
    let renderer = MarkdownInlineRenderer::new();
    let rendered = RenderedElement::new(
        "<strong>bold</strong>".to_string(),
        vec!["md-bold".to_string()],
        "**bold**".to_string(),
        (0, 8),
    );

    assert_eq!(renderer.extract_raw_content(&rendered), "**bold**");
}

#[test]
fn to_html_with_classes_attributes_and_editing() {
    let mut rendered = RenderedElement::new(
        "<strong>b</strong>".to_string(),
        vec!["md-bold".to_string()],
        "**<b>**".to_string(),
        (0, 7),
    );
    rendered.add_data_attribute("k", "v");
    assert_eq!(
        rendered.to_html(),
        "<strong class=\"md-bold\" data-k=\"v\"><strong>b</strong></strong>"
    );
    rendered.set_editing(true);
    assert_eq!(
        rendered.to_html(),
        "<strong class=\"md-bold editing\" data-k=\"v\" contenteditable=\"true\">**&lt;b&gt;**</strong>"
    );
    rendered.set_editing(false);
    assert_eq!(rendered.css_classes, vec!["md-bold".to_string()]);
}

#[test]
fn render_document_escapes_text_between_elements() {
    let renderer = MarkdownInlineRenderer::with_class_prefix("x".to_string());
    let element = SyntaxElement::new(
        SyntaxElementType::InlineCode,
        PositionRange::new(2, 5),
        "`a`".to_string(),
        "a".to_string(),
    );
    let html = renderer.render_document("<>`a`&", &[element], &CursorPosition::new(0, 0, 0));
    assert_eq!(html, "&lt;&gt;<code class=\"x-code x-inline-code\"><code>a</code></code>&amp;");
    assert_eq!(renderer.render_document("a<b", &[], &CursorPosition::new(0, 0, 0)), "a&lt;b");
}

#[test]
fn tag_name_follows_the_header_level() {
    let e = RenderedElement::new(
        "<h2>Title</h2>".to_string(),
        vec!["md-header".to_string()],
        "## Title".to_string(),
        (0, 8),
    );
    assert_eq!(e.extract_tag_name(), "h2");
    assert_eq!(e.to_html(), r#"<h2 class="md-header"><h2>Title</h2></h2>"#);
    let li = RenderedElement::new("<li>x</li>".to_string(), vec![], "- x".to_string(), (0, 3));
    assert_eq!(li.extract_tag_name(), "li");
    let hr = RenderedElement::new("<hr/>".to_string(), vec![], "---".to_string(), (0, 3));
    assert_eq!(hr.extract_tag_name(), "h1");
}
