use std::path::PathBuf;

use rune_editor::routing::Method;
use rune_editor::markdown_page::{
    count_words, extract_title_from_content, page_from_template, replace_str, MarkdownHandler,
};

#[test]
fn replace_matches_str_replace() {
    for (s, from, to) in [
        ("aaa", "aa", "b"),
        ("a-b-c", "-", "+-"),
        ("none here", "xyz", "q"),
        ("{CONTENT}{CONTENT}", "{CONTENT}", "<p>x</p>"),
        ("", "a", "b"),
    ] {
        assert_eq!(replace_str(s, from, to), s.replace(from, to));
    }
}

#[test]
fn page_places_content_and_mermaid_script() {
    let template = "<html><head><!-- {MERMAID_ASSETS} --></head><body>{CONTENT}</body></html>";
    let plain = page_from_template(template, "<p>hi</p>");
    assert_eq!(plain, "<html><head></head><body><p>hi</p></body></html>");
    let diagram = page_from_template(template, "<pre><code class=\"language-mermaid\">a</code></pre>");
    assert_eq!(
        diagram,
        "<html><head><script src=\"/mermaid.min.js\"></script></head><body><pre><code class=\"language-mermaid\">a</code></pre></body></html>"
    );
}

#[test]
fn title_is_the_first_level_one_heading() {
    assert_eq!(
        extract_title_from_content("<p>x</p><h1 id=\"t\">  Hello <em>World</em> </h1><h1>Second</h1>"),
        Some("Hello emWorld/em".to_string())
    );
    assert_eq!(extract_title_from_content("<h2>Not it</h2>"), None);
    assert_eq!(extract_title_from_content("<h1>unclosed"), None);
    assert_eq!(extract_title_from_content("<h1></h1>"), Some(String::new()));
}

#[test]
fn words_are_counted_outside_tags() {
    // Tag names stay in the text: " h1Hello World /h1 pone two  three /p".
    assert_eq!(count_words("<h1>Hello World</h1><p>one two  three</p>"), 7);
    assert_eq!(count_words(""), 0);
    assert_eq!(count_words("<br/>"), 1);
    assert_eq!(count_words("a<b>c</b>d"), 3);
}

#[test]
fn handler_renders_the_page() {
    let h = MarkdownHandler::new(
        "/".to_string(),
        PathBuf::from("README.md"),
        PathBuf::from("."),
        "<main>{CONTENT}</main><!-- {MERMAID_ASSETS} -->".to_string(),
    );
    assert_eq!(h.path_pattern(), "/");
    assert_eq!(h.priority(), 10);
    assert_eq!(h.render_markdown_fallback("# Title"), "<main><h1>Title</h1></main>");
    assert_eq!(h.extract_content_only("*x*"), "<p><em>x</em></p>");
}

#[test]
fn test_markdown_handler_creation() {
    let handler = MarkdownHandler::new(
        "/".to_string(),
        PathBuf::from("test.md"),
        PathBuf::from("."),
        "<main>{CONTENT}</main>".to_string(),
    );

    assert_eq!(handler.path_pattern(), "/");
    assert_eq!(handler.method(), Method::Get);
    assert_eq!(handler.priority(), 10);
}
