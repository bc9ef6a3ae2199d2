use rune_editor::simple_live_editor::{simple_live_editor_page, SimpleLiveEditorHandler};

#[test]
fn live_editor_page_escapes_for_template_literals() {
    let page = simple_live_editor_page("a`b$c\\d <x>", "s9", "notes.md");
    assert!(page.starts_with("<!DOCTYPE html>"));
    assert!(page.contains("<title>Simple Live Editor - notes.md</title>"));
    assert!(page.contains("Live Markdown Editor - notes.md</div>"));
    assert!(page.contains(">a\\`b\\$c\\\\d <x></textarea>"));
    assert!(page.contains("const sessionId = 's9';"));
    assert!(page.contains("let originalContent = `a\\`b\\$c\\\\d <x>`;"));
    assert!(page.trim_end().ends_with("</html>"));
}

#[test]
fn live_editor_handler_titles_with_the_file_name() {
    let h = SimpleLiveEditorHandler::new("/live".to_string(), "docs/guide.md".to_string());
    assert_eq!(h.path_pattern(), "/live");
    let page = h.generate_simple_live_editor_html("# Hi", "abc");
    assert!(page.contains("<title>Simple Live Editor - guide.md</title>"));
    assert_eq!(page, simple_live_editor_page("# Hi", "abc", "guide.md"));
}
