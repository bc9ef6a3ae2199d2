use rune_editor::editor_state::{CursorPosition, EditorMode};
use rune_editor::live_editor::LiveEditorIntegration;
use rune_editor::render_trigger::TriggerEvent;
use rune_editor::syntax_parser::{PositionRange, SyntaxElement, SyntaxElementType};
use rune_editor::text::html_escape;

#[test]
fn test_live_editor_integration_creation() {
    let integration = LiveEditorIntegration::new();
    assert!(integration.current_elements.is_empty());
    assert!(integration.current_rendered.is_empty());
    assert_eq!(integration.active_element_index, None);
}

#[test]
fn test_content_processing() {
    let mut integration = LiveEditorIntegration::new();
    let content = "# Header\n\nThis is **bold** text.";
    let cursor_position = CursorPosition::new(0, 0, 0);
    let trigger_events = vec![TriggerEvent::SpaceKey];

    let result =
        integration.process_content_with_cursor(content, &cursor_position, &trigger_events);

    assert!(!result.syntax_elements.is_empty());
    assert!(!result.rendered_elements.is_empty());
    assert!(!result.rendered_content.is_empty());
}

#[test]
fn test_click_to_edit() {
    let mut integration = LiveEditorIntegration::new();
    let content = "This is **bold** text.";
    let cursor_position = CursorPosition::new(0, 0, 0);

    // First process the content to parse elements
    integration.process_content_with_cursor(content, &cursor_position, &[]);

    // Click on the bold element (assuming it's around position 10)
    let click_result = integration.handle_click_to_edit(10, content);

    if click_result.success {
        assert!(click_result.element_index.is_some());
        assert!(!click_result.raw_content.is_empty());
    }
}

#[test]
fn live_editor_test_mode_switching() {
    let mut integration = LiveEditorIntegration::new();
    let cursor_position = CursorPosition::new(0, 5, 5);

    let result =
        integration.handle_mode_switch(EditorMode::Raw, EditorMode::Live, &cursor_position);

    assert!(result.needs_rerender);
    // Cursor position should be preserved or mapped appropriately
}

#[test]
fn test_active_element_management() {
    let mut integration = LiveEditorIntegration::new();

    // Simulate having parsed elements
    integration.current_elements = vec![SyntaxElement::new(
        SyntaxElementType::Bold,
        PositionRange::new(0, 8),
        "**bold**".to_string(),
        "bold".to_string(),
    )];

    // Set element as active
    integration.set_active_element(0);
    assert_eq!(integration.active_element_index, Some(0));
    assert!(integration.get_active_element().is_some());

    // Clear active element
    integration.clear_active_element();
    assert_eq!(integration.active_element_index, None);
    assert!(integration.get_active_element().is_none());
}

#[test]
fn live_editor_test_html_escape() {
    assert_eq!(html_escape("&<>\"'"), "&amp;&lt;&gt;&quot;&#x27;");
    assert_eq!(html_escape("normal text"), "normal text");
}

#[test]
fn mixed_content_shows_active_element_raw() {
    let mut integration = LiveEditorIntegration::new();
    let content = "a **b** <c>";
    let cursor = CursorPosition::new(0, 3, 3);
    let result = integration.process_content_with_cursor(content, &cursor, &[TriggerEvent::SpaceKey]);
    assert_eq!(result.active_element_index, Some(0));
    // The inline pass also finds the italic `*b*` inside the bold markers.
    assert_eq!(
        result.rendered_content,
        "a <span class=\"editable-element\" data-element-index=\"0\" contenteditable=\"true\">**b**</span>\
<span class=\"editable-element\" data-element-index=\"1\" contenteditable=\"true\">*b*</span>* &lt;c&gt;"
    );
    assert_eq!(result.cursor_mapping.element_count, 2);
    assert_eq!(result.cursor_mapping.position_mapping_count, 4);
    assert_eq!(result.cursor_mapping.raw_content_length, 11);
    assert!(integration.get_active_rendered_element().unwrap().is_editing);
}

#[test]
fn mixed_content_renders_inactive_elements() {
    let mut integration = LiveEditorIntegration::new();
    let content = "x *y*";
    let cursor = CursorPosition::new(0, 0, 0);
    let result = integration.process_content_with_cursor(content, &cursor, &[]);
    assert_eq!(result.active_element_index, None);
    assert_eq!(result.rendered_content, "x <em class=\"md-italic\"><em>y</em></em>");
}

#[test]
fn click_reports_element_and_relative_cursor() {
    let mut integration = LiveEditorIntegration::new();
    let content = "ab **cd** ef";
    integration.process_content_with_cursor(content, &CursorPosition::new(0, 0, 0), &[]);
    let click = integration.handle_click_to_edit(5, content);
    assert!(click.success);
    assert_eq!(click.element_index, Some(0));
    assert_eq!(click.raw_content, "**cd**");
    assert_eq!(click.cursor_position, Some(CursorPosition::new(0, 2, 5)));
    assert_eq!(click.element_range, (3, 9));
    assert!(integration.update_active_element_content("**xy**"));
    assert_eq!(integration.get_active_element().unwrap().raw_content, "**xy**");
    let miss = integration.handle_click_to_edit(0, content);
    assert!(!miss.success);
    assert_eq!(miss.element_range, (0, 0));
    assert!(integration.get_active_element().is_none());
    assert!(!integration.update_active_element_content("z"));
}

#[test]
fn same_mode_keeps_cursor_and_active_element() {
    let mut integration = LiveEditorIntegration::new();
    integration.current_elements = vec![SyntaxElement::new(
        SyntaxElementType::Italic,
        PositionRange::new(0, 3),
        "*a*".to_string(),
        "a".to_string(),
    )];
    integration.set_active_element(0);
    let cursor = CursorPosition::new(0, 1, 1);
    let result = integration.handle_mode_switch(EditorMode::Live, EditorMode::Live, &cursor);
    assert!(!result.needs_rerender);
    assert_eq!(result.preserved_cursor_position, cursor);
    assert_eq!(integration.active_element_index, Some(0));
    let to_raw = integration.handle_mode_switch(EditorMode::Live, EditorMode::Raw, &cursor);
    assert_eq!(to_raw.preserved_cursor_position, CursorPosition::new(0, 0, 0));
    assert_eq!(integration.active_element_index, None);
    assert_eq!(integration.cursor_manager().raw_position(), 0);
    integration.cursor_manager_mut().raw_position = 7;
    assert_eq!(integration.cursor_manager().raw_position(), 7);
}

#[test]
fn mixed_content_cuts_the_text_at_byte_offsets() {
    let mut editor = LiveEditorIntegration::new();
    let cursor = CursorPosition::new(0, 0, 0);
    let result = editor.process_content_with_cursor("é **b** ü", &cursor, &[]);
    assert!(result.rendered_content.starts_with("é "));
    assert!(result.rendered_content.ends_with(" ü"));
    assert!(result.rendered_content.contains("<strong>b</strong>"));
}
