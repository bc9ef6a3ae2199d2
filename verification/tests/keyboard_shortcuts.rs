use rune_editor::editor_state::CursorPosition;
use rune_editor::keyboard_shortcuts::{KeyboardShortcutHandler, ShortcutAction, TextSelection};

#[test]
fn test_text_selection_creation() {
    let selection = TextSelection::new(5, 10);
    assert_eq!(selection.start, 5);
    assert_eq!(selection.end, 10);
    assert!(!selection.is_empty());
    assert_eq!(selection.len(), 5);
}

#[test]
fn test_text_selection_reversed() {
    let selection = TextSelection::new(10, 5);
    assert_eq!(selection.start, 5);
    assert_eq!(selection.end, 10);
}

#[test]
fn test_text_selection_extract() {
    let content = "Hello, world!";
    let selection = TextSelection::new(0, 5);
    assert_eq!(selection.extract_text(content), "Hello");
}

#[test]
fn test_bold_with_selection() {
    let handler = KeyboardShortcutHandler::new();
    let content = "Hello world";
    let selection = TextSelection::new(0, 5); // Select "Hello"
    let cursor = CursorPosition::new(0, 0, 0);

    let result = handler.apply_bold(content, selection, cursor);

    assert!(result.success);
    assert_eq!(result.content, "**Hello** world");
}

#[test]
fn test_bold_without_selection() {
    let handler = KeyboardShortcutHandler::new();
    let content = "Hello world";
    let selection = TextSelection::new(6, 6); // Cursor at position 6
    let cursor = CursorPosition::new(0, 6, 6);

    let result = handler.apply_bold(content, selection, cursor);

    assert!(result.success);
    assert_eq!(result.content, "Hello ****world");
    assert_eq!(result.cursor_position.absolute, 8); // Between **|**
}

#[test]
fn test_italic_with_selection() {
    let handler = KeyboardShortcutHandler::new();
    let content = "Hello world";
    let selection = TextSelection::new(6, 11); // Select "world"
    let cursor = CursorPosition::new(0, 6, 6);

    let result = handler.apply_italic(content, selection, cursor);

    assert!(result.success);
    assert_eq!(result.content, "Hello *world*");
}

#[test]
fn test_italic_without_selection() {
    let handler = KeyboardShortcutHandler::new();
    let content = "Hello world";
    let selection = TextSelection::new(6, 6);
    let cursor = CursorPosition::new(0, 6, 6);

    let result = handler.apply_italic(content, selection, cursor);

    assert!(result.success);
    assert_eq!(result.content, "Hello **world");
    assert_eq!(result.cursor_position.absolute, 7); // Between *|*
}

#[test]
fn test_indent_list_item() {
    let handler = KeyboardShortcutHandler::new();
    let content = "- Item 1\n- Item 2\n- Item 3";
    let cursor = CursorPosition::new(1, 2, 11); // On "Item 2"

    let result = handler.apply_indent_list(content, cursor);

    assert!(result.success);
    assert!(result.content.contains("  - Item 2"));
}

#[test]
fn test_indent_non_list_line() {
    let handler = KeyboardShortcutHandler::new();
    let content = "Regular text\nMore text";
    let cursor = CursorPosition::new(0, 5, 5);

    let result = handler.apply_indent_list(content, cursor);

    assert!(!result.success);
    assert_eq!(result.content, content);
}

#[test]
fn test_unindent_list_item() {
    let handler = KeyboardShortcutHandler::new();
    let content = "- Item 1\n  - Item 2\n- Item 3";
    let cursor = CursorPosition::new(1, 4, 13); // On indented "Item 2"

    let result = handler.apply_unindent_list(content, cursor);

    assert!(result.success);
    assert!(result.content.contains("- Item 2"));
}

#[test]
fn test_unindent_no_indentation() {
    let handler = KeyboardShortcutHandler::new();
    let content = "- Item 1\n- Item 2";
    let cursor = CursorPosition::new(0, 2, 2);

    let result = handler.apply_unindent_list(content, cursor);

    assert!(!result.success);
}

#[test]
fn test_is_list_line() {
    let handler = KeyboardShortcutHandler::new();

    assert!(handler.is_list_line("- Item"));
    assert!(handler.is_list_line("* Item"));
    assert!(handler.is_list_line("+ Item"));
    assert!(handler.is_list_line("1. Item"));
    assert!(handler.is_list_line("  - Indented item"));
    assert!(!handler.is_list_line("Regular text"));
    assert!(!handler.is_list_line("Not a list"));
}

#[test]
fn test_shortcut_action_bold() {
    let handler = KeyboardShortcutHandler::new();
    let content = "test";
    let selection = TextSelection::new(0, 4);
    let cursor = CursorPosition::new(0, 0, 0);

    let result = handler.apply_shortcut(ShortcutAction::Bold, content, selection, cursor);

    assert!(result.success);
    assert_eq!(result.content, "**test**");
}

#[test]
fn test_shortcut_action_italic() {
    let handler = KeyboardShortcutHandler::new();
    let content = "test";
    let selection = TextSelection::new(0, 4);
    let cursor = CursorPosition::new(0, 0, 0);

    let result = handler.apply_shortcut(ShortcutAction::Italic, content, selection, cursor);

    assert!(result.success);
    assert_eq!(result.content, "*test*");
}

#[test]
fn shortcut_messages_and_cursor_after_markers() {
    let handler = KeyboardShortcutHandler::new();
    let result = handler.apply_bold("ab\ncd", TextSelection::new(3, 5), CursorPosition::new(0, 0, 0));
    assert_eq!(result.content, "ab\n**cd**");
    assert_eq!(result.cursor_position, CursorPosition::new(1, 6, 9));
    assert_eq!(result.message, Some("Applied bold formatting".to_string()));
    let inserted = handler.apply_italic("x", TextSelection::new(1, 1), CursorPosition::new(0, 1, 1));
    assert_eq!(inserted.message, Some("Inserted italic markers".to_string()));
}

#[test]
fn indent_then_unindent_restores_the_line() {
    let handler = KeyboardShortcutHandler::new();
    let content = "- a\n- b";
    let cursor = CursorPosition::new(1, 2, 6);
    let indented = handler.apply_shortcut(ShortcutAction::IndentList, content, TextSelection::new(0, 0), cursor);
    assert_eq!(indented.content, "- a\n  - b");
    assert_eq!(indented.cursor_position, CursorPosition::new(1, 4, 8));
    let back = handler.apply_shortcut(
        ShortcutAction::UnindentList,
        &indented.content,
        TextSelection::new(0, 0),
        indented.cursor_position,
    );
    assert_eq!(back.content, content);
    assert_eq!(back.cursor_position, cursor);
    assert_eq!(back.message, Some("Unindented list item".to_string()));
}

#[test]
fn unindent_removes_one_tab_and_reports_bad_lines() {
    let handler = KeyboardShortcutHandler::new();
    let result = handler.apply_unindent_list("\t\t- x", CursorPosition::new(0, 0, 0));
    assert_eq!(result.content, "\t- x");
    assert_eq!(result.cursor_position.absolute, 0);
    let invalid = handler.apply_indent_list("- x", CursorPosition::new(3, 0, 0));
    assert!(!invalid.success);
    assert_eq!(invalid.message, Some("Invalid cursor position".to_string()));
    let not_list = handler.apply_indent_list("x", CursorPosition::new(0, 0, 0));
    assert_eq!(not_list.message, Some("Not a list item".to_string()));
}

#[test]
fn wrapping_counts_utf8_bytes() {
    let handler = KeyboardShortcutHandler::new();
    let content = "héllo world";
    // "héllo" spans bytes 0..6.
    let selection = TextSelection::new(0, 6);
    assert_eq!(selection.extract_text(content), "héllo");
    let result = handler.apply_bold(content, selection, CursorPosition::new(0, 0, 0));
    assert_eq!(result.content, "**héllo** world");
    assert_eq!(result.cursor_position.absolute, 10);
    assert_eq!(result.cursor_position.column, 10);
    let inserted = handler.apply_italic("é", TextSelection::new(2, 2), CursorPosition::new(0, 2, 2));
    assert_eq!(inserted.content, "é**");
    assert_eq!(inserted.cursor_position.absolute, 3);
}
