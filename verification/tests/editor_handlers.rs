
use rune_editor::editor_handlers::{
    editor_page, EditorAction, EditorReply, EditorWebSocketHandler, RawEditorHandler,
};
use rune_editor::server::{CursorPosition, EditorMessage};

fn cursor(line: usize, column: usize) -> CursorPosition {
    CursorPosition { line, column, selection_start: None, selection_end: None }
}

#[test]
fn editor_page_escapes_content() {
    let page = editor_page("notes.md", "a<b & c>\"", "s1");
    assert!(page.starts_with("<!DOCTYPE html>"));
    assert!(page.contains("Raw Text Editor - notes.md</div>"));
    assert!(page.contains(">a&lt;b &amp; c&gt;\"</textarea>"));
    assert!(page.contains("const sessionId = 's1';"));
    assert!(page.trim_end().ends_with("</html>"));
}

#[test]
fn raw_editor_handler_page_and_session() {
    let h = RawEditorHandler::new("/edit".to_string(), "docs/guide.md".to_string());
    assert_eq!(h.path_pattern(), "/edit");
    assert_eq!(h.priority(), 5);
    let page = h.generate_editor_html("# Guide", "abc");
    assert!(page.contains("Raw Text Editor - guide.md</div>"));
    let s = h.open_session("abc".to_string(), "# Guide".to_string());
    assert_eq!(s.session_id, "abc");
    assert_eq!(s.content, "# Guide");
    assert!(!s.is_dirty);
    assert_eq!(s.file_path, "docs/guide.md".to_string());
}

#[test]
fn content_update_needs_a_file() {
    let mut h = EditorWebSocketHandler::new("/ws/editor".to_string());
    let r = h.handle_content_update("s1", "text".to_string(), cursor(0, 0));
    assert_eq!(r, Err("No markdown file set for editor".to_string()));
    assert_eq!(h.session_count(), 0);
    let action = h.on_message(EditorMessage::ContentUpdate {
        session_id: "s1".to_string(),
        content: "x".to_string(),
        cursor_position: cursor(0, 1),
    });
    assert!(matches!(action, EditorAction::Fail(ref e) if e == "No markdown file set for editor"));
}

#[test]
fn content_update_opens_then_updates_a_session() {
    let mut h = EditorWebSocketHandler::new("/ws/editor".to_string());
    h.set_markdown_file("doc.md".to_string());
    let action = h.on_message(EditorMessage::ContentUpdate {
        session_id: "s1".to_string(),
        content: "first".to_string(),
        cursor_position: cursor(0, 5),
    });
    match action {
        EditorAction::Broadcast { session_id, message } => {
            assert_eq!(session_id, "s1");
            assert!(matches!(message, EditorMessage::ContentUpdate { ref content, .. } if content == "first"));
        }
        _ => panic!("expected a broadcast"),
    }
    let s = h.get_session("s1").unwrap();
    assert_eq!(s.content, "first");
    assert!(s.is_dirty);
    assert_eq!(s.file_path, "doc.md".to_string());

    h.handle_content_update("s1", "second".to_string(), cursor(1, 2)).unwrap();
    assert_eq!(h.session_count(), 1);
    let s = h.get_session("s1").unwrap();
    assert_eq!(s.content, "second");
    assert_eq!(s.cursor_position.line, 1);
    assert_eq!(s.cursor_position.column, 2);
}

#[test]
fn save_request_writes_then_completes() {
    let mut h = EditorWebSocketHandler::new("/ws/editor".to_string());
    h.set_markdown_file("doc.md".to_string());
    h.handle_content_update("s1", "body".to_string(), cursor(0, 0)).unwrap();
    let action = h.on_message(EditorMessage::SaveRequest { session_id: "s1".to_string() });
    match action {
        EditorAction::Write { session_id, file, content } => {
            assert_eq!(session_id, "s1");
            assert_eq!(file, "doc.md");
            assert_eq!(content, "body");
        }
        _ => panic!("expected a write"),
    }
    let done = h.save_finished("s1", Ok(()), "1700000000".to_string());
    match done {
        EditorAction::Broadcast { session_id, message } => {
            assert_eq!(session_id, "s1");
            match message {
                EditorMessage::SaveComplete { session_id, success, timestamp } => {
                    assert_eq!(session_id, "s1");
                    assert!(success);
                    assert_eq!(timestamp, "1700000000");
                }
                _ => panic!("expected save_complete"),
            }
        }
        _ => panic!("expected a broadcast"),
    }
    assert!(!h.get_session("s1").unwrap().is_dirty);
}

#[test]
fn failed_write_fails_the_save() {
    let mut h = EditorWebSocketHandler::new("/ws/editor".to_string());
    h.set_markdown_file("doc.md".to_string());
    h.handle_content_update("s1", "body".to_string(), cursor(0, 0)).unwrap();
    let r = h.save_finished("s1", Err("disk full".to_string()), "0".to_string());
    assert!(matches!(r, EditorAction::Fail(ref e) if e == "Failed to save file: disk full"));
    assert!(h.get_session("s1").unwrap().is_dirty);
}

#[test]
fn save_of_unknown_session_lists_sessions() {
    let mut h = EditorWebSocketHandler::new("/ws/editor".to_string());
    assert!(matches!(
        h.save_target("s1"),
        Err(ref e) if e == "No markdown file set for editor"
    ));
    h.set_markdown_file("doc.md".to_string());
    h.handle_content_update("a", "1".to_string(), cursor(0, 0)).unwrap();
    h.handle_content_update("b", "2".to_string(), cursor(0, 0)).unwrap();
    let r = h.on_message(EditorMessage::SaveRequest { session_id: "nope".to_string() });
    assert!(matches!(
        r,
        EditorAction::Fail(ref e) if e == "Session not found: nope. Available sessions: [\"a\", \"b\"]"
    ));
}

#[test]
fn render_markdown_is_broadcast() {
    let mut h = EditorWebSocketHandler::new("/ws/editor".to_string());
    let r = h.on_message(EditorMessage::RenderMarkdown {
        session_id: "s1".to_string(),
        content: "# Hi\n\n| a |\n|---|\n| 1 |\n".to_string(),
    });
    match r {
        EditorAction::Broadcast { session_id, message } => {
            assert_eq!(session_id, "s1");
            match message {
                EditorMessage::MarkdownRendered { session_id, html } => {
                    assert_eq!(session_id, "s1");
                    assert!(html.starts_with("<h1>Hi</h1>"));
                    assert!(html.contains("<table>"));
                }
                _ => panic!("expected markdown_rendered"),
            }
        }
        _ => panic!("expected a broadcast"),
    }
}

#[test]
fn replies_and_ignored_messages() {
    let mut h = EditorWebSocketHandler::new("/ws/editor".to_string());
    let r = h.on_message(EditorMessage::ClickToEdit { session_id: "s".to_string(), click_position: 4 });
    assert!(matches!(r, EditorAction::Reply(EditorReply::ClickToEditResult { ref session_id }) if session_id == "s"));

    let r = h.on_message(EditorMessage::TriggerRender {
        session_id: "s".to_string(),
        trigger_events: vec!["space".to_string()],
    });
    assert!(matches!(
        r,
        EditorAction::Reply(EditorReply::LiveContentUpdate { ref session_id, ref rendered_content })
            if session_id == "s" && rendered_content == "<p>Live rendered content would go here</p>"
    ));

    let r = h.on_message(EditorMessage::UpdateElement {
        session_id: "s".to_string(),
        element_content: "**b**".to_string(),
    });
    assert!(matches!(
        r,
        EditorAction::BroadcastAndReply { ref session_id, reply: EditorReply::ElementUpdateResult { .. }, .. }
            if session_id == "s"
    ));

    let r = h.on_message(EditorMessage::ModeSwitch { session_id: "s".to_string(), mode: "live".to_string() });
    assert!(matches!(r, EditorAction::Broadcast { ref session_id, message: EditorMessage::ModeSwitch { .. } } if session_id == "s"));

    let r = h.on_message(EditorMessage::MarkdownRendered { session_id: "s".to_string(), html: String::new() });
    assert!(matches!(r, EditorAction::Nothing));
    let r = h.on_message(EditorMessage::SaveComplete {
        session_id: "s".to_string(),
        success: true,
        timestamp: "0".to_string(),
    });
    assert!(matches!(r, EditorAction::Nothing));
    assert_eq!(h.session_count(), 0);
    assert_eq!(h.path(), "/ws/editor");
    assert_eq!(h.priority(), 5);
}
