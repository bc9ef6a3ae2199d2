use std::time::SystemTime;

use rune_editor::editor_state::{content_stats, CursorPosition, EditorMode, EditorState};
use uuid::Uuid;

#[test]
fn test_cursor_position_validation() {
    let content = "line 1\nline 2\nline 3";

    // Valid positions
    assert!(CursorPosition::new(0, 0, 0).is_valid_for_content(content));
    assert!(CursorPosition::new(1, 6, 13).is_valid_for_content(content));
    assert!(CursorPosition::new(2, 6, 20).is_valid_for_content(content));

    // Invalid positions
    assert!(!CursorPosition::new(3, 0, 0).is_valid_for_content(content)); // Line out of bounds
    assert!(!CursorPosition::new(0, 10, 0).is_valid_for_content(content)); // Column out of bounds
    assert!(!CursorPosition::new(0, 0, 100).is_valid_for_content(content)); // Absolute out of bounds
}

#[test]
fn test_absolute_position_calculation() {
    let content = "line 1\nline 2\nline 3";

    assert_eq!(CursorPosition::calculate_absolute(content, 0, 0), Some(0));
    assert_eq!(CursorPosition::calculate_absolute(content, 0, 6), Some(6));
    assert_eq!(CursorPosition::calculate_absolute(content, 1, 0), Some(7));
    assert_eq!(CursorPosition::calculate_absolute(content, 1, 6), Some(13));
    assert_eq!(CursorPosition::calculate_absolute(content, 2, 0), Some(14));
    assert_eq!(CursorPosition::calculate_absolute(content, 2, 6), Some(20));
}

#[test]
fn test_line_column_calculation() {
    let content = "line 1\nline 2\nline 3";

    assert_eq!(CursorPosition::calculate_line_column(content, 0), Some((0, 0)));
    assert_eq!(CursorPosition::calculate_line_column(content, 6), Some((0, 6)));
    assert_eq!(CursorPosition::calculate_line_column(content, 7), Some((1, 0)));
    assert_eq!(CursorPosition::calculate_line_column(content, 13), Some((1, 6)));
    assert_eq!(CursorPosition::calculate_line_column(content, 14), Some((2, 0)));
    assert_eq!(CursorPosition::calculate_line_column(content, 20), Some((2, 6)));
}

#[test]
fn line_column_and_absolute_round_trip() {
    let content = "ab\r\ncd\n\nxyz";
    for (line, column) in [(0, 0), (0, 2), (1, 1), (2, 0), (3, 3)] {
        let absolute = CursorPosition::calculate_absolute(content, line, column).unwrap();
        assert_eq!(CursorPosition::calculate_line_column(content, absolute), Some((line, column)));
    }
    assert_eq!(CursorPosition::calculate_absolute(content, 4, 0), None);
    assert_eq!(CursorPosition::calculate_line_column(content, 100), None);
}

#[test]
fn update_keeps_position_when_out_of_range() {
    let mut p = CursorPosition::new(1, 1, 0);
    p.update_absolute("a\nbc");
    assert_eq!(p, CursorPosition::new(1, 1, 3));
    p.update_absolute("x");
    assert_eq!(p, CursorPosition::new(1, 1, 3));
    let mut q = CursorPosition::new(9, 9, 2);
    q.update_line_column("a\nbc");
    assert_eq!(q, CursorPosition::new(1, 0, 2));
    assert_eq!(CursorPosition::start(), CursorPosition::new(0, 0, 0));
    assert_eq!(CursorPosition::default(), CursorPosition::start());
}

#[test]
fn content_statistics_and_modes() {
    let stats = content_stats("one two\n  three\n");
    assert_eq!(stats.lines, 2);
    assert_eq!(stats.characters, 16);
    assert_eq!(stats.words, 3);
    assert_eq!(EditorMode::default(), EditorMode::Raw);
    assert_eq!(EditorMode::Live.as_str(), "live");
}

#[test]
fn test_editor_state_dirty_tracking() {
    let session_id = Uuid::new_v4();
    let original_content = "original content".to_string();
    let mut state = EditorState::new(session_id, original_content.clone());

    // Initially not dirty
    assert!(!state.is_dirty);

    // Update with same content - should not be dirty
    state.update_content(original_content.clone());
    assert!(!state.is_dirty);

    // Update with different content - should be dirty
    state.update_content("modified content".to_string());
    assert!(state.is_dirty);

    // Mark as saved - should not be dirty
    state.mark_saved();
    assert!(!state.is_dirty);
}

#[test]
fn test_auto_save_timing() {
    let session_id = Uuid::new_v4();
    let mut state = EditorState::new(session_id, "content".to_string());

    // Initially should not auto-save (not dirty)
    assert!(!state.should_auto_save());

    // Make dirty but no timer set
    state.update_content("new content".to_string());
    assert!(state.is_dirty);

    // Should not auto-save immediately
    assert!(!state.should_auto_save());

    // Simulate timer expiry by setting timer to past time
    state.auto_save_timer = Some(SystemTime::now() - std::time::Duration::from_secs(3));
    assert!(state.should_auto_save());
}

#[test]
fn cursor_updates_are_validated_with_a_message() {
    let mut state = EditorState::new(Uuid::new_v4(), "ab\ncd".to_string());
    assert_eq!(state.update_cursor_position(CursorPosition::new(1, 2, 5)), Ok(()));
    assert_eq!(state.cursor_position, CursorPosition::new(1, 2, 5));
    assert_eq!(
        state.update_cursor_position(CursorPosition::new(2, 0, 0)),
        Err("Invalid cursor position: line 2, column 0 for content length 5".to_string())
    );
    state.update_content("xy\nz".to_string());
    assert_eq!(state.cursor_position, CursorPosition::new(1, 2, 5));
    state.update_content("x\nzzz".to_string());
    assert_eq!(state.cursor_position, CursorPosition::new(1, 2, 4));
}

#[test]
fn auto_save_decision_and_switches() {
    let mut state = EditorState::new(Uuid::new_v4(), "a".to_string());
    assert!(!state.auto_save_due(Some(10)));
    state.update_content("b".to_string());
    assert!(!state.auto_save_due(Some(1)));
    assert!(state.auto_save_due(Some(2)));
    assert!(!state.auto_save_due(None));
    state.set_auto_save(false);
    assert!(state.auto_save_timer.is_none());
    assert!(!state.auto_save_due(Some(5)));
    state.set_auto_save(true);
    assert!(state.auto_save_timer.is_some());
    state.switch_mode(EditorMode::Preview);
    assert_eq!(state.current_mode, EditorMode::Preview);
    assert_eq!(state.get_content_stats().characters, 1);
    assert_eq!(
        EditorState::calculate_content_hash("b"),
        EditorState::calculate_content_hash("b")
    );
    assert!(state.time_since_last_save().is_some());
}

#[test]
fn positions_count_utf8_bytes() {
    // "é" is two bytes: position 2 is its end.
    assert_eq!(CursorPosition::calculate_line_column("é", 2), Some((0, 2)));
    assert_eq!(CursorPosition::calculate_line_column("é", 3), None);
    assert_eq!(CursorPosition::calculate_line_column("é\nab", 4), Some((1, 1)));
    assert_eq!(CursorPosition::calculate_absolute("é\nab", 1, 1), Some(4));
    assert_eq!(CursorPosition::calculate_absolute("é\nab", 0, 2), Some(2));
    assert_eq!(CursorPosition::calculate_absolute("é\nab", 0, 3), None);
    assert!(CursorPosition::new(0, 2, 2).is_valid_for_content("é"));
    assert!(!CursorPosition::new(0, 2, 3).is_valid_for_content("é"));
}
