use std::path::PathBuf;
use std::time::SystemTime;

use rune_editor::editor_state::{CursorPosition, EditorMode};
use rune_editor::file_sync::ConflictResolutionStrategy;
use rune_editor::session::{
    idle_session_closes, render_after, session_stats, AutoSaveConfig, EditorError, EditorEvent, EditorSession,
    SessionManager,
};
use uuid::Uuid;

fn session(content: &str) -> EditorSession {
    EditorSession::with_content(Uuid::new_v4(), "test.md".to_string(), content.to_string())
}

#[test]
fn test_session_creation() {
    let file_path = "notes/test.md".to_string();
    let session = EditorSession::with_content(Uuid::new_v4(), file_path.clone(), String::new());
    assert_eq!(session.file_path, file_path);
    assert!(session.is_active);
    assert!(!session.state.is_dirty);
}

#[test]
fn test_session_manager_basic_operations() {
    let mut manager = SessionManager::new();
    let file_path = "test.md".to_string();

    // Create session
    let session_id = manager.create_session(Uuid::new_v4(), file_path, String::new());
    assert!(manager.get_active_sessions().contains(&session_id));

    // Update content
    manager.set_content(session_id, "Hello, world!".to_string()).unwrap();
    let content = manager.get_content(session_id).unwrap();
    assert_eq!(content, "Hello, world!");

    // Check dirty state
    assert!(manager.has_unsaved_changes(session_id).unwrap());

    // Save content (the write itself is the caller's)
    manager.mark_saved(session_id).unwrap();
    assert!(!manager.has_unsaved_changes(session_id).unwrap());

    // Close session
    let closed = manager.close_session(session_id).unwrap();
    assert_eq!(closed.id, session_id);
    assert!(!manager.get_active_sessions().contains(&session_id));
    assert!(matches!(
        manager.get_content(session_id),
        Err(EditorError::SessionNotFound(id)) if id == session_id
    ));
}

#[test]
fn test_cursor_position_updates() {
    let mut manager = SessionManager::new();
    let session_id = manager.create_session(Uuid::new_v4(), "test.md".to_string(), String::new());
    manager.set_content(session_id, "line 1\nline 2\nline 3".to_string()).unwrap();

    // Update cursor position
    let position = CursorPosition::new(1, 3, 10);
    manager.update_cursor_position(session_id, position).unwrap();

    let state = &manager.get_session_info(session_id).unwrap().state;
    assert_eq!(state.cursor_position.line, 1);
    assert_eq!(state.cursor_position.column, 3);
}

#[test]
fn session_test_mode_switching() {
    let mut manager = SessionManager::new();
    let session_id = manager.create_session(Uuid::new_v4(), "test.md".to_string(), String::new());

    // Switch to live mode
    manager.switch_mode(session_id, EditorMode::Live).unwrap();
    let state = &manager.get_session_info(session_id).unwrap().state;
    assert_eq!(state.current_mode, EditorMode::Live);

    // Switch to preview mode
    manager.switch_mode(session_id, EditorMode::Preview).unwrap();
    let state = &manager.get_session_info(session_id).unwrap().state;
    assert_eq!(state.current_mode, EditorMode::Preview);
}

#[test]
fn test_auto_save_status() {
    let mut manager = SessionManager::new();
    let session_id = manager.create_session(Uuid::new_v4(), "test.md".to_string(), String::new());

    // Initially should not be dirty
    let status = manager.get_auto_save_status(session_id).unwrap();
    assert!(status.enabled);
    assert!(!status.is_dirty);
    assert!(!status.pending_save);

    // Update content to make it dirty
    manager.set_content(session_id, "New content".to_string()).unwrap();
    let status = manager.get_auto_save_status(session_id).unwrap();
    assert!(status.enabled);
    assert!(status.is_dirty);

    // Save content
    manager.mark_saved(session_id).unwrap();
    let status = manager.get_auto_save_status(session_id).unwrap();
    assert!(status.enabled);
    assert!(!status.is_dirty);
    assert!(!status.pending_save);
}

#[test]
fn manager_operations_on_unknown_sessions_fail() {
    let mut manager = SessionManager::new();
    let id = Uuid::new_v4();
    assert!(matches!(manager.set_content(id, "x".to_string()), Err(EditorError::SessionNotFound(x)) if x == id));
    assert!(matches!(manager.switch_mode(id, EditorMode::Live), Err(EditorError::SessionNotFound(_))));
    assert!(matches!(manager.has_unsaved_changes(id), Err(EditorError::SessionNotFound(_))));
    assert!(matches!(manager.close_session(id), Err(EditorError::SessionNotFound(_))));
    assert!(manager.get_session_info(id).is_none());
}

#[test]
fn manager_lists_sessions_to_save_and_render() {
    let mut manager = SessionManager::new();
    let a = manager.create_session(Uuid::new_v4(), "a.md".to_string(), "a".to_string());
    let b = manager.create_session(Uuid::new_v4(), "b.md".to_string(), "b".to_string());
    assert_eq!(manager.get_active_sessions(), vec![a, b]);
    manager.set_content(a, "changed".to_string()).unwrap();
    // The clock decides when a save is due; only dirty sessions ever are.
    for id in manager.sessions_to_auto_save() {
        assert_eq!(id, a);
    }
    // Nothing is pending yet, so nothing renders.
    assert!(manager.check_render_triggers().is_empty());
    assert!(manager.handle_space_key(b, CursorPosition::new(0, 1, 1)).unwrap());
    assert_eq!(manager.get_pending_trigger_events(b).unwrap().len(), 1);
    assert!(manager.force_render_trigger(b).unwrap());
    assert_eq!(manager.get_pending_trigger_events(b).unwrap().len(), 0);
    let st = manager.get_session_stats();
    assert_eq!(st.total_sessions, 2);
    assert_eq!(st.dirty_sessions, 1);
}

#[test]
fn auto_save_config_default() {
    let c = AutoSaveConfig::default();
    assert!(c.enabled);
    assert_eq!(c.delay_seconds, 2);
    assert_eq!(c.max_attempts, 3);
}

#[test]
fn invalid_cursor_is_an_error_and_changes_nothing() {
    let mut s = session("ab");
    let before = s.state.cursor_position;
    match s.set_cursor_position(CursorPosition::new(5, 0, 40)) {
        Err(EditorError::InvalidCursorPosition { line, column }) => {
            assert_eq!(line, 5);
            assert_eq!(column, 0);
        }
        _ => panic!("expected an invalid cursor error"),
    }
    assert_eq!(s.state.cursor_position, before);
}

#[test]
fn wants_auto_save_only_when_dirty_and_enabled() {
    let mut s = session("x");
    assert!(!s.wants_auto_save());
    s.set_content("y".to_string());
    assert!(s.wants_auto_save());
    s.set_auto_save(false);
    assert!(!s.wants_auto_save());
    assert!(!s.state.auto_save_enabled);
}

#[test]
fn external_change_follows_the_strategy() {
    let mut s = session("Local content");
    let outcome = s.apply_external_change("External content");
    assert_eq!(s.conflict_strategy, ConflictResolutionStrategy::PreferLocal);
    assert!(outcome.resolution.success);
    assert_eq!(outcome.resolution.content, "Local content");
    assert!(outcome.applied.is_some());
    assert_eq!(s.state.content, "Local content");

    s.conflict_strategy = ConflictResolutionStrategy::PreferExternal;
    let outcome = s.apply_external_change("External content");
    assert!(outcome.resolution.success);
    assert_eq!(s.state.content, "External content");
}

#[test]
fn idle_sessions_close_only_when_clean() {
    let minute: u128 = 60 * 1_000_000_000;
    assert!(idle_session_closes(Some(31 * minute), 30, false));
    assert!(!idle_session_closes(Some(30 * minute), 30, false));
    assert!(!idle_session_closes(Some(31 * minute), 30, true));
    assert!(!idle_session_closes(None, 30, false));
}

#[test]
fn stats_count_sessions() {
    let mut a = session("a");
    a.set_content("changed".to_string());
    let mut b = session("b");
    b.is_active = false;
    b.set_auto_save(false);
    let st = session_stats(&[a, b]);
    assert_eq!(st.total_sessions, 2);
    assert_eq!(st.active_sessions, 1);
    assert_eq!(st.dirty_sessions, 1);
    assert_eq!(st.auto_save_enabled, 1);
}

#[test]
fn editor_events_name_their_type_and_session() {
    let id = Uuid::new_v4();
    let events = vec![
        (EditorEvent::ContentChanged { session_id: id, content: String::new(), cursor_position: CursorPosition::new(0, 0, 0) }, "content_changed"),
        (EditorEvent::ModeChanged { session_id: id, mode: EditorMode::Live }, "mode_changed"),
        (EditorEvent::SaveRequested { session_id: id }, "save_requested"),
        (EditorEvent::SaveCompleted { session_id: id, success: true, timestamp: SystemTime::now() }, "save_completed"),
        (EditorEvent::CursorMoved { session_id: id, position: CursorPosition::new(0, 0, 0) }, "cursor_moved"),
        (EditorEvent::AutoSaveTriggered { session_id: id }, "auto_save_triggered"),
        (EditorEvent::SessionCreated { session_id: id, file_path: PathBuf::from("a.md") }, "session_created"),
        (EditorEvent::SessionClosed { session_id: id }, "session_closed"),
    ];
    for (e, name) in events {
        assert_eq!(e.event_type(), name);
        assert_eq!(e.session_id(), id);
    }
}

#[test]
fn manager_mode_switch_and_element_update() {
    let mut manager = SessionManager::new();
    let id = manager.create_session(Uuid::new_v4(), "a.md".to_string(), "# Title".to_string());
    let r = manager.handle_mode_switch(id, EditorMode::Raw, EditorMode::Live).unwrap();
    assert!(r.needs_rerender);
    assert_eq!(manager.get_session_info(id).unwrap().state.current_mode, EditorMode::Live);
    let same = manager.handle_mode_switch(id, EditorMode::Live, EditorMode::Live).unwrap();
    assert!(!same.needs_rerender);

    // No element is active yet.
    assert!(matches!(manager.update_active_element_content(id, "# New".to_string()), Ok(false)));

    let missing = Uuid::new_v4();
    assert!(matches!(
        manager.handle_mode_switch(missing, EditorMode::Raw, EditorMode::Live),
        Err(EditorError::SessionNotFound(x)) if x == missing
    ));
    assert!(matches!(
        manager.update_active_element_content(missing, String::new()),
        Err(EditorError::SessionNotFound(x)) if x == missing
    ));
}

#[test]
fn sessions_editing_a_file_and_render_after_change() {
    let mut manager = SessionManager::new();
    let a = manager.create_session(Uuid::new_v4(), "docs/a.md".to_string(), "a".to_string());
    let _b = manager.create_session(Uuid::new_v4(), "docs/b.md".to_string(), "b".to_string());
    let c = manager.create_session(Uuid::new_v4(), "docs//a.md".to_string(), "c".to_string());
    assert_eq!(manager.sessions_editing("docs/a.md"), vec![a, c]);
    assert!(manager.sessions_editing("docs/z.md").is_empty());
    assert_eq!(manager.get_session_info(a).unwrap().file_path, "docs/a.md");

    let outcome = manager.handle_external_change(a, "external").unwrap();
    assert!(render_after(&outcome));
}
