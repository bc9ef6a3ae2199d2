use std::time::{Duration, Instant};

use rune_editor::editor_state::CursorPosition;
use rune_editor::render_trigger::{RenderTriggerDetector, TriggerConfig, TriggerEvent};
use rune_editor::syntax_parser::{PositionRange, SyntaxElement, SyntaxElementType};

fn wait_at_least(ms: u64) {
    let start = Instant::now();
    while start.elapsed() < Duration::from_millis(ms) {}
}

#[test]
fn test_space_key_detection() {
    let mut detector = RenderTriggerDetector::with_defaults();
    let cursor_pos = CursorPosition::new(0, 5, 5);

    assert!(detector.detect_space_key(cursor_pos));
    assert_eq!(detector.get_pending_events().len(), 1);

    if let TriggerEvent::SpaceKey = &detector.get_pending_events()[0] {
        // Expected
    } else {
        panic!("Expected SpaceKey event");
    }
}

#[test]
fn test_cursor_movement_detection() {
    let mut detector = RenderTriggerDetector::with_defaults();

    let pos1 = CursorPosition::new(0, 0, 0);
    let pos2 = CursorPosition::new(0, 5, 5);

    // First position - no trigger
    assert!(!detector.detect_cursor_movement(pos1.clone()));

    // Second position - should trigger
    assert!(detector.detect_cursor_movement(pos2.clone()));
    assert_eq!(detector.get_pending_events().len(), 1);

    if let TriggerEvent::CursorMovement { from, to } = &detector.get_pending_events()[0] {
        assert_eq!(from, &pos1);
        assert_eq!(to, &pos2);
    } else {
        panic!("Expected CursorMovement event");
    }
}

#[test]
fn test_block_completion_detection() {
    let mut detector = RenderTriggerDetector::with_defaults();
    let content = "# Header\n";
    let cursor_pos = CursorPosition::new(0, 8, 8);

    let header_element = SyntaxElement::new(
        SyntaxElementType::Header { level: 1 },
        PositionRange::new(0, 8),
        "# Header".to_string(),
        "Header".to_string(),
    );

    let elements = vec![header_element];

    assert!(detector.detect_block_completion(content, cursor_pos, &elements));
    assert_eq!(detector.get_pending_events().len(), 1);
}

#[test]
fn test_debounce_timing() {
    let config = TriggerConfig {
        debounce_delay_ms: 50, // Short delay for testing
        ..Default::default()
    };

    let mut detector = RenderTriggerDetector::new(config);
    let cursor_pos = CursorPosition::new(0, 0, 0);

    // Add trigger event
    detector.detect_space_key(cursor_pos);

    // Should not trigger immediately
    assert!(!detector.should_trigger_render());

    // Wait for debounce period
    wait_at_least(60);

    // Should trigger now
    assert!(detector.should_trigger_render());

    // Should not trigger again
    assert!(!detector.should_trigger_render());
}

#[test]
fn test_cursor_distance_calculation() {
    let detector = RenderTriggerDetector::with_defaults();

    let pos1 = CursorPosition::new(0, 0, 0);
    let pos2 = CursorPosition::new(0, 5, 5);
    let pos3 = CursorPosition::new(1, 0, 10);

    assert_eq!(detector.calculate_cursor_distance(&pos1, &pos2), 5);
    assert_eq!(detector.calculate_cursor_distance(&pos2, &pos1), 5);
    assert_eq!(detector.calculate_cursor_distance(&pos1, &pos3), 10);
}

#[test]
fn test_config_updates() {
    let mut detector = RenderTriggerDetector::with_defaults();

    let new_config = TriggerConfig {
        trigger_on_space: false,
        debounce_delay_ms: 300,
        ..Default::default()
    };

    detector.update_config(new_config);

    let cursor_pos = CursorPosition::new(0, 0, 0);

    // Should not trigger on space since it's disabled
    assert!(!detector.detect_space_key(cursor_pos));
    assert_eq!(detector.get_pending_events().len(), 0);
}

#[test]
fn test_force_trigger() {
    let mut detector = RenderTriggerDetector::with_defaults();
    let cursor_pos = CursorPosition::new(0, 0, 0);

    // Add some events
    detector.detect_space_key(cursor_pos);
    assert_eq!(detector.get_pending_events().len(), 1);

    // Force trigger should clear events and return true
    assert!(detector.force_trigger());
    assert_eq!(detector.get_pending_events().len(), 0);

    // Force trigger with no events should return false
    assert!(!detector.force_trigger());
}

#[test]
fn default_config_values() {
    let config = TriggerConfig::default();
    assert_eq!(config.debounce_delay_ms, 150);
    assert!(config.trigger_on_space);
    assert!(config.trigger_on_cursor_movement);
    assert!(config.trigger_on_block_completion);
    assert_eq!(config.min_cursor_movement_distance, 1);
}

#[test]
fn debounce_decision_on_given_elapsed_time() {
    let mut detector = RenderTriggerDetector::with_defaults();
    assert!(!detector.trigger_after(Some(1000)));
    detector.detect_content_change("abc", 0, 3);
    assert!(!detector.trigger_after(None));
    assert!(!detector.trigger_after(Some(149)));
    assert_eq!(detector.get_pending_events().len(), 1);
    assert!(detector.trigger_after(Some(150)));
    assert_eq!(detector.get_pending_events().len(), 0);
}

#[test]
fn only_the_first_queued_event_schedules_a_render() {
    let mut detector = RenderTriggerDetector::with_defaults();
    let p = CursorPosition::new(0, 0, 0);
    assert!(detector.detect_space_key(p));
    assert!(!detector.detect_space_key(p));
    assert!(!detector.detect_content_change("x", 0, 1));
    assert_eq!(detector.get_pending_events().len(), 3);
    detector.clear_pending_events();
    assert!(detector.detect_space_key(p));
}

#[test]
fn block_completion_ignores_inline_elements_and_far_cursors() {
    let mut detector = RenderTriggerDetector::with_defaults();
    let bold = SyntaxElement::new(
        SyntaxElementType::Bold,
        PositionRange::new(0, 4),
        "**a**".to_string(),
        "a".to_string(),
    );
    assert!(!detector.detect_block_completion("**a**\n", CursorPosition::new(0, 5, 5), &[bold]));
    let item = SyntaxElement::new(
        SyntaxElementType::UnorderedListItem { level: 0 },
        PositionRange::new(0, 3),
        "- a".to_string(),
        "a".to_string(),
    );
    assert!(!detector.detect_block_completion("- a\nb\nc", CursorPosition::new(2, 0, 6), &[item]));
    let item2 = SyntaxElement::new(
        SyntaxElementType::UnorderedListItem { level: 0 },
        PositionRange::new(0, 3),
        "- a".to_string(),
        "a".to_string(),
    );
    assert!(detector.detect_block_completion("- a\nb", CursorPosition::new(1, 0, 4), &[item2]));
}

#[test]
fn small_moves_are_ignored() {
    let config = TriggerConfig { min_cursor_movement_distance: 3, ..Default::default() };
    let mut detector = RenderTriggerDetector::new(config);
    assert!(!detector.detect_cursor_movement(CursorPosition::new(0, 0, 0)));
    assert!(!detector.detect_cursor_movement(CursorPosition::new(0, 2, 2)));
    assert_eq!(detector.get_pending_events().len(), 0);
    assert!(detector.detect_cursor_movement(CursorPosition::new(0, 3, 3)));
}

#[test]
fn zero_delay_renders_without_waiting() {
    let mut config = TriggerConfig::default();
    config.debounce_delay_ms = 0;
    let mut detector = RenderTriggerDetector::new(config);
    assert!(!detector.should_trigger_render());
    assert!(detector.detect_space_key(CursorPosition::new(0, 0, 0)));
    assert!(detector.should_trigger_render());
    assert!(detector.get_pending_events().is_empty());
    assert!(!detector.should_trigger_render());
}
