use rune_editor::cursor_manager::{CursorManager, ElementMapping};
use rune_editor::inline_renderer::RenderedElement;
use rune_editor::syntax_parser::{PositionRange, SyntaxElement, SyntaxElementType};

#[test]
fn test_cursor_manager_creation() {
    let manager = CursorManager::new();
    assert_eq!(manager.raw_position(), 0);
    assert_eq!(manager.rendered_position(), None);
}

#[test]
fn test_cursor_manager_with_position() {
    let manager = CursorManager::with_position(10);
    assert_eq!(manager.raw_position(), 10);
    assert_eq!(manager.rendered_position(), None);
}

#[test]
fn test_basic_position_mapping() {
    let mut manager = CursorManager::new();
    manager.raw_content_length = 100;
    manager.rendered_content_length = 120;

    // Proportional mapping when no specific mappings exist
    let rendered_pos = manager.map_raw_to_rendered(50);
    assert_eq!(rendered_pos, Some(60)); // 50/100 * 120 = 60

    let raw_pos = manager.map_rendered_to_raw(60);
    assert_eq!(raw_pos, 50); // 60/120 * 100 = 50
}

#[test]
fn test_element_mapping_updates() {
    let mut manager = CursorManager::new();

    let syntax_elements = vec![SyntaxElement::new(
        SyntaxElementType::Bold,
        PositionRange::new(0, 8),
        "**bold**".to_string(),
        "bold".to_string(),
    )];

    let rendered_elements = vec![RenderedElement::new(
        "<strong>bold</strong>".to_string(),
        vec!["bold".to_string()],
        "**bold**".to_string(),
        (0, 21),
    )];

    manager.update_element_mappings(
        &syntax_elements,
        &rendered_elements,
        "**bold**",
        "<strong>bold</strong>",
    );

    assert_eq!(manager.element_mappings.len(), 1);
    assert_eq!(manager.position_mappings.len(), 2); // Start and end positions
    assert_eq!(manager.raw_content_length, 8);
    assert_eq!(manager.rendered_content_length, 21);
}

#[test]
fn test_content_change_handling() {
    let mut manager = CursorManager::new();
    manager.raw_content_length = 20;
    manager.raw_position = 15;

    let change_range = PositionRange::new(5, 10);
    manager.handle_content_change(&change_range, "old", "new content");

    // 15 + (11 - 5) = 21
    assert_eq!(manager.raw_position, 21);
    assert_eq!(manager.raw_content_length, 26); // 20 + (11 - 5) = 26
}

#[test]
fn test_element_at_cursor() {
    let mut manager = CursorManager::new();

    let element_mapping = ElementMapping {
        raw_range: PositionRange::new(5, 15),
        rendered_range: PositionRange::new(10, 25),
        element_type: "Bold".to_string(),
        is_active: true,
    };

    manager
        .element_mappings
        .push(("test_element".to_string(), element_mapping));
    manager.raw_position = 10;

    let element = manager.get_element_at_cursor();
    assert!(element.is_some());
    assert!(element.unwrap().is_active);
    assert!(manager.is_cursor_in_active_element());
}

#[test]
fn test_mapping_stats() {
    let mut manager = CursorManager::new();
    manager.raw_content_length = 100;
    manager.rendered_content_length = 150;

    let stats = manager.get_mapping_stats();
    assert_eq!(stats.element_count, 0);
    assert_eq!(stats.position_mapping_count, 0);
    assert_eq!(stats.active_element_count, 0);
    assert_eq!(stats.raw_content_length, 100);
    assert_eq!(stats.rendered_content_length, 150);
}

#[test]
fn element_mapping_ids_and_debug_names() {
    let mut manager = CursorManager::with_position(3);
    let syntax_elements = vec![
        SyntaxElement::new(
            SyntaxElementType::Header { level: 2 },
            PositionRange::new(0, 6),
            "## Hi".to_string(),
            "Hi".to_string(),
        ),
        SyntaxElement::new(
            SyntaxElementType::Link { url: "u".to_string(), title: None },
            PositionRange::new(7, 14),
            "[a](u)".to_string(),
            "a".to_string(),
        ),
    ];
    let rendered_elements = vec![
        RenderedElement::new("<h2>Hi</h2>".to_string(), vec![], "## Hi".to_string(), (0, 11)),
        RenderedElement::new("<a>a</a>".to_string(), vec![], "[a](u)".to_string(), (12, 20)),
    ];
    manager.update_element_mappings(&syntax_elements, &rendered_elements, "## Hi\n[a](u)", "x");
    assert_eq!(manager.element_mappings[0].0, "element_0");
    assert_eq!(manager.element_mappings[0].1.element_type, "Header { level: 2 }");
    assert_eq!(manager.element_mappings[1].0, "element_1");
    assert_eq!(
        manager.element_mappings[1].1.element_type,
        "Link { url: \"u\", title: None }"
    );
    // Positions are sorted by raw position.
    let raws: Vec<usize> = manager.position_mappings.iter().map(|p| p.raw_position).collect();
    assert_eq!(raws, vec![0, 6, 7, 14]);
    // The cursor at raw 3 lies in the header: 0 + 3 * 11 / 6 = 5.
    assert_eq!(manager.rendered_position(), Some(5));
    // Exact position mappings win.
    assert_eq!(manager.map_raw_to_rendered(7), Some(12));
    assert_eq!(manager.map_rendered_to_raw(20), 14);
}

#[test]
fn mode_switch_round_trip_and_error() {
    let mut manager = CursorManager::with_position(4);
    let err = manager.preserve_position_for_mode_switch(true, false);
    assert_eq!(err, Err("Could not map raw position to rendered position".to_string()));

    manager.raw_content_length = 10;
    manager.rendered_content_length = 20;
    let to_rendered = manager.preserve_position_for_mode_switch(true, false).unwrap();
    assert_eq!(to_rendered.absolute, 8);
    assert_eq!(manager.rendered_position(), Some(8));
    let back = manager.preserve_position_for_mode_switch(false, true).unwrap();
    assert_eq!(back.absolute, 4);
    assert_eq!(manager.raw_position(), 4);
    let same = manager.preserve_position_for_mode_switch(false, false).unwrap();
    assert_eq!(same.absolute, 8);
}

#[test]
fn change_drops_overlapping_and_shifts_later_mappings() {
    let mut manager = CursorManager::new();
    let mk = |s: usize, e: usize| ElementMapping {
        raw_range: PositionRange::new(s, e),
        rendered_range: PositionRange::new(s, e),
        element_type: "Bold".to_string(),
        is_active: false,
    };
    manager.element_mappings.push(("a".to_string(), mk(0, 3)));
    manager.element_mappings.push(("b".to_string(), mk(4, 8)));
    manager.element_mappings.push(("c".to_string(), mk(10, 12)));
    manager.raw_content_length = 12;
    manager.raw_position = 6;
    manager.handle_content_change(&PositionRange::new(5, 9), "", "xy");
    let ids: Vec<&str> = manager.element_mappings.iter().map(|(id, _)| id.as_str()).collect();
    assert_eq!(ids, vec!["a", "c"]);
    assert_eq!(manager.element_mappings[1].1.raw_range, PositionRange::new(8, 10));
    assert_eq!(manager.raw_position(), 7);
    assert_eq!(manager.raw_content_length, 10);
    assert_eq!(manager.rendered_position(), None);
}

#[test]
fn set_active_and_list_active_elements() {
    let mut manager = CursorManager::new();
    let mk = || ElementMapping {
        raw_range: PositionRange::new(0, 1),
        rendered_range: PositionRange::new(0, 1),
        element_type: "Italic".to_string(),
        is_active: false,
    };
    manager.element_mappings.push(("x".to_string(), mk()));
    manager.element_mappings.push(("y".to_string(), mk()));
    manager.set_element_active("y", true);
    manager.set_element_active("missing", true);
    let active = manager.get_active_elements();
    assert_eq!(active.len(), 1);
    assert_eq!(active[0].0, "y");
    assert_eq!(manager.get_mapping_stats().active_element_count, 1);
    manager.clear_mappings();
    assert_eq!(manager.get_mapping_stats().element_count, 0);
}

#[test]
fn lengths_and_shifts_count_utf8_bytes() {
    let mut manager = CursorManager::with_position(0);
    manager.update_element_mappings(&[], &[], "é", "<p>é</p>");
    let stats = manager.get_mapping_stats();
    assert_eq!(stats.raw_content_length, 2);
    assert_eq!(stats.rendered_content_length, 9);

    let mut manager = CursorManager::with_position(5);
    manager.raw_content_length = 10;
    manager.handle_content_change(&PositionRange::new(1, 2), "", "éé");
    assert_eq!(manager.raw_position(), 8);
    assert_eq!(manager.get_mapping_stats().raw_content_length, 13);
}

#[test]
fn rebuilding_mappings_counts_and_maps_the_cursor() {
    let mut manager = CursorManager::with_position(2);
    let mut bold = SyntaxElement::new(
        SyntaxElementType::Bold,
        PositionRange::new(0, 5),
        "**b**".to_string(),
        "b".to_string(),
    );
    bold.set_active(true);
    let code = SyntaxElement::new(
        SyntaxElementType::InlineCode,
        PositionRange::new(6, 9),
        "`c`".to_string(),
        "c".to_string(),
    );
    let rendered = vec![
        RenderedElement::new("<strong>b</strong>".to_string(), vec![], "**b**".to_string(), (0, 18)),
        RenderedElement::new("<code>c</code>".to_string(), vec![], "`c`".to_string(), (19, 33)),
        RenderedElement::new("<em>x</em>".to_string(), vec![], "*x*".to_string(), (34, 44)),
    ];
    manager.update_element_mappings(&[bold, code], &rendered, "**b** `c`", "<strong>b</strong> <code>c</code>");
    let stats = manager.get_mapping_stats();
    assert_eq!(stats.element_count, 2);
    assert_eq!(stats.position_mapping_count, 4);
    assert_eq!(stats.active_element_count, 1);
    assert_eq!(stats.raw_content_length, 9);
    assert_eq!(stats.rendered_content_length, 33);
    assert_eq!(manager.raw_position, 2);
    assert_eq!(manager.rendered_position, manager.map_raw_to_rendered(2));
}
