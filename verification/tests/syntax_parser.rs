use rune_editor::syntax_parser::{
    MarkdownSyntaxParser, PositionRange, SyntaxElement, SyntaxElementType, SyntaxParser,
};

#[test]
fn test_header_parsing() {
    let parser = MarkdownSyntaxParser::new();
    let content = "# Header 1\n## Header 2\n### Header 3";
    let elements = parser.parse_document(content);

    assert_eq!(elements.len(), 3);

    if let SyntaxElementType::Header { level } = &elements[0].element_type {
        assert_eq!(*level, 1);
        assert_eq!(elements[0].rendered_content, "Header 1");
    } else {
        panic!("Expected header element");
    }
}

#[test]
fn test_bold_parsing() {
    let parser = MarkdownSyntaxParser::new();
    let content = "This is **bold** text";
    let elements = parser.parse_document(content);

    let bold_elements: Vec<_> = elements
        .iter()
        .filter(|e| matches!(e.element_type, SyntaxElementType::Bold))
        .collect();

    assert_eq!(bold_elements.len(), 1);
    assert_eq!(bold_elements[0].rendered_content, "bold");
    assert_eq!(bold_elements[0].raw_content, "**bold**");
}

#[test]
fn test_italic_parsing() {
    let parser = MarkdownSyntaxParser::new();
    let content = "This is *italic* text";
    let elements = parser.parse_document(content);

    let italic_elements: Vec<_> = elements
        .iter()
        .filter(|e| matches!(e.element_type, SyntaxElementType::Italic))
        .collect();

    assert_eq!(italic_elements.len(), 1);
    assert_eq!(italic_elements[0].rendered_content, "italic");
    assert_eq!(italic_elements[0].raw_content, "*italic*");
}

#[test]
fn test_inline_code_parsing() {
    let parser = MarkdownSyntaxParser::new();
    let content = "This is `code` text";
    let elements = parser.parse_document(content);

    let code_elements: Vec<_> = elements
        .iter()
        .filter(|e| matches!(e.element_type, SyntaxElementType::InlineCode))
        .collect();

    assert_eq!(code_elements.len(), 1);
    assert_eq!(code_elements[0].rendered_content, "code");
    assert_eq!(code_elements[0].raw_content, "`code`");
}

#[test]
fn test_link_parsing() {
    let parser = MarkdownSyntaxParser::new();
    let content = "This is a [link](https://example.com) text";
    let elements = parser.parse_document(content);

    let link_elements: Vec<_> = elements
        .iter()
        .filter(|e| matches!(e.element_type, SyntaxElementType::Link { .. }))
        .collect();

    assert_eq!(link_elements.len(), 1);
    assert_eq!(link_elements[0].rendered_content, "link");

    if let SyntaxElementType::Link { url, .. } = &link_elements[0].element_type {
        assert_eq!(url, "https://example.com");
    }
}

#[test]
fn test_list_parsing() {
    let parser = MarkdownSyntaxParser::new();
    let content = "- Item 1\n- Item 2\n1. Numbered item";
    let elements = parser.parse_document(content);

    let list_elements: Vec<_> = elements
        .iter()
        .filter(|e| {
            matches!(
                e.element_type,
                SyntaxElementType::UnorderedListItem { .. }
                    | SyntaxElementType::OrderedListItem { .. }
            )
        })
        .collect();

    assert_eq!(list_elements.len(), 3);
}

#[test]
fn test_position_range() {
    let range = PositionRange::new(5, 10);

    assert!(range.contains(7));
    assert!(!range.contains(10));
    assert!(!range.contains(4));
    assert_eq!(range.len(), 5);

    let other_range = PositionRange::new(8, 15);
    assert!(range.overlaps(&other_range));

    let non_overlapping = PositionRange::new(15, 20);
    assert!(!range.overlaps(&non_overlapping));
}

#[test]
fn parse_document_sorts_by_start_and_keeps_positions() {
    let parser = MarkdownSyntaxParser::new();
    let elements = parser.parse_document("## **Hi** `x`");
    let starts: Vec<usize> = elements.iter().map(|e| e.range.start).collect();
    let mut sorted = starts.clone();
    sorted.sort();
    assert_eq!(starts, sorted);
    assert!(matches!(elements[0].element_type, SyntaxElementType::Header { level: 2 }));
    assert_eq!(elements[0].range, PositionRange::new(0, 13));
    assert_eq!(elements[0].rendered_content, "**Hi** `x`");
}

#[test]
fn header_scan_consumes_the_character_after_the_hashes() {
    let parser = MarkdownSyntaxParser::new();
    let elements = parser.parse_line("##Header", 4);
    assert_eq!(elements.len(), 1);
    assert_eq!(elements[0].rendered_content, "eader");
    assert_eq!(elements[0].range, PositionRange::new(4, 12));
}

#[test]
fn ordered_item_with_large_number_is_not_a_list_item() {
    let parser = MarkdownSyntaxParser::new();
    let elements = parser.parse_line("99999999999. big", 0);
    assert!(elements.is_empty());
    let elements = parser.parse_line("+7. plus", 0);
    assert!(matches!(
        elements[0].element_type,
        SyntaxElementType::OrderedListItem { level: 0, number: 7 }
    ));
}

#[test]
fn update_after_change_drops_overlapping_and_shifts_later() {
    let parser = MarkdownSyntaxParser::new();
    let mut elements = parser.parse_document("**a** and `b`");
    assert_eq!(elements.len(), 3);
    parser.update_elements_after_change(&mut elements, PositionRange::new(0, 5), "x");
    assert_eq!(elements.len(), 1);
    assert_eq!(elements[0].range, PositionRange::new(6, 9));
}

#[test]
fn find_element_at_position_returns_the_first_containing_one() {
    let parser = MarkdownSyntaxParser::new();
    let elements = parser.parse_document("**bold**");
    let found = parser.find_element_at_position(&elements, 1).unwrap();
    assert!(matches!(found.element_type, SyntaxElementType::Bold));
    assert!(parser.find_element_at_position(&elements, 8).is_none());
}

#[test]
fn incremental_parse_offsets_the_window() {
    let parser = MarkdownSyntaxParser::new();
    let mut content = String::new();
    for _ in 0..150 {
        content.push('a');
    }
    content.push_str("`c`");
    let elements = parser.parse_incremental(&content, 150, None);
    assert_eq!(elements.len(), 1);
    assert_eq!(elements[0].range, PositionRange::new(150, 153));
    let manual = SyntaxElement::new(
        SyntaxElementType::InlineCode,
        PositionRange::new(150, 153),
        "`c`".to_string(),
        "c".to_string(),
    );
    assert_eq!(elements[0], manual);
}

#[test]
fn positions_are_byte_offsets() {
    let parser = MarkdownSyntaxParser::new();
    // "é" is two bytes: the header line starts at byte 3.
    let elements = parser.parse_document("é\n# Héad\n- x");
    let header = elements.iter().find(|e| matches!(e.element_type, SyntaxElementType::Header { .. })).unwrap();
    assert_eq!(header.range, PositionRange::new(3, 10));
    let item = elements
        .iter()
        .find(|e| matches!(e.element_type, SyntaxElementType::UnorderedListItem { .. }))
        .unwrap();
    assert_eq!(item.range, PositionRange::new(11, 14));
    // Inline elements start at the byte offset of their first character and
    // span as many positions as they have characters.
    let inline = parser.parse_document("é *ab*");
    let italic = inline.iter().find(|e| e.element_type == SyntaxElementType::Italic).unwrap();
    assert_eq!(italic.range, PositionRange::new(3, 7));
    let bold = parser.parse_document("**é**");
    assert_eq!(bold[0].range, PositionRange::new(0, 5));
}
